//! Instruction streams as text, one line for each instruction.

use vstd::prelude::*;
use crate::opcode::{operand_at, read_operand, Instructions, Opcode, OPERAND_WIDTH};
use crate::stream::{well_formed, well_formed_from};
use crate::text::{decimal, decimal_of_width_four, push_decimal, push_decimal_of_width_four};

verus! {

/// The line of the instruction that starts at `offset`: the offset, at
/// least four digits wide, a space and the opcode's mnemonic; then, for an
/// opcode that takes an operand, a space and the operand; then a line feed.
pub open spec fn line(code: Seq<u8>, offset: int, opcode: Opcode) -> Seq<char> {
    decimal_of_width_four(offset as nat) + seq![' '] + opcode.name() + if opcode.arity() == 1 {
        seq![' '] + decimal(operand_at(code, offset + 1))
    } else {
        Seq::empty()
    } + seq!['\n']
}

/// The lines of the instructions from offset `from` on, as far as whole
/// instructions go.
pub open spec fn listing_from(code: Seq<u8>, from: int) -> Seq<char>
    decreases code.len() - from,
{
    if from < 0 || from >= code.len() {
        Seq::empty()
    } else {
        match Opcode::decode(code[from]) {
            Some(opcode) => if from + opcode.size() <= code.len() {
                line(code, from, opcode) + listing_from(code, from + opcode.size())
            } else {
                Seq::empty()
            },
            None => Seq::empty(),
        }
    }
}

/// The lines of all instructions of a stream.
pub open spec fn listing(code: Seq<u8>) -> Seq<char> {
    listing_from(code, 0)
}

/// Appends the line of the instruction that starts at `offset`, which must
/// be a whole instruction with the opcode `opcode`.
fn push_line(lines: &mut String, code: &Vec<u8>, offset: usize, opcode: Opcode)
    requires
        offset + opcode.size() <= code.len(),
    ensures
        final(lines)@ == old(lines)@ + line(code@, offset as int, opcode),
{
    proof {
        reveal_strlit(" ");
        reveal_strlit("\n");
        assert(" "@ =~= seq![' ']);
        assert("\n"@ =~= seq!['\n']);
    }
    push_decimal_of_width_four(lines, offset as u64);
    lines.append(" ");
    lines.append(opcode.mnemonic());
    if opcode.operand_count() == 1 {
        let operand = read_operand(code, offset + 1);
        lines.append(" ");
        push_decimal(lines, operand as u64);
    }
    lines.append("\n");
    assert(lines@ =~= old(lines)@ + line(code@, offset as int, opcode));
}

/// Renders an instruction stream as text, one line for each instruction in
/// stream order. There is no text for a stream that is not a run of whole
/// instructions.
pub fn disassemble(instructions: &Instructions) -> (text: Option<String>)
    ensures
        text is Some <==> well_formed(instructions@),
        text matches Some(lines) ==> lines@ == listing(instructions@),
{
    let code = &instructions.0;
    let mut lines = String::new();
    let mut offset: usize = 0;
    while offset < code.len()
        invariant
            offset <= code.len(),
            code@ == instructions@,
            well_formed(code@) == well_formed_from(code@, offset as int),
            listing(code@) == lines@ + listing_from(code@, offset as int),
        decreases code.len() - offset,
    {
        let opcode = match Opcode::from_byte(code[offset]) {
            Some(opcode) => opcode,
            None => {
                return None;
            },
        };
        let size = 1 + opcode.operand_count() * OPERAND_WIDTH;
        if size > code.len() - offset {
            return None;
        }
        let ghost before = lines@;
        push_line(&mut lines, code, offset, opcode);
        assert(listing(code@) == lines@ + listing_from(code@, offset + size)) by {
            assert(before + (line(code@, offset as int, opcode) + listing_from(
                code@,
                offset + size,
            )) =~= lines@ + listing_from(code@, offset + size));
        }
        offset += size;
    }
    assert(lines@ =~= listing(code@));
    Some(lines)
}

} // verus!
