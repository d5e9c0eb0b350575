//! The instruction set of the stack machine and its byte encoding.
//!
//! An instruction is one opcode byte followed by the opcode's operands. The
//! number of operands depends on the opcode alone, and every operand is two
//! bytes wide, most significant byte first.

use vstd::prelude::*;

verus! {

/// One operation of the stack machine.
#[derive(Clone, Copy, Debug, PartialEq, Eq, Structural)]
pub enum Opcode {
    /// Push the constant whose pool index is the operand.
    OpConst,
    /// Discard the value on top of the stack.
    OpPop,
    OpAdd,
    OpSub,
    OpMul,
    OpDiv,
    OpGreaterThan,
    OpEqual,
    OpNotEqual,
    OpTrue,
    OpFalse,
    /// Arithmetic negation.
    OpMinus,
    /// Logical negation.
    OpBang,
    /// Continue at the byte offset given by the operand.
    OpJump,
    /// Pop a value; continue at the operand's offset unless the value is truthy.
    OpJumpNotTruthy,
}

/// Width in bytes of every operand.
pub const OPERAND_WIDTH: usize = 2;

impl Opcode {
    /// The byte that stands for this opcode in an instruction stream.
    pub open spec fn byte(self) -> u8 {
        match self {
            Opcode::OpConst => 0,
            Opcode::OpPop => 1,
            Opcode::OpAdd => 2,
            Opcode::OpSub => 3,
            Opcode::OpMul => 4,
            Opcode::OpDiv => 5,
            Opcode::OpGreaterThan => 6,
            Opcode::OpEqual => 7,
            Opcode::OpNotEqual => 8,
            Opcode::OpTrue => 9,
            Opcode::OpFalse => 10,
            Opcode::OpMinus => 11,
            Opcode::OpBang => 12,
            Opcode::OpJump => 13,
            Opcode::OpJumpNotTruthy => 14,
        }
    }

    /// The opcode that a leading byte stands for, if any.
    pub open spec fn decode(byte: u8) -> Option<Opcode> {
        if byte == 0 {
            Some(Opcode::OpConst)
        } else if byte == 1 {
            Some(Opcode::OpPop)
        } else if byte == 2 {
            Some(Opcode::OpAdd)
        } else if byte == 3 {
            Some(Opcode::OpSub)
        } else if byte == 4 {
            Some(Opcode::OpMul)
        } else if byte == 5 {
            Some(Opcode::OpDiv)
        } else if byte == 6 {
            Some(Opcode::OpGreaterThan)
        } else if byte == 7 {
            Some(Opcode::OpEqual)
        } else if byte == 8 {
            Some(Opcode::OpNotEqual)
        } else if byte == 9 {
            Some(Opcode::OpTrue)
        } else if byte == 10 {
            Some(Opcode::OpFalse)
        } else if byte == 11 {
            Some(Opcode::OpMinus)
        } else if byte == 12 {
            Some(Opcode::OpBang)
        } else if byte == 13 {
            Some(Opcode::OpJump)
        } else if byte == 14 {
            Some(Opcode::OpJumpNotTruthy)
        } else {
            None
        }
    }

    /// How many operands follow the opcode byte.
    pub open spec fn arity(self) -> nat {
        match self {
            Opcode::OpConst | Opcode::OpJump | Opcode::OpJumpNotTruthy => 1,
            _ => 0,
        }
    }

    /// Length in bytes of an instruction with this opcode.
    pub open spec fn size(self) -> nat {
        1 + 2 * self.arity()
    }

    /// The opcode's mnemonic.
    pub open spec fn name(self) -> Seq<char> {
        match self {
            Opcode::OpConst => "OpConst"@,
            Opcode::OpPop => "OpPop"@,
            Opcode::OpAdd => "OpAdd"@,
            Opcode::OpSub => "OpSub"@,
            Opcode::OpMul => "OpMul"@,
            Opcode::OpDiv => "OpDiv"@,
            Opcode::OpGreaterThan => "OpGreaterThan"@,
            Opcode::OpEqual => "OpEqual"@,
            Opcode::OpNotEqual => "OpNotEqual"@,
            Opcode::OpTrue => "OpTrue"@,
            Opcode::OpFalse => "OpFalse"@,
            Opcode::OpMinus => "OpMinus"@,
            Opcode::OpBang => "OpBang"@,
            Opcode::OpJump => "OpJump"@,
            Opcode::OpJumpNotTruthy => "OpJumpNotTruthy"@,
        }
    }

    /// The byte that stands for this opcode in an instruction stream.
    pub fn to_byte(self) -> (byte: u8)
        ensures
            byte == self.byte(),
    {
        match self {
            Opcode::OpConst => 0,
            Opcode::OpPop => 1,
            Opcode::OpAdd => 2,
            Opcode::OpSub => 3,
            Opcode::OpMul => 4,
            Opcode::OpDiv => 5,
            Opcode::OpGreaterThan => 6,
            Opcode::OpEqual => 7,
            Opcode::OpNotEqual => 8,
            Opcode::OpTrue => 9,
            Opcode::OpFalse => 10,
            Opcode::OpMinus => 11,
            Opcode::OpBang => 12,
            Opcode::OpJump => 13,
            Opcode::OpJumpNotTruthy => 14,
        }
    }

    /// Maps a leading byte back to its opcode; `None` for a byte that stands
    /// for no opcode.
    pub fn from_byte(byte: u8) -> (opcode: Option<Opcode>)
        ensures
            opcode == Opcode::decode(byte),
    {
        match byte {
            0 => Some(Opcode::OpConst),
            1 => Some(Opcode::OpPop),
            2 => Some(Opcode::OpAdd),
            3 => Some(Opcode::OpSub),
            4 => Some(Opcode::OpMul),
            5 => Some(Opcode::OpDiv),
            6 => Some(Opcode::OpGreaterThan),
            7 => Some(Opcode::OpEqual),
            8 => Some(Opcode::OpNotEqual),
            9 => Some(Opcode::OpTrue),
            10 => Some(Opcode::OpFalse),
            11 => Some(Opcode::OpMinus),
            12 => Some(Opcode::OpBang),
            13 => Some(Opcode::OpJump),
            14 => Some(Opcode::OpJumpNotTruthy),
            _ => None,
        }
    }

    /// How many operands follow the opcode byte.
    pub fn operand_count(self) -> (count: usize)
        ensures
            count == self.arity(),
    {
        match self {
            Opcode::OpConst | Opcode::OpJump | Opcode::OpJumpNotTruthy => 1,
            _ => 0,
        }
    }

    /// The opcode's mnemonic.
    pub fn mnemonic(self) -> (text: &'static str)
        ensures
            text@ == self.name(),
    {
        match self {
            Opcode::OpConst => "OpConst",
            Opcode::OpPop => "OpPop",
            Opcode::OpAdd => "OpAdd",
            Opcode::OpSub => "OpSub",
            Opcode::OpMul => "OpMul",
            Opcode::OpDiv => "OpDiv",
            Opcode::OpGreaterThan => "OpGreaterThan",
            Opcode::OpEqual => "OpEqual",
            Opcode::OpNotEqual => "OpNotEqual",
            Opcode::OpTrue => "OpTrue",
            Opcode::OpFalse => "OpFalse",
            Opcode::OpMinus => "OpMinus",
            Opcode::OpBang => "OpBang",
            Opcode::OpJump => "OpJump",
            Opcode::OpJumpNotTruthy => "OpJumpNotTruthy",
        }
    }
}

/// Decoding the byte of an opcode gives that opcode back, and a byte decodes
/// to at most the opcode that it is the byte of.
pub proof fn lemma_decode_inverts_byte(opcode: Opcode, byte: u8)
    ensures
        Opcode::decode(opcode.byte()) == Some(opcode),
        Opcode::decode(byte) == Some(opcode) <==> byte == opcode.byte(),
{
}

/// A sequence of encoded instructions, addressed by byte offset.
#[derive(Debug, PartialEq, Eq)]
pub struct Instructions(pub Vec<u8>);

impl View for Instructions {
    type V = Seq<u8>;

    open spec fn view(&self) -> Seq<u8> {
        self.0@
    }
}

impl Default for Instructions {
    fn default() -> (empty: Instructions)
        ensures
            empty@ == Seq::<u8>::empty(),
    {
        Instructions(Vec::new())
    }
}

impl Clone for Instructions {
    fn clone(&self) -> (copy: Instructions)
        ensures
            copy@ == self@,
    {
        Instructions(self.0.clone())
    }
}

/// The two bytes of an operand: its value modulo 65536, most significant byte
/// first.
pub open spec fn operand_bytes(value: nat) -> Seq<u8> {
    seq![((value / 256) % 256) as u8, (value % 256) as u8]
}

/// The bytes of a list of operands, in order.
pub open spec fn operands_bytes(values: Seq<nat>) -> Seq<u8>
    decreases values.len(),
{
    if values.len() == 0 {
        Seq::empty()
    } else {
        operands_bytes(values.drop_last()) + operand_bytes(values.last())
    }
}

/// The bytes of one instruction: the opcode's byte, then its operands.
pub open spec fn encode(opcode: Opcode, operands: Seq<nat>) -> Seq<u8> {
    seq![opcode.byte()] + operands_bytes(operands)
}

/// Machine-word operands as natural numbers.
pub open spec fn operand_values(operands: Seq<usize>) -> Seq<nat> {
    operands.map_values(|x: usize| x as nat)
}

/// The value of the operand whose two bytes start at offset `at`.
pub open spec fn operand_at(code: Seq<u8>, at: int) -> nat {
    (code[at] * 256 + code[at + 1]) as nat
}

/// Encodes one instruction. The operands must be as many as the opcode takes.
pub fn make(opcode: Opcode, operands: &Vec<usize>) -> (instruction: Instructions)
    requires
        operands@.len() == opcode.arity(),
    ensures
        instruction@ == encode(opcode, operand_values(operands@)),
{
    let mut bytes: Vec<u8> = Vec::new();
    bytes.push(opcode.to_byte());
    let mut i: usize = 0;
    while i < operands.len()
        invariant
            i <= operands.len(),
            bytes@ == encode(opcode, operand_values(operands@.take(i as int))),
        decreases operands.len() - i,
    {
        let x: usize = operands[i];
        bytes.push(((x / 256) % 256) as u8);
        bytes.push((x % 256) as u8);
        proof {
            let before = operand_values(operands@.take(i as int));
            let after = operand_values(operands@.take(i + 1));
            assert(after.drop_last() =~= before);
            assert(after.last() == x as nat);
        }
        i += 1;
    }
    assert(operands@.take(operands.len() as int) =~= operands@);
    Instructions(bytes)
}

/// Reads the operand whose two bytes start at offset `at`.
pub fn read_operand(code: &Vec<u8>, at: usize) -> (value: usize)
    requires
        at + 2 <= code.len(),
    ensures
        value == operand_at(code@, at as int),
{
    let high: usize = code[at] as usize;
    let low: usize = code[at + 1] as usize;
    high * 256 + low
}

/// Reading an encoded operand gives its value modulo 65536.
pub proof fn lemma_operand_round_trip(value: nat)
    ensures
        operand_bytes(value).len() == 2,
        operand_at(operand_bytes(value), 0) == value % 65536,
{
}

/// An encoded instruction is as long as its opcode says, starts with the
/// opcode's byte, and holds its operands modulo 65536.
pub proof fn lemma_encode_layout(opcode: Opcode, operands: Seq<nat>)
    requires
        operands.len() == opcode.arity(),
    ensures
        encode(opcode, operands).len() == opcode.size(),
        encode(opcode, operands)[0] == opcode.byte(),
        opcode.arity() == 1 ==> operand_at(encode(opcode, operands), 1) == operands[0] % 65536,
{
    if opcode.arity() == 1 {
        assert(operands.drop_last().len() == 0);
        assert(operands_bytes(operands) =~= operand_bytes(operands[0])) by {
            reveal_with_fuel(operands_bytes, 2);
        }
        lemma_operand_round_trip(operands[0]);
    } else {
        assert(operands_bytes(operands) =~= Seq::<u8>::empty());
    }
}

} // verus!
