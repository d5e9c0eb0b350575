//! Instruction streams: what it means for a byte sequence to be a run of
//! whole instructions, and where its instructions start.

use vstd::prelude::*;
use crate::opcode::{
    encode, lemma_decode_inverts_byte, lemma_encode_layout, operand_at, Opcode,
};

verus! {

/// Whether `code`, read from offset `from`, is a run of whole instructions:
/// each one a known opcode with all its operand bytes present.
pub open spec fn well_formed_from(code: Seq<u8>, from: int) -> bool
    decreases code.len() - from,
{
    if from < 0 || from > code.len() {
        false
    } else if from == code.len() {
        true
    } else {
        match Opcode::decode(code[from]) {
            Some(opcode) => from + opcode.size() <= code.len() && well_formed_from(
                code,
                from + opcode.size(),
            ),
            None => false,
        }
    }
}

/// Whether `code` is a run of whole instructions from its first byte to its
/// last.
pub open spec fn well_formed(code: Seq<u8>) -> bool {
    well_formed_from(code, 0)
}

/// Whether reading whole instructions from offset `from` comes by `offset`:
/// an instruction starts there, or the stream ends there.
pub open spec fn boundary_from(code: Seq<u8>, from: int, offset: int) -> bool
    decreases code.len() - from,
{
    if from < 0 || from > code.len() {
        false
    } else if offset == from {
        true
    } else if from == code.len() {
        false
    } else {
        match Opcode::decode(code[from]) {
            Some(opcode) => from + opcode.size() <= code.len() && boundary_from(
                code,
                from + opcode.size(),
                offset,
            ),
            None => false,
        }
    }
}

/// Whether `offset` is where an instruction of `code` starts, or the end of
/// `code`.
pub open spec fn is_boundary(code: Seq<u8>, offset: int) -> bool {
    boundary_from(code, 0, offset)
}

/// One instruction with as many operands as its opcode takes is a
/// well-formed stream.
pub proof fn lemma_instruction_well_formed(opcode: Opcode, operands: Seq<nat>)
    requires
        operands.len() == opcode.arity(),
    ensures
        well_formed(encode(opcode, operands)),
{
    lemma_encode_layout(opcode, operands);
    lemma_decode_inverts_byte(opcode, opcode.byte());
    let code = encode(opcode, operands);
    assert(well_formed_from(code, code.len() as int));
}

/// A well-formed stream followed by a well-formed stream is well-formed.
pub proof fn lemma_well_formed_concat(first: Seq<u8>, second: Seq<u8>)
    requires
        well_formed(first),
        well_formed(second),
    ensures
        well_formed(first + second),
{
    lemma_well_formed_concat_from(first, second, 0);
}

proof fn lemma_well_formed_concat_from(first: Seq<u8>, second: Seq<u8>, from: int)
    requires
        well_formed_from(first, from),
        well_formed(second),
    ensures
        well_formed_from(first + second, from),
    decreases first.len() - from,
{
    let whole = first + second;
    if from == first.len() {
        lemma_well_formed_shift(first, second, 0);
    } else {
        let opcode = Opcode::decode(first[from]).unwrap();
        assert(whole[from] == first[from]);
        lemma_well_formed_concat_from(first, second, from + opcode.size());
    }
}

/// A well-formed stream stays well-formed where it stands behind other
/// bytes.
proof fn lemma_well_formed_shift(first: Seq<u8>, second: Seq<u8>, from: int)
    requires
        well_formed_from(second, from),
    ensures
        well_formed_from(first + second, first.len() + from),
    decreases second.len() - from,
{
    let whole = first + second;
    if from < second.len() {
        let opcode = Opcode::decode(second[from]).unwrap();
        assert(whole[first.len() + from] == second[from]);
        lemma_well_formed_shift(first, second, from + opcode.size());
    }
}

/// A boundary lies within the stream.
pub proof fn lemma_boundary_in_range(code: Seq<u8>, from: int, offset: int)
    requires
        boundary_from(code, from, offset),
    ensures
        0 <= from <= offset <= code.len(),
    decreases code.len() - from,
{
    if offset != from {
        let opcode = Opcode::decode(code[from]).unwrap();
        lemma_boundary_in_range(code, from + opcode.size(), offset);
    }
}

/// In a well-formed stream, an instruction that starts at a boundary is
/// whole, and what follows the boundary is well-formed.
pub proof fn lemma_instruction_at_boundary(code: Seq<u8>, from: int, offset: int)
    requires
        well_formed_from(code, from),
        boundary_from(code, from, offset),
    ensures
        well_formed_from(code, offset),
        offset < code.len() ==> Opcode::decode(code[offset]) is Some && offset + Opcode::decode(
            code[offset],
        ).unwrap().size() <= code.len(),
    decreases code.len() - from,
{
    if offset != from {
        let opcode = Opcode::decode(code[from]).unwrap();
        lemma_instruction_at_boundary(code, from + opcode.size(), offset);
    }
}

/// The end of a well-formed stream is a boundary.
pub proof fn lemma_end_is_boundary(code: Seq<u8>, from: int)
    requires
        well_formed_from(code, from),
    ensures
        boundary_from(code, from, code.len() as int),
    decreases code.len() - from,
{
    if from < code.len() {
        let opcode = Opcode::decode(code[from]).unwrap();
        lemma_end_is_boundary(code, from + opcode.size());
    }
}

/// A boundary of a well-formed stream is a boundary of the stream with more
/// code behind it.
pub proof fn lemma_boundary_of_first(first: Seq<u8>, second: Seq<u8>, from: int, offset: int)
    requires
        well_formed_from(first, from),
        boundary_from(first, from, offset),
    ensures
        boundary_from(first + second, from, offset),
    decreases first.len() - from,
{
    if offset != from {
        let opcode = Opcode::decode(first[from]).unwrap();
        assert((first + second)[from] == first[from]);
        lemma_boundary_of_first(first, second, from + opcode.size(), offset);
    }
}

proof fn lemma_boundary_shift(first: Seq<u8>, second: Seq<u8>, from: int, offset: int)
    requires
        boundary_from(second, from, offset),
    ensures
        boundary_from(first + second, first.len() + from, first.len() + offset),
    decreases second.len() - from,
{
    if offset != from {
        let opcode = Opcode::decode(second[from]).unwrap();
        assert((first + second)[first.len() + from] == second[from]);
        lemma_boundary_shift(first, second, from + opcode.size(), offset);
    }
}

proof fn lemma_boundary_unshift(first: Seq<u8>, second: Seq<u8>, from: int, offset: int)
    requires
        0 <= from,
        boundary_from(first + second, first.len() + from, offset),
    ensures
        boundary_from(second, from, offset - first.len()),
    decreases second.len() - from,
{
    if offset != first.len() + from {
        assert((first + second)[first.len() + from] == second[from]);
        let opcode = Opcode::decode(second[from]).unwrap();
        lemma_boundary_unshift(first, second, from + opcode.size(), offset);
    }
}

/// A boundary of a stream is a boundary of the stream with well-formed code
/// in front of it, moved by the length of that code.
pub proof fn lemma_boundary_of_second(first: Seq<u8>, second: Seq<u8>, from: int, offset: int)
    requires
        well_formed_from(first, from),
        is_boundary(second, offset),
    ensures
        boundary_from(first + second, from, first.len() + offset),
    decreases first.len() - from,
{
    if from == first.len() {
        lemma_boundary_shift(first, second, 0, offset);
    } else {
        lemma_boundary_in_range(second, 0, offset);
        let opcode = Opcode::decode(first[from]).unwrap();
        assert((first + second)[from] == first[from]);
        lemma_boundary_of_second(first, second, from + opcode.size(), offset);
    }
}

/// A boundary of two streams joined, the first of them well-formed, is a
/// boundary of one of the two.
pub proof fn lemma_boundary_split(first: Seq<u8>, second: Seq<u8>, from: int, offset: int)
    requires
        well_formed_from(first, from),
        boundary_from(first + second, from, offset),
    ensures
        offset <= first.len() ==> boundary_from(first, from, offset),
        offset >= first.len() ==> is_boundary(second, offset - first.len()),
    decreases first.len() - from,
{
    if from == first.len() {
        lemma_boundary_in_range(first + second, from, offset);
        lemma_boundary_unshift(first, second, 0, offset);
    } else if offset != from {
        let opcode = Opcode::decode(first[from]).unwrap();
        assert((first + second)[from] == first[from]);
        lemma_boundary_split(first, second, from + opcode.size(), offset);
    }
}

/// Whether the operand of the instruction of `part` at `offset` refers to
/// something that exists, where `part` is a piece of the stream `whole`,
/// `whole` starts at the absolute offset `base`, and the pool entries that
/// `part` may refer to are those from `first` up to `last`: a jump goes to a
/// boundary of `whole`, and a constant index lies in the range.
pub open spec fn operand_lands(
    part: Seq<u8>,
    offset: int,
    whole: Seq<u8>,
    base: int,
    first: int,
    last: int,
) -> bool {
    match Opcode::decode(part[offset]) {
        Some(Opcode::OpJump) | Some(Opcode::OpJumpNotTruthy) => is_boundary(
            whole,
            operand_at(part, offset + 1) - base,
        ),
        Some(Opcode::OpConst) => first <= operand_at(part, offset + 1) < last,
        _ => true,
    }
}

/// Whether the operand of every instruction of `part` refers to something
/// that exists in `whole` and in the pool entries from `first` up to `last`.
pub open spec fn operands_land(
    part: Seq<u8>,
    whole: Seq<u8>,
    base: int,
    first: int,
    last: int,
) -> bool {
    forall|offset: int|
        #![trigger is_boundary(part, offset)]
        is_boundary(part, offset) && offset < part.len() ==> operand_lands(
            part,
            offset,
            whole,
            base,
            first,
            last,
        )
}

/// Whether the operands of `code` refer to what exists: every jump goes to
/// a boundary of `code`, which starts at the absolute offset `base`, and
/// every constant index lies in the pool entries from `first` up to `last`.
pub open spec fn operands_resolve(code: Seq<u8>, base: int, first: int, last: int) -> bool {
    operands_land(code, code, base, first, last)
}

/// What resolves against a range of pool entries resolves against a wider
/// one.
pub proof fn lemma_operands_land_widen(
    part: Seq<u8>,
    whole: Seq<u8>,
    base: int,
    first: int,
    last: int,
    wider_first: int,
    wider_last: int,
)
    requires
        operands_land(part, whole, base, first, last),
        wider_first <= first,
        last <= wider_last,
    ensures
        operands_land(part, whole, base, wider_first, wider_last),
{
    assert forall|offset: int|
        #![trigger is_boundary(part, offset)]
        is_boundary(part, offset) && offset < part.len() implies operand_lands(
        part,
        offset,
        whole,
        base,
        wider_first,
        wider_last,
    ) by {
        assert(operand_lands(part, offset, whole, base, first, last));
    }
}

/// Code whose operands resolve within itself still has them resolve where
/// it stands between other code, the code in front of it well-formed.
pub proof fn lemma_part_lands(
    front: Seq<u8>,
    part: Seq<u8>,
    back: Seq<u8>,
    base: int,
    first: int,
    last: int,
)
    requires
        well_formed(front),
        well_formed(part),
        operands_resolve(part, base + front.len(), first, last),
    ensures
        operands_land(part, front + part + back, base, first, last),
{
    let whole = front + part + back;
    assert forall|offset: int|
        #![trigger is_boundary(part, offset)]
        is_boundary(part, offset) && offset < part.len() implies operand_lands(
        part,
        offset,
        whole,
        base,
        first,
        last,
    ) by {
        assert(operand_lands(part, offset, part, base + front.len(), first, last));
        let opcode = Opcode::decode(part[offset]);
        if opcode == Some(Opcode::OpJump) || opcode == Some(Opcode::OpJumpNotTruthy) {
            let target = operand_at(part, offset + 1) - base - front.len();
            lemma_boundary_of_second(front, part, 0, target);
            lemma_well_formed_concat(front, part);
            lemma_boundary_of_first(front + part, back, 0, front.len() + target);
        }
    }
}

/// If the operands of two pieces of code resolve in a stream, so do those
/// of the two pieces joined.
pub proof fn lemma_operands_land_join(
    left: Seq<u8>,
    right: Seq<u8>,
    whole: Seq<u8>,
    base: int,
    first: int,
    last: int,
)
    requires
        well_formed(left),
        well_formed(right),
        operands_land(left, whole, base, first, last),
        operands_land(right, whole, base, first, last),
    ensures
        operands_land(left + right, whole, base, first, last),
{
    let joined = left + right;
    assert forall|offset: int|
        #![trigger is_boundary(joined, offset)]
        is_boundary(joined, offset) && offset < joined.len() implies operand_lands(
        joined,
        offset,
        whole,
        base,
        first,
        last,
    ) by {
        lemma_boundary_in_range(joined, 0, offset);
        lemma_boundary_split(left, right, 0, offset);
        if offset < left.len() {
            assert(is_boundary(left, offset));
            lemma_instruction_at_boundary(left, 0, offset);
            assert(joined[offset] == left[offset]);
            let opcode = Opcode::decode(left[offset]).unwrap();
            if opcode.arity() == 1 {
                assert(joined[offset + 1] == left[offset + 1]);
                assert(joined[offset + 2] == left[offset + 2]);
            }
            assert(operand_lands(left, offset, whole, base, first, last));
        } else {
            let inner = offset - left.len();
            lemma_instruction_at_boundary(right, 0, inner);
            assert(joined[offset] == right[inner]);
            let opcode = Opcode::decode(right[inner]).unwrap();
            if opcode.arity() == 1 {
                assert(joined[offset + 1] == right[inner + 1]);
                assert(joined[offset + 2] == right[inner + 2]);
            }
            assert(operand_lands(right, inner, whole, base, first, last));
        }
    }
}

/// The only instruction of a stream that is one instruction starts at
/// offset 0.
pub proof fn lemma_single_instruction_boundary(opcode: Opcode, operands: Seq<nat>, offset: int)
    requires
        operands.len() == opcode.arity(),
        is_boundary(encode(opcode, operands), offset),
        offset < encode(opcode, operands).len(),
    ensures
        offset == 0,
{
    let code = encode(opcode, operands);
    lemma_encode_layout(opcode, operands);
    lemma_decode_inverts_byte(opcode, opcode.byte());
    if offset != 0 {
        lemma_boundary_in_range(code, code.len() as int, offset);
    }
}

/// If the operands of two well-formed pieces of code resolve, each within
/// itself, then so do those of the first followed by the second.
pub proof fn lemma_operands_resolve_concat(
    left: Seq<u8>,
    right: Seq<u8>,
    base: int,
    first: int,
    last: int,
)
    requires
        well_formed(left),
        well_formed(right),
        operands_resolve(left, base, first, last),
        operands_resolve(right, base + left.len(), first, last),
    ensures
        operands_resolve(left + right, base, first, last),
{
    let empty = Seq::<u8>::empty();
    assert(empty + left + right =~= left + right);
    assert(left + right + empty =~= left + right);
    assert(well_formed(empty));
    lemma_part_lands(empty, left, right, base, first, last);
    lemma_part_lands(left, right, empty, base, first, last);
    lemma_operands_land_join(left, right, left + right, base, first, last);
}

/// An instruction without operands refers to nothing, so its operands
/// resolve.
pub proof fn lemma_plain_instruction_lands(
    opcode: Opcode,
    whole: Seq<u8>,
    base: int,
    first: int,
    last: int,
)
    requires
        opcode.arity() == 0,
    ensures
        operands_land(encode(opcode, seq![]), whole, base, first, last),
{
    let code = encode(opcode, seq![]);
    lemma_encode_layout(opcode, seq![]);
    lemma_decode_inverts_byte(opcode, opcode.byte());
    assert forall|offset: int|
        #![trigger is_boundary(code, offset)]
        is_boundary(code, offset) && offset < code.len() implies operand_lands(
        code,
        offset,
        whole,
        base,
        first,
        last,
    ) by {
        lemma_single_instruction_boundary(opcode, seq![], offset);
    }
}

/// The operand of a jump resolves if it is a boundary of the stream that
/// the jump is part of.
pub proof fn lemma_jump_lands(
    opcode: Opcode,
    target: nat,
    whole: Seq<u8>,
    base: int,
    first: int,
    last: int,
)
    requires
        opcode == Opcode::OpJump || opcode == Opcode::OpJumpNotTruthy,
        target <= 0xFFFF,
        is_boundary(whole, target - base),
    ensures
        operands_land(encode(opcode, seq![target]), whole, base, first, last),
{
    let code = encode(opcode, seq![target]);
    lemma_encode_layout(opcode, seq![target]);
    lemma_decode_inverts_byte(opcode, opcode.byte());
    assert forall|offset: int|
        #![trigger is_boundary(code, offset)]
        is_boundary(code, offset) && offset < code.len() implies operand_lands(
        code,
        offset,
        whole,
        base,
        first,
        last,
    ) by {
        lemma_single_instruction_boundary(opcode, seq![target], offset);
    }
}

/// The operand of a push-constant instruction resolves if it lies in the
/// range of pool entries.
pub proof fn lemma_constant_lands(
    index: nat,
    whole: Seq<u8>,
    base: int,
    first: int,
    last: int,
)
    requires
        first <= index < last,
        index <= 0xFFFF,
    ensures
        operands_land(encode(Opcode::OpConst, seq![index]), whole, base, first, last),
{
    let code = encode(Opcode::OpConst, seq![index]);
    lemma_encode_layout(Opcode::OpConst, seq![index]);
    lemma_decode_inverts_byte(Opcode::OpConst, Opcode::OpConst.byte());
    assert forall|offset: int|
        #![trigger is_boundary(code, offset)]
        is_boundary(code, offset) && offset < code.len() implies operand_lands(
        code,
        offset,
        whole,
        base,
        first,
        last,
    ) by {
        lemma_single_instruction_boundary(Opcode::OpConst, seq![index], offset);
    }
}

} // verus!
