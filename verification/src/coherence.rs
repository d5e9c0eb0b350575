//! Why the code that the compiler produces can be trusted by an executor:
//! it is a run of whole instructions, its jumps go to instruction
//! boundaries, and its constant indices refer to constants that exist.

use vstd::prelude::*;
use crate::ast::{Expression, IfExpression, InfixExpression, Literal, Node, Statement};
use crate::lowering::{
    infix_opcode, lower_block_value, lower_conditional, lower_expression, lower_node,
    lower_operands, lower_statement, lower_statements, prefix_opcode, swaps_operands,
    unsupported_in_conditional, unsupported_in_expression, unsupported_in_node,
    unsupported_in_operands, unsupported_in_statement, unsupported_in_statements, Chunk,
};
use crate::opcode::{encode, lemma_encode_layout, Opcode};
use crate::stream::{
    is_boundary, lemma_boundary_of_first, lemma_constant_lands, lemma_end_is_boundary,
    lemma_instruction_well_formed, lemma_jump_lands, lemma_operands_land_join,
    lemma_operands_land_widen, lemma_operands_resolve_concat, lemma_part_lands,
    lemma_plain_instruction_lands, lemma_well_formed_concat, operand_lands, operands_resolve,
    well_formed,
};

verus! {

/// The code of an expression that the compiler lowers is a run of whole
/// instructions.
pub proof fn lemma_expression_well_formed(e: Expression, at: nat, k: nat)
    requires
        unsupported_in_expression(e) is None,
    ensures
        well_formed(lower_expression(e, at, k).code),
    decreases e,
{
    match e {
        Expression::Literal(Literal::Integer(_)) => {
            lemma_instruction_well_formed(Opcode::OpConst, seq![k]);
        },
        Expression::Literal(Literal::Boolean(b)) => {
            lemma_instruction_well_formed(Opcode::OpTrue, seq![]);
            lemma_instruction_well_formed(Opcode::OpFalse, seq![]);
        },
        Expression::Prefix(p) => {
            let opcode = prefix_opcode(p.operator@).unwrap();
            lemma_expression_well_formed(*p.right, at, k);
            lemma_instruction_well_formed(opcode, seq![]);
            lemma_well_formed_concat(
                lower_expression(*p.right, at, k).code,
                encode(opcode, seq![]),
            );
        },
        Expression::Infix(i) => {
            let opcode = infix_opcode(i.operator@).unwrap();
            lemma_operands_well_formed(i, at, k);
            lemma_instruction_well_formed(opcode, seq![]);
            lemma_well_formed_concat(lower_operands(i, at, k).code, encode(opcode, seq![]));
        },
        Expression::If(c) => {
            lemma_conditional_well_formed(c, at, k);
        },
        _ => {},
    }
}

/// The code of the operands of an infix expression is a run of whole
/// instructions.
pub proof fn lemma_operands_well_formed(i: InfixExpression, at: nat, k: nat)
    requires
        unsupported_in_operands(i) is None,
    ensures
        well_formed(lower_operands(i, at, k).code),
    decreases i,
{
    let (first, second) = if swaps_operands(i.operator@) {
        (*i.right, *i.left)
    } else {
        (*i.left, *i.right)
    };
    let head = lower_expression(first, at, k);
    let tail = lower_expression(second, at + head.code.len(), k + head.constants.len());
    if swaps_operands(i.operator@) {
        lemma_expression_well_formed(*i.right, at, k);
        lemma_expression_well_formed(*i.left, at + head.code.len(), k + head.constants.len());
    } else {
        lemma_expression_well_formed(*i.left, at, k);
        lemma_expression_well_formed(*i.right, at + head.code.len(), k + head.constants.len());
    }
    lemma_well_formed_concat(head.code, tail.code);
}

/// The code of a conditional is a run of whole instructions.
pub proof fn lemma_conditional_well_formed(c: IfExpression, at: nat, k: nat)
    requires
        unsupported_in_conditional(c) is None,
    ensures
        well_formed(lower_conditional(c, at, k).code),
    decreases c,
{
    let condition = lower_expression(*c.condition, at, k);
    let consequence_at = at + condition.code.len() + 3;
    let consequence_k = k + condition.constants.len();
    let consequence = lower_block_value(c.consequence.statements@, consequence_at, consequence_k);
    let alternative_at = consequence_at + consequence.code.len() + 3;
    let alternative_k = consequence_k + consequence.constants.len();
    let alternative = match c.alternative {
        Some(block) => lower_block_value(block.statements@, alternative_at, alternative_k),
        None => Chunk::empty(),
    };
    let end = alternative_at + alternative.code.len();
    let branch = encode(Opcode::OpJumpNotTruthy, seq![alternative_at]);
    let jump = encode(Opcode::OpJump, seq![end]);

    lemma_expression_well_formed(*c.condition, at, k);
    lemma_instruction_well_formed(Opcode::OpJumpNotTruthy, seq![alternative_at]);
    lemma_block_value_well_formed(c.consequence.statements@, consequence_at, consequence_k);
    lemma_instruction_well_formed(Opcode::OpJump, seq![end]);
    match c.alternative {
        Some(block) => {
            lemma_block_value_well_formed(block.statements@, alternative_at, alternative_k);
        },
        None => {},
    }
    lemma_well_formed_concat(condition.code, branch);
    lemma_well_formed_concat(condition.code + branch, consequence.code);
    lemma_well_formed_concat(condition.code + branch + consequence.code, jump);
    lemma_well_formed_concat(condition.code + branch + consequence.code + jump, alternative.code);
}

/// The code of a statement that the compiler lowers is a run of whole
/// instructions.
pub proof fn lemma_statement_well_formed(s: Statement, at: nat, k: nat)
    requires
        unsupported_in_statement(s) is None,
    ensures
        well_formed(lower_statement(s, at, k).code),
    decreases s,
{
    match s {
        Statement::Expr(e) => {
            lemma_expression_well_formed(e, at, k);
            lemma_instruction_well_formed(Opcode::OpPop, seq![]);
            lemma_well_formed_concat(
                lower_expression(e, at, k).code,
                encode(Opcode::OpPop, seq![]),
            );
        },
        Statement::Return(r) => {
            lemma_expression_well_formed(r.return_value, at, k);
        },
        Statement::Assign(_) => {},
    }
}

/// The code of a list of statements that the compiler lowers is a run of
/// whole instructions.
pub proof fn lemma_statements_well_formed(statements: Seq<Statement>, at: nat, k: nat)
    requires
        unsupported_in_statements(statements) is None,
    ensures
        well_formed(lower_statements(statements, at, k).code),
    decreases statements,
{
    if statements.len() > 0 {
        let before = lower_statements(statements.drop_last(), at, k);
        lemma_statements_well_formed(statements.drop_last(), at, k);
        lemma_statement_well_formed(
            statements.last(),
            at + before.code.len(),
            k + before.constants.len(),
        );
        lemma_well_formed_concat(
            before.code,
            lower_statement(
                statements.last(),
                at + before.code.len(),
                k + before.constants.len(),
            ).code,
        );
    }
}

/// The code of a block compiled as a value is a run of whole instructions.
pub proof fn lemma_block_value_well_formed(statements: Seq<Statement>, at: nat, k: nat)
    requires
        unsupported_in_statements(statements) is None,
    ensures
        well_formed(lower_block_value(statements, at, k).code),
    decreases statements,
{
    if statements.len() > 0 {
        let before = lower_statements(statements.drop_last(), at, k);
        lemma_statements_well_formed(statements.drop_last(), at, k);
        assert(unsupported_in_statement(statements.last()) is None);
        match statements.last() {
            Statement::Expr(e) => {
                lemma_expression_well_formed(
                    e,
                    at + before.code.len(),
                    k + before.constants.len(),
                );
                lemma_well_formed_concat(
                    before.code,
                    lower_expression(e, at + before.code.len(), k + before.constants.len()).code,
                );
            },
            other => {
                lemma_statement_well_formed(
                    other,
                    at + before.code.len(),
                    k + before.constants.len(),
                );
                lemma_well_formed_concat(
                    before.code,
                    lower_statement(other, at + before.code.len(), k + before.constants.len()).code,
                );
            },
        }
    }
}

/// The code of a compilation unit that the compiler lowers is a run of
/// whole instructions: every opcode is known and no instruction is cut
/// short.
pub proof fn lemma_node_well_formed(node: Node, at: nat, k: nat)
    requires
        unsupported_in_node(node) is None,
    ensures
        well_formed(lower_node(node, at, k).code),
{
    match node {
        Node::Program(p) => lemma_statements_well_formed(p.statements@, at, k),
        Node::Statement(s) => lemma_statement_well_formed(s, at, k),
        Node::Expression(e) => lemma_expression_well_formed(e, at, k),
    }
}

/// Whether code and constants are within what two-byte operands can
/// address, where the code starts at offset `at` and the pool entries that
/// it may refer to end at `last`.
pub open spec fn addressable(chunk: Chunk, at: nat, last: int) -> bool {
    at + chunk.code.len() <= 0xFFFF && last <= 0x10000
}

/// In the code of an expression that the compiler lowers, every jump goes
/// to an instruction boundary of that code and every constant index refers
/// to a pool entry from `first` up to `last`, provided two-byte operands can
/// address all of it.
pub proof fn lemma_expression_resolves(e: Expression, at: nat, k: nat, first: int, last: int)
    requires
        unsupported_in_expression(e) is None,
        first <= k,
        k + lower_expression(e, at, k).constants.len() <= last,
        addressable(lower_expression(e, at, k), at, last),
    ensures
        operands_resolve(lower_expression(e, at, k).code, at as int, first, last),
    decreases e,
{
    match e {
        Expression::Literal(Literal::Integer(_)) => {
            let code = encode(Opcode::OpConst, seq![k]);
            lemma_constant_lands(k, code, at as int, first, last);
        },
        Expression::Literal(Literal::Boolean(b)) => {
            let opcode = if b.value {
                Opcode::OpTrue
            } else {
                Opcode::OpFalse
            };
            lemma_plain_instruction_lands(
                opcode,
                encode(opcode, seq![]),
                at as int,
                first,
                last,
            );
        },
        Expression::Prefix(p) => {
            let opcode = prefix_opcode(p.operator@).unwrap();
            let operand = lower_expression(*p.right, at, k);
            let operator = encode(opcode, seq![]);
            lemma_encode_layout(opcode, seq![]);
            lemma_expression_well_formed(*p.right, at, k);
            lemma_instruction_well_formed(opcode, seq![]);
            lemma_expression_resolves(*p.right, at, k, first, last);
            lemma_plain_instruction_lands(
                opcode,
                operator,
                (at + operand.code.len()) as int,
                first,
                last,
            );
            lemma_operands_resolve_concat(operand.code, operator, at as int, first, last);
        },
        Expression::Infix(i) => {
            let opcode = infix_opcode(i.operator@).unwrap();
            let operands = lower_operands(i, at, k);
            let operator = encode(opcode, seq![]);
            lemma_encode_layout(opcode, seq![]);
            lemma_operands_well_formed(i, at, k);
            lemma_instruction_well_formed(opcode, seq![]);
            lemma_operands_resolve(i, at, k, first, last);
            lemma_plain_instruction_lands(
                opcode,
                operator,
                (at + operands.code.len()) as int,
                first,
                last,
            );
            lemma_operands_resolve_concat(operands.code, operator, at as int, first, last);
        },
        Expression::If(c) => {
            lemma_conditional_resolves(c, at, k, first, last);
        },
        _ => {},
    }
}

/// The same of the operands of an infix expression.
pub proof fn lemma_operands_resolve(i: InfixExpression, at: nat, k: nat, first: int, last: int)
    requires
        unsupported_in_operands(i) is None,
        first <= k,
        k + lower_operands(i, at, k).constants.len() <= last,
        addressable(lower_operands(i, at, k), at, last),
    ensures
        operands_resolve(lower_operands(i, at, k).code, at as int, first, last),
    decreases i,
{
    let swapped = swaps_operands(i.operator@);
    let (one, other) = if swapped {
        (*i.right, *i.left)
    } else {
        (*i.left, *i.right)
    };
    let head = lower_expression(one, at, k);
    let tail = lower_expression(other, at + head.code.len(), k + head.constants.len());
    if swapped {
        lemma_expression_well_formed(*i.right, at, k);
        lemma_expression_well_formed(*i.left, at + head.code.len(), k + head.constants.len());
        lemma_expression_resolves(*i.right, at, k, first, last);
        lemma_expression_resolves(
            *i.left,
            at + head.code.len(),
            k + head.constants.len(),
            first,
            last,
        );
    } else {
        lemma_expression_well_formed(*i.left, at, k);
        lemma_expression_well_formed(*i.right, at + head.code.len(), k + head.constants.len());
        lemma_expression_resolves(*i.left, at, k, first, last);
        lemma_expression_resolves(
            *i.right,
            at + head.code.len(),
            k + head.constants.len(),
            first,
            last,
        );
    }
    lemma_operands_resolve_concat(head.code, tail.code, at as int, first, last);
}

/// The same of a conditional: its two jumps go to the start of the
/// alternative and to the end of the conditional.
pub proof fn lemma_conditional_resolves(c: IfExpression, at: nat, k: nat, first: int, last: int)
    requires
        unsupported_in_conditional(c) is None,
        first <= k,
        k + lower_conditional(c, at, k).constants.len() <= last,
        addressable(lower_conditional(c, at, k), at, last),
    ensures
        operands_resolve(lower_conditional(c, at, k).code, at as int, first, last),
    decreases c,
{
    let condition = lower_expression(*c.condition, at, k);
    let consequence_at = at + condition.code.len() + 3;
    let consequence_k = k + condition.constants.len();
    let consequence = lower_block_value(c.consequence.statements@, consequence_at, consequence_k);
    let alternative_at = consequence_at + consequence.code.len() + 3;
    let alternative_k = consequence_k + consequence.constants.len();
    let alternative = match c.alternative {
        Some(block) => lower_block_value(block.statements@, alternative_at, alternative_k),
        None => Chunk::empty(),
    };
    let end = alternative_at + alternative.code.len();
    let branch = encode(Opcode::OpJumpNotTruthy, seq![alternative_at]);
    let jump = encode(Opcode::OpJump, seq![end]);
    let whole = lower_conditional(c, at, k).code;
    let base = at as int;
    let empty = Seq::<u8>::empty();
    lemma_encode_layout(Opcode::OpJumpNotTruthy, seq![alternative_at]);
    lemma_encode_layout(Opcode::OpJump, seq![end]);

    // every part is well-formed, and so is every run of parts from the start
    lemma_expression_well_formed(*c.condition, at, k);
    lemma_instruction_well_formed(Opcode::OpJumpNotTruthy, seq![alternative_at]);
    lemma_block_value_well_formed(c.consequence.statements@, consequence_at, consequence_k);
    lemma_instruction_well_formed(Opcode::OpJump, seq![end]);
    match c.alternative {
        Some(block) => {
            lemma_block_value_well_formed(block.statements@, alternative_at, alternative_k);
        },
        None => {},
    }
    let upto_branch = condition.code + branch;
    let upto_consequence = upto_branch + consequence.code;
    let upto_jump = upto_consequence + jump;
    assert(whole == upto_jump + alternative.code);
    lemma_well_formed_concat(condition.code, branch);
    lemma_well_formed_concat(upto_branch, consequence.code);
    lemma_well_formed_concat(upto_consequence, jump);
    lemma_well_formed_concat(upto_jump, alternative.code);

    // the operands of every part resolve in the whole
    lemma_expression_resolves(*c.condition, at, k, first, last);
    assert(whole =~= empty + condition.code + (branch + consequence.code + jump
        + alternative.code));
    assert(well_formed(empty));
    lemma_part_lands(
        empty,
        condition.code,
        branch + consequence.code + jump + alternative.code,
        base,
        first,
        last,
    );

    lemma_end_is_boundary(upto_jump, 0);
    lemma_boundary_of_first(upto_jump, alternative.code, 0, upto_jump.len() as int);
    lemma_jump_lands(Opcode::OpJumpNotTruthy, alternative_at, whole, base, first, last);

    lemma_block_value_resolves(
        c.consequence.statements@,
        consequence_at,
        consequence_k,
        first,
        last,
    );
    assert(whole =~= upto_branch + consequence.code + (jump + alternative.code));
    lemma_part_lands(
        upto_branch,
        consequence.code,
        jump + alternative.code,
        base,
        first,
        last,
    );

    lemma_end_is_boundary(whole, 0);
    lemma_jump_lands(Opcode::OpJump, end, whole, base, first, last);

    match c.alternative {
        Some(block) => {
            lemma_block_value_resolves(
                block.statements@,
                alternative_at,
                alternative_k,
                first,
                last,
            );
        },
        None => {
            assert(operands_resolve(empty, alternative_at as int, first, last)) by {
                assert forall|offset: int|
                    #![trigger is_boundary(empty, offset)]
                    is_boundary(empty, offset) && offset
                        < empty.len() implies operand_lands(
                    empty,
                    offset,
                    empty,
                    alternative_at as int,
                    first,
                    last,
                ) by {}
            }
        },
    }
    assert(whole =~= upto_jump + alternative.code + empty);
    lemma_part_lands(upto_jump, alternative.code, empty, base, first, last);

    // and so do the operands of the parts joined
    lemma_operands_land_join(condition.code, branch, whole, base, first, last);
    lemma_operands_land_join(upto_branch, consequence.code, whole, base, first, last);
    lemma_operands_land_join(upto_consequence, jump, whole, base, first, last);
    lemma_operands_land_join(upto_jump, alternative.code, whole, base, first, last);
}

/// The same of a statement.
pub proof fn lemma_statement_resolves(s: Statement, at: nat, k: nat, first: int, last: int)
    requires
        unsupported_in_statement(s) is None,
        first <= k,
        k + lower_statement(s, at, k).constants.len() <= last,
        addressable(lower_statement(s, at, k), at, last),
    ensures
        operands_resolve(lower_statement(s, at, k).code, at as int, first, last),
    decreases s,
{
    match s {
        Statement::Expr(e) => {
            let value = lower_expression(e, at, k);
            let discard = encode(Opcode::OpPop, seq![]);
            lemma_encode_layout(Opcode::OpPop, seq![]);
            lemma_expression_well_formed(e, at, k);
            lemma_instruction_well_formed(Opcode::OpPop, seq![]);
            lemma_expression_resolves(e, at, k, first, last);
            lemma_plain_instruction_lands(
                Opcode::OpPop,
                discard,
                (at + value.code.len()) as int,
                first,
                last,
            );
            lemma_operands_resolve_concat(value.code, discard, at as int, first, last);
        },
        Statement::Return(r) => {
            lemma_expression_resolves(r.return_value, at, k, first, last);
        },
        Statement::Assign(_) => {},
    }
}

/// The same of a list of statements.
pub proof fn lemma_statements_resolve(
    statements: Seq<Statement>,
    at: nat,
    k: nat,
    first: int,
    last: int,
)
    requires
        unsupported_in_statements(statements) is None,
        first <= k,
        k + lower_statements(statements, at, k).constants.len() <= last,
        addressable(lower_statements(statements, at, k), at, last),
    ensures
        operands_resolve(lower_statements(statements, at, k).code, at as int, first, last),
    decreases statements,
{
    if statements.len() == 0 {
        let empty = Seq::<u8>::empty();
        assert forall|offset: int|
            #![trigger is_boundary(empty, offset)]
            is_boundary(empty, offset) && offset
                < empty.len() implies operand_lands(
            empty,
            offset,
            empty,
            at as int,
            first,
            last,
        ) by {}
    } else {
        let before = lower_statements(statements.drop_last(), at, k);
        let closing = lower_statement(
            statements.last(),
            at + before.code.len(),
            k + before.constants.len(),
        );
        lemma_statements_well_formed(statements.drop_last(), at, k);
        lemma_statement_well_formed(
            statements.last(),
            at + before.code.len(),
            k + before.constants.len(),
        );
        lemma_statements_resolve(statements.drop_last(), at, k, first, last);
        lemma_statement_resolves(
            statements.last(),
            at + before.code.len(),
            k + before.constants.len(),
            first,
            last,
        );
        lemma_operands_resolve_concat(before.code, closing.code, at as int, first, last);
    }
}

/// The same of a block compiled as a value.
pub proof fn lemma_block_value_resolves(
    statements: Seq<Statement>,
    at: nat,
    k: nat,
    first: int,
    last: int,
)
    requires
        unsupported_in_statements(statements) is None,
        first <= k,
        k + lower_block_value(statements, at, k).constants.len() <= last,
        addressable(lower_block_value(statements, at, k), at, last),
    ensures
        operands_resolve(lower_block_value(statements, at, k).code, at as int, first, last),
    decreases statements,
{
    if statements.len() == 0 {
        let empty = Seq::<u8>::empty();
        assert forall|offset: int|
            #![trigger is_boundary(empty, offset)]
            is_boundary(empty, offset) && offset
                < empty.len() implies operand_lands(
            empty,
            offset,
            empty,
            at as int,
            first,
            last,
        ) by {}
    } else {
        let before = lower_statements(statements.drop_last(), at, k);
        let closing_at = at + before.code.len();
        let closing_k = k + before.constants.len();
        lemma_statements_well_formed(statements.drop_last(), at, k);
        lemma_statements_resolve(statements.drop_last(), at, k, first, last);
        assert(unsupported_in_statement(statements.last()) is None);
        match statements.last() {
            Statement::Expr(e) => {
                lemma_expression_well_formed(e, closing_at, closing_k);
                lemma_expression_resolves(e, closing_at, closing_k, first, last);
                lemma_operands_resolve_concat(
                    before.code,
                    lower_expression(e, closing_at, closing_k).code,
                    at as int,
                    first,
                    last,
                );
            },
            other => {
                lemma_statement_well_formed(other, closing_at, closing_k);
                lemma_statement_resolves(other, closing_at, closing_k, first, last);
                lemma_operands_resolve_concat(
                    before.code,
                    lower_statement(other, closing_at, closing_k).code,
                    at as int,
                    first,
                    last,
                );
            },
        }
    }
}

/// In the code of a compilation unit that the compiler lowers, every jump
/// goes to an instruction boundary of that code and every constant index
/// refers to a pool entry from `first` up to `last`, provided two-byte
/// operands can address all of it.
pub proof fn lemma_node_resolves(node: Node, at: nat, k: nat, first: int, last: int)
    requires
        unsupported_in_node(node) is None,
        first <= k,
        k + lower_node(node, at, k).constants.len() <= last,
        addressable(lower_node(node, at, k), at, last),
    ensures
        operands_resolve(lower_node(node, at, k).code, at as int, first, last),
{
    match node {
        Node::Program(p) => lemma_statements_resolve(p.statements@, at, k, first, last),
        Node::Statement(s) => lemma_statement_resolves(s, at, k, first, last),
        Node::Expression(e) => lemma_expression_resolves(e, at, k, first, last),
    }
}

/// The empty chunk is coherent.
pub proof fn lemma_empty_is_coherent()
    ensures
        Chunk::empty().coherent(),
{
    let empty = Seq::<u8>::empty();
    assert forall|offset: int|
        #![trigger is_boundary(empty, offset)]
        is_boundary(empty, offset) && offset
            < empty.len() implies operand_lands(empty, offset, empty, 0, 0, 0) by {}
}

/// Compiling keeps a program coherent: if the code and constants emitted
/// so far are coherent, they still are with the code and constants of one
/// more compilation unit appended.
pub proof fn lemma_compilation_keeps_coherence(before: Chunk, node: Node)
    requires
        before.coherent(),
        unsupported_in_node(node) is None,
    ensures
        before.followed_by(
            lower_node(node, before.code.len(), before.constants.len()),
        ).coherent(),
{
    let at = before.code.len();
    let k = before.constants.len();
    let lowered = lower_node(node, at, k);
    let after = before.followed_by(lowered);
    lemma_node_well_formed(node, at, k);
    lemma_well_formed_concat(before.code, lowered.code);
    if after.code.len() <= 0xFFFF && after.constants.len() <= 0x10000 {
        let last = after.constants.len() as int;
        lemma_operands_land_widen(before.code, before.code, 0, 0, k as int, 0, last);
        lemma_node_resolves(node, at, k, 0, last);
        lemma_operands_resolve_concat(before.code, lowered.code, 0, 0, last);
    }
}

} // verus!
