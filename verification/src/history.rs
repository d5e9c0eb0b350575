//! What the compiler remembers of the instructions it has emitted, as a
//! function of the syntax tree.
//!
//! The compiler remembers the last two instructions: where a block stands
//! for a value and closes with an expression statement, it takes the
//! closing discard instruction back, and the instruction before that counts
//! as the last one again.

use vstd::prelude::*;
use crate::ast::{Expression, IfExpression, InfixExpression, Literal, Node, Statement};
use crate::lowering::{
    infix_opcode, lower_block_value, lower_expression, lower_operands, lower_statements,
    prefix_opcode, swaps_operands,
};
use crate::opcode::Opcode;

verus! {

/// The last two instructions emitted, each with its opcode and the offset
/// of its first byte.
pub struct History {
    pub last: Option<(Opcode, nat)>,
    pub previous: Option<(Opcode, nat)>,
}

impl History {
    /// The history after one more instruction: what was last is now
    /// previous.
    pub open spec fn emit(self, opcode: Opcode, position: nat) -> History {
        History { last: Some((opcode, position)), previous: self.last }
    }

    /// The history after the last instruction was taken back: what was
    /// previous counts as last again, and as previous still.
    pub open spec fn retract(self) -> History {
        History { last: self.previous, previous: self.previous }
    }
}

/// Whether the instruction remembered as last is the one that ends a stream
/// of length `end`, and leaves a value rather than discarding one.
pub open spec fn ends_in_value(history: History, end: nat) -> bool {
    history.last matches Some((opcode, position)) && opcode != Opcode::OpPop && position
        + opcode.size() == end
}

/// Whether the instruction remembered as last is a discard instruction that
/// ends a stream of length `end`, and the one remembered as previous stands
/// right in front of it and leaves a value.
pub open spec fn ends_in_discard(history: History, end: nat) -> bool {
    &&& end > 0
    &&& history.last == Some((Opcode::OpPop, (end - 1) as nat))
    &&& ends_in_value(History { last: history.previous, previous: None }, (end - 1) as nat)
}

/// The history after an expression was compiled.
pub open spec fn history_of_expression(e: Expression, at: nat, k: nat, before: History) -> History
    decreases e,
{
    match e {
        Expression::Literal(Literal::Integer(_)) => before.emit(Opcode::OpConst, at),
        Expression::Literal(Literal::Boolean(b)) => before.emit(
            if b.value {
                Opcode::OpTrue
            } else {
                Opcode::OpFalse
            },
            at,
        ),
        Expression::Prefix(p) => match prefix_opcode(p.operator@) {
            Some(opcode) => history_of_expression(*p.right, at, k, before).emit(
                opcode,
                at + lower_expression(*p.right, at, k).code.len(),
            ),
            None => before,
        },
        Expression::Infix(i) => match infix_opcode(i.operator@) {
            Some(opcode) => history_of_operands(i, at, k, before).emit(
                opcode,
                at + lower_operands(i, at, k).code.len(),
            ),
            None => before,
        },
        Expression::If(c) => history_of_conditional(c, at, k, before),
        _ => before,
    }
}

/// The history after the operands of an infix expression were compiled.
pub open spec fn history_of_operands(i: InfixExpression, at: nat, k: nat, before: History) -> History
    decreases i,
{
    if swaps_operands(i.operator@) {
        let first = lower_expression(*i.right, at, k);
        history_of_expression(
            *i.left,
            at + first.code.len(),
            k + first.constants.len(),
            history_of_expression(*i.right, at, k, before),
        )
    } else {
        let first = lower_expression(*i.left, at, k);
        history_of_expression(
            *i.right,
            at + first.code.len(),
            k + first.constants.len(),
            history_of_expression(*i.left, at, k, before),
        )
    }
}

/// The history after a conditional was compiled: the condition, the
/// conditional jump, the consequence as a value, the jump, and the
/// alternative as a value, if there is one.
pub open spec fn history_of_conditional(c: IfExpression, at: nat, k: nat, before: History) -> History
    decreases c,
{
    let condition = lower_expression(*c.condition, at, k);
    let branch_at = at + condition.code.len();
    let consequence_k = k + condition.constants.len();
    let consequence = lower_block_value(c.consequence.statements@, branch_at + 3, consequence_k);
    let jump_at = branch_at + 3 + consequence.code.len();
    let after_jump = history_of_block_value(
        c.consequence.statements@,
        branch_at + 3,
        consequence_k,
        history_of_expression(*c.condition, at, k, before).emit(
            Opcode::OpJumpNotTruthy,
            branch_at,
        ),
    ).emit(Opcode::OpJump, jump_at);
    match c.alternative {
        Some(block) => history_of_block_value(
            block.statements@,
            jump_at + 3,
            consequence_k + consequence.constants.len(),
            after_jump,
        ),
        None => after_jump,
    }
}

/// The history after a statement was compiled.
pub open spec fn history_of_statement(s: Statement, at: nat, k: nat, before: History) -> History
    decreases s,
{
    match s {
        Statement::Expr(e) => history_of_expression(e, at, k, before).emit(
            Opcode::OpPop,
            at + lower_expression(e, at, k).code.len(),
        ),
        Statement::Return(r) => history_of_expression(r.return_value, at, k, before),
        Statement::Assign(_) => before,
    }
}

/// The history after a list of statements was compiled.
pub open spec fn history_of_statements(
    statements: Seq<Statement>,
    at: nat,
    k: nat,
    before: History,
) -> History
    decreases statements,
{
    if statements.len() == 0 {
        before
    } else {
        let done = lower_statements(statements.drop_last(), at, k);
        history_of_statement(
            statements.last(),
            at + done.code.len(),
            k + done.constants.len(),
            history_of_statements(statements.drop_last(), at, k, before),
        )
    }
}

/// The history after a block was compiled as a value: the discard
/// instruction of a closing expression statement is taken back.
pub open spec fn history_of_block_value(
    statements: Seq<Statement>,
    at: nat,
    k: nat,
    before: History,
) -> History
    decreases statements,
{
    if statements.len() == 0 {
        before
    } else {
        let done = lower_statements(statements.drop_last(), at, k);
        let closed = history_of_statement(
            statements.last(),
            at + done.code.len(),
            k + done.constants.len(),
            history_of_statements(statements.drop_last(), at, k, before),
        );
        if statements.last() is Expr {
            closed.retract()
        } else {
            closed
        }
    }
}

/// The history after a compilation unit was compiled.
pub open spec fn history_of_node(node: Node, at: nat, k: nat, before: History) -> History {
    match node {
        Node::Program(p) => history_of_statements(p.statements@, at, k, before),
        Node::Statement(s) => history_of_statement(s, at, k, before),
        Node::Expression(e) => history_of_expression(e, at, k, before),
    }
}

} // verus!
