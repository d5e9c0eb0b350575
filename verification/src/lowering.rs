//! What compilation produces, as a function of the syntax tree.
//!
//! The code of a tree depends on where it is placed: jump operands are
//! absolute byte offsets and constant operands are pool indices. So every
//! function here takes the length `at` of the instruction stream and the
//! length `k` of the constant pool that the result is appended to.
//!
//! What the functions give for a tree that the compiler does not lower
//! stands for nothing: such a tree has no code.

use vstd::prelude::*;
use crate::ast::{Expression, IfExpression, InfixExpression, Literal, Node, Statement};
use crate::error::Construct;
use crate::object::Object;
use crate::opcode::{encode, Opcode};
use crate::stream::{operands_resolve, well_formed};

verus! {

/// A piece of code together with the constants that it adds to the pool.
pub struct Chunk {
    pub code: Seq<u8>,
    pub constants: Seq<Object>,
}

impl Chunk {
    /// No code and no constants.
    pub open spec fn empty() -> Chunk {
        Chunk { code: Seq::empty(), constants: Seq::empty() }
    }

    /// This chunk followed by `next`.
    pub open spec fn followed_by(self, next: Chunk) -> Chunk {
        Chunk { code: self.code + next.code, constants: self.constants + next.constants }
    }

    /// A single instruction that adds no constant.
    pub open spec fn instruction(opcode: Opcode, operands: Seq<nat>) -> Chunk {
        Chunk { code: encode(opcode, operands), constants: Seq::empty() }
    }

    /// Whether an executor can trust this chunk as a whole program: its
    /// code is a run of whole instructions, and, as long as two-byte
    /// operands can address all of the code and all of the constants, every
    /// jump goes to an instruction boundary of the code and every constant
    /// index refers to one of the constants.
    pub open spec fn coherent(self) -> bool {
        &&& well_formed(self.code)
        &&& self.code.len() <= 0xFFFF && self.constants.len() <= 0x10000 ==> operands_resolve(
            self.code,
            0,
            0,
            self.constants.len() as int,
        )
    }

    /// Whether this chunk is `base` with something appended.
    pub open spec fn extends(self, base: Chunk) -> bool {
        base.code.is_prefix_of(self.code) && base.constants.is_prefix_of(self.constants)
    }
}

/// The opcode of a prefix operator.
pub open spec fn prefix_opcode(operator: Seq<char>) -> Option<Opcode> {
    if operator == seq!['!'] {
        Some(Opcode::OpBang)
    } else if operator == seq!['-'] {
        Some(Opcode::OpMinus)
    } else {
        None
    }
}

/// The opcode of an infix operator. `<` has none of its own: it is `>` with
/// the operands exchanged.
pub open spec fn infix_opcode(operator: Seq<char>) -> Option<Opcode> {
    if operator == seq!['+'] {
        Some(Opcode::OpAdd)
    } else if operator == seq!['-'] {
        Some(Opcode::OpSub)
    } else if operator == seq!['*'] {
        Some(Opcode::OpMul)
    } else if operator == seq!['/'] {
        Some(Opcode::OpDiv)
    } else if operator == seq!['>'] || operator == seq!['<'] {
        Some(Opcode::OpGreaterThan)
    } else if operator == seq!['=', '='] {
        Some(Opcode::OpEqual)
    } else if operator == seq!['!', '='] {
        Some(Opcode::OpNotEqual)
    } else {
        None
    }
}

/// Whether the right operand of an infix operator is compiled before the
/// left one.
pub open spec fn swaps_operands(operator: Seq<char>) -> bool {
    operator == seq!['<']
}

/// The first of two possible findings.
pub open spec fn first_of(a: Option<Construct>, b: Option<Construct>) -> Option<Construct> {
    if a is Some {
        a
    } else {
        b
    }
}

/// The first construct of an expression, in compilation order, that the
/// compiler does not lower; `None` if it lowers the whole expression.
pub open spec fn unsupported_in_expression(e: Expression) -> Option<Construct>
    decreases e,
{
    match e {
        Expression::Literal(Literal::Integer(_)) => None,
        Expression::Literal(Literal::Boolean(_)) => None,
        Expression::Literal(Literal::Float(_)) => Some(Construct::FloatLiteral),
        Expression::Literal(Literal::String(_)) => Some(Construct::StringLiteral),
        Expression::Literal(Literal::Array(_)) => Some(Construct::ArrayLiteral),
        Expression::Identifier(_) => Some(Construct::Identifier),
        Expression::Function(_) => Some(Construct::FunctionLiteral),
        Expression::Call(_) => Some(Construct::Call),
        Expression::Index(_) => Some(Construct::Index),
        Expression::Prefix(p) => first_of(
            unsupported_in_expression(*p.right),
            if prefix_opcode(p.operator@) is None {
                Some(Construct::PrefixOperator)
            } else {
                None
            },
        ),
        Expression::Infix(i) => first_of(
            unsupported_in_operands(i),
            if infix_opcode(i.operator@) is None {
                Some(Construct::InfixOperator)
            } else {
                None
            },
        ),
        Expression::If(c) => unsupported_in_conditional(c),
    }
}

/// The first operand of an infix expression that the compiler does not
/// lower, in the order in which the operands are compiled.
pub open spec fn unsupported_in_operands(i: InfixExpression) -> Option<Construct>
    decreases i,
{
    if swaps_operands(i.operator@) {
        first_of(unsupported_in_expression(*i.right), unsupported_in_expression(*i.left))
    } else {
        first_of(unsupported_in_expression(*i.left), unsupported_in_expression(*i.right))
    }
}

/// The first construct of a conditional that the compiler does not lower:
/// the condition comes first, then the consequence, then the alternative.
pub open spec fn unsupported_in_conditional(c: IfExpression) -> Option<Construct>
    decreases c,
{
    first_of(
        unsupported_in_expression(*c.condition),
        first_of(
            unsupported_in_statements(c.consequence.statements@),
            match c.alternative {
                Some(alternative) => unsupported_in_statements(alternative.statements@),
                None => None,
            },
        ),
    )
}

/// The first construct of a statement that the compiler does not lower.
pub open spec fn unsupported_in_statement(s: Statement) -> Option<Construct>
    decreases s,
{
    match s {
        Statement::Assign(_) => Some(Construct::Assignment),
        Statement::Expr(e) => unsupported_in_expression(e),
        Statement::Return(r) => unsupported_in_expression(r.return_value),
    }
}

/// The first construct of a statement list that the compiler does not lower.
pub open spec fn unsupported_in_statements(statements: Seq<Statement>) -> Option<Construct>
    decreases statements,
{
    if statements.len() == 0 {
        None
    } else {
        first_of(
            unsupported_in_statements(statements.drop_last()),
            unsupported_in_statement(statements.last()),
        )
    }
}

/// The first construct of a compilation unit that the compiler does not
/// lower.
pub open spec fn unsupported_in_node(node: Node) -> Option<Construct> {
    match node {
        Node::Program(p) => unsupported_in_statements(p.statements@),
        Node::Statement(s) => unsupported_in_statement(s),
        Node::Expression(e) => unsupported_in_expression(e),
    }
}

/// The code of an expression: it leaves the expression's value on the stack.
/// Operands come before their operator.
pub open spec fn lower_expression(e: Expression, at: nat, k: nat) -> Chunk
    decreases e,
{
    match e {
        Expression::Literal(Literal::Integer(n)) => Chunk {
            code: encode(Opcode::OpConst, seq![k]),
            constants: seq![Object::Integer(n.value)],
        },
        Expression::Literal(Literal::Boolean(b)) => Chunk::instruction(
            if b.value {
                Opcode::OpTrue
            } else {
                Opcode::OpFalse
            },
            seq![],
        ),
        Expression::Prefix(p) => match prefix_opcode(p.operator@) {
            Some(opcode) => lower_expression(*p.right, at, k).followed_by(
                Chunk::instruction(opcode, seq![]),
            ),
            None => Chunk::empty(),
        },
        Expression::Infix(i) => match infix_opcode(i.operator@) {
            Some(opcode) => lower_operands(i, at, k).followed_by(
                Chunk::instruction(opcode, seq![]),
            ),
            None => Chunk::empty(),
        },
        Expression::If(c) => lower_conditional(c, at, k),
        _ => Chunk::empty(),
    }
}

/// The operands of an infix expression, in the order in which they are
/// compiled: the left one first, except for `<`.
pub open spec fn lower_operands(i: InfixExpression, at: nat, k: nat) -> Chunk
    decreases i,
{
    if swaps_operands(i.operator@) {
        let first = lower_expression(*i.right, at, k);
        first.followed_by(
            lower_expression(*i.left, at + first.code.len(), k + first.constants.len()),
        )
    } else {
        let first = lower_expression(*i.left, at, k);
        first.followed_by(
            lower_expression(*i.right, at + first.code.len(), k + first.constants.len()),
        )
    }
}

/// The code of a conditional, put together from the code of its parts,
/// where the conditional starts at offset `at`. It is laid out as
///
/// ```text
/// condition | OpJumpNotTruthy E | consequence | OpJump X | alternative
///                                                         ^E           ^X
/// ```
///
/// and each of the two jumps is three bytes long. Without an alternative
/// the layout is the same with nothing behind the jump, so that `E == X`:
/// the jump goes to the instruction that follows it.
pub open spec fn conditional_chunk(
    condition: Chunk,
    consequence: Chunk,
    alternative: Chunk,
    at: nat,
) -> Chunk {
    let alternative_at = at + condition.code.len() + 3 + consequence.code.len() + 3;
    let end = alternative_at + alternative.code.len();
    condition.followed_by(
        Chunk::instruction(Opcode::OpJumpNotTruthy, seq![alternative_at]),
    ).followed_by(consequence).followed_by(
        Chunk::instruction(Opcode::OpJump, seq![end]),
    ).followed_by(alternative)
}

/// The code of a conditional. Both branches are compiled as values; without
/// an alternative only the consequence leaves a value.
pub open spec fn lower_conditional(c: IfExpression, at: nat, k: nat) -> Chunk
    decreases c,
{
    let condition = lower_expression(*c.condition, at, k);
    let consequence_at = at + condition.code.len() + 3;
    let consequence = lower_block_value(
        c.consequence.statements@,
        consequence_at,
        k + condition.constants.len(),
    );
    let alternative_at = consequence_at + consequence.code.len() + 3;
    let alternative = match c.alternative {
        Some(block) => lower_block_value(
            block.statements@,
            alternative_at,
            k + condition.constants.len() + consequence.constants.len(),
        ),
        None => Chunk::empty(),
    };
    conditional_chunk(condition, consequence, alternative, at)
}

/// The code of a statement. An expression statement discards the value of
/// its expression; a return statement leaves it on the stack.
pub open spec fn lower_statement(s: Statement, at: nat, k: nat) -> Chunk
    decreases s,
{
    match s {
        Statement::Expr(e) => lower_expression(e, at, k).followed_by(
            Chunk::instruction(Opcode::OpPop, seq![]),
        ),
        Statement::Return(r) => lower_expression(r.return_value, at, k),
        Statement::Assign(_) => Chunk::empty(),
    }
}

/// The code of a list of statements, one after the other.
pub open spec fn lower_statements(statements: Seq<Statement>, at: nat, k: nat) -> Chunk
    decreases statements,
{
    if statements.len() == 0 {
        Chunk::empty()
    } else {
        let before = lower_statements(statements.drop_last(), at, k);
        before.followed_by(
            lower_statement(
                statements.last(),
                at + before.code.len(),
                k + before.constants.len(),
            ),
        )
    }
}

/// The code of a block that stands for a value: the code of its statements,
/// but a closing expression statement leaves its value on the stack.
pub open spec fn lower_block_value(statements: Seq<Statement>, at: nat, k: nat) -> Chunk
    decreases statements,
{
    if statements.len() == 0 {
        Chunk::empty()
    } else {
        let before = lower_statements(statements.drop_last(), at, k);
        before.followed_by(
            match statements.last() {
                Statement::Expr(e) => lower_expression(
                    e,
                    at + before.code.len(),
                    k + before.constants.len(),
                ),
                other => lower_statement(other, at + before.code.len(), k + before.constants.len()),
            },
        )
    }
}

/// The code of a compilation unit. A standalone expression leaves its value
/// on the stack.
pub open spec fn lower_node(node: Node, at: nat, k: nat) -> Chunk {
    match node {
        Node::Program(p) => lower_statements(p.statements@, at, k),
        Node::Statement(s) => lower_statement(s, at, k),
        Node::Expression(e) => lower_expression(e, at, k),
    }
}

} // verus!
