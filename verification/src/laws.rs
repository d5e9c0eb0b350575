//! Laws of compilation: what holds of the code of every tree.

use vstd::prelude::*;
use crate::ast::{
    same_block, same_expression, same_literal, same_node, same_statement, same_statements,
    Expression, IfExpression, InfixExpression, IntegerLiteral, Literal, Node, Statement,
};
use crate::compiler::{Bytecode, Compiler};
use crate::error::{CompileError, Construct};
use crate::history::{
    ends_in_discard, ends_in_value, history_of_block_value, history_of_conditional,
    history_of_expression, history_of_statement, history_of_statements, History,
};
use crate::lowering::{
    conditional_chunk, infix_opcode, lower_block_value, lower_conditional, lower_expression,
    lower_node, lower_operands, lower_statement, lower_statements, prefix_opcode, swaps_operands,
    unsupported_in_conditional, unsupported_in_expression, unsupported_in_node,
    unsupported_in_operands, unsupported_in_statement, unsupported_in_statements, Chunk,
};
use crate::object::Object;
use crate::opcode::{encode, lemma_encode_layout, operand_at, Opcode};

verus! {

/// A block compiled as a value is the block compiled as statements, less
/// the discard instruction of a closing expression statement.
pub proof fn lemma_block_value(statements: Seq<Statement>, at: nat, k: nat)
    ensures
        lower_block_value(statements, at, k).constants == lower_statements(
            statements,
            at,
            k,
        ).constants,
        statements.len() > 0 && statements.last() is Expr ==> {
            &&& lower_statements(statements, at, k).code.len() > 0
            &&& lower_statements(statements, at, k).code.last() == Opcode::OpPop.byte()
            &&& lower_block_value(statements, at, k).code == lower_statements(
                statements,
                at,
                k,
            ).code.drop_last()
        },
        !(statements.len() > 0 && statements.last() is Expr) ==> lower_block_value(
            statements,
            at,
            k,
        ) == lower_statements(statements, at, k),
{
    if statements.len() > 0 {
        let before = lower_statements(statements.drop_last(), at, k);
        let whole = lower_statements(statements, at, k);
        let value = lower_block_value(statements, at, k);
        match statements.last() {
            Statement::Expr(e) => {
                let expression = lower_expression(
                    e,
                    at + before.code.len(),
                    k + before.constants.len(),
                );
                let discard = Chunk::instruction(Opcode::OpPop, seq![]);
                lemma_encode_layout(Opcode::OpPop, seq![]);
                assert(lower_statement(
                    statements.last(),
                    at + before.code.len(),
                    k + before.constants.len(),
                ) == expression.followed_by(discard));
                assert(whole == before.followed_by(
                    lower_statement(
                        statements.last(),
                        at + before.code.len(),
                        k + before.constants.len(),
                    ),
                ));
                assert(whole == before.followed_by(expression.followed_by(discard)));
                assert(value == before.followed_by(expression));
                assert(value.code =~= whole.code.drop_last());
                assert(value.constants =~= whole.constants);
            },
            _ => {},
        }
    }
}

/// An integer literal compiles to one push-constant instruction and one
/// constant, the literal's value: the instruction's operand is the index
/// that the constant gets in the pool.
pub proof fn lemma_integer_literal(literal: IntegerLiteral, at: nat, k: nat)
    ensures
        ({
            let e = Expression::Literal(Literal::Integer(literal));
            let lowered = lower_expression(e, at, k);
            &&& unsupported_in_expression(e) is None
            &&& lowered.constants == seq![Object::Integer(literal.value)]
            &&& lowered.code == encode(Opcode::OpConst, seq![k])
            &&& lowered.code.len() == 3
            &&& lowered.code[0] == Opcode::OpConst.byte()
            &&& operand_at(lowered.code, 1) == k % 65536
        }),
{
    lemma_encode_layout(Opcode::OpConst, seq![k]);
}

/// `a < b` compiles to the code and constants of `b > a`.
pub proof fn lemma_less_than_is_greater_than_swapped(
    less: InfixExpression,
    greater: InfixExpression,
    at: nat,
    k: nat,
)
    requires
        less.operator@ == seq!['<'],
        greater.operator@ == seq!['>'],
        *less.left == *greater.right,
        *less.right == *greater.left,
    ensures
        lower_expression(Expression::Infix(less), at, k) == lower_expression(
            Expression::Infix(greater),
            at,
            k,
        ),
        unsupported_in_expression(Expression::Infix(less)) == unsupported_in_expression(
            Expression::Infix(greater),
        ),
{
    let lt = seq!['<'];
    let gt = seq!['>'];
    assert(lt[0] == '<' && gt[0] == '>');
    assert(lt != gt);
    assert(lt != seq!['+']) by {
        assert(seq!['+'][0] == '+');
    }
    assert(lt != seq!['-']) by {
        assert(seq!['-'][0] == '-');
    }
    assert(lt != seq!['*']) by {
        assert(seq!['*'][0] == '*');
    }
    assert(lt != seq!['/']) by {
        assert(seq!['/'][0] == '/');
    }
    assert(gt != seq!['+']) by {
        assert(seq!['+'][0] == '+');
    }
    assert(gt != seq!['-']) by {
        assert(seq!['-'][0] == '-');
    }
    assert(gt != seq!['*']) by {
        assert(seq!['*'][0] == '*');
    }
    assert(gt != seq!['/']) by {
        assert(seq!['/'][0] == '/');
    }
    assert(infix_opcode(lt) == Some(Opcode::OpGreaterThan));
    assert(infix_opcode(gt) == Some(Opcode::OpGreaterThan));
    let greater_first = lower_expression(*greater.left, at, k);
    let less_first = lower_expression(*less.right, at, k);
    assert(greater_first == less_first);
    assert(lower_operands(less, at, k) == lower_operands(greater, at, k));
    assert(unsupported_in_operands(less) == unsupported_in_operands(greater));
}

/// The layout of a conditional. Its code is the condition, a conditional
/// jump, the consequence compiled as a value, a jump, and the alternative
/// compiled as a value, if there is one. The conditional jump goes to the
/// instruction behind the jump, and the jump goes to the end of the
/// conditional. Without an alternative these are the same offset: the jump
/// goes to the instruction that follows it. Jump operands hold the target's
/// offset modulo 65536.
pub proof fn lemma_conditional_layout(c: IfExpression, at: nat, k: nat)
    ensures
        ({
            let code = lower_conditional(c, at, k).code;
            let condition = lower_expression(*c.condition, at, k);
            let branch_at = condition.code.len() as int;
            let consequence = lower_block_value(
                c.consequence.statements@,
                at + condition.code.len() + 3,
                k + condition.constants.len(),
            );
            let jump_at = branch_at + 3 + consequence.code.len();
            let alternative = match c.alternative {
                Some(block) => lower_block_value(
                    block.statements@,
                    (at + jump_at + 3) as nat,
                    k + condition.constants.len() + consequence.constants.len(),
                ),
                None => Chunk::empty(),
            };
            &&& code.subrange(0, branch_at) == condition.code
            &&& code[branch_at] == Opcode::OpJumpNotTruthy.byte()
            &&& operand_at(code, branch_at + 1) == (at + jump_at + 3) % 65536
            &&& code.subrange(branch_at + 3, jump_at) == consequence.code
            &&& code[jump_at] == Opcode::OpJump.byte()
            &&& operand_at(code, jump_at + 1) == (at + code.len()) % 65536
            &&& code.subrange(jump_at + 3, code.len() as int) == alternative.code
            &&& code.len() == jump_at + 3 + alternative.code.len()
            &&& c.alternative is None ==> code.len() == jump_at + 3
            &&& lower_conditional(c, at, k).constants == condition.constants
                + consequence.constants + alternative.constants
        }),
{
    let code = lower_conditional(c, at, k).code;
    let condition = lower_expression(*c.condition, at, k);
    let branch_at = condition.code.len() as int;
    let consequence = lower_block_value(
        c.consequence.statements@,
        at + condition.code.len() + 3,
        k + condition.constants.len(),
    );
    let jump_at = branch_at + 3 + consequence.code.len();
    let alternative = match c.alternative {
        Some(block) => lower_block_value(
            block.statements@,
            (at + jump_at + 3) as nat,
            k + condition.constants.len() + consequence.constants.len(),
        ),
        None => Chunk::empty(),
    };
    let target = (at + jump_at + 3) as nat;
    let end = (at + jump_at + 3 + alternative.code.len()) as nat;
    let branch = encode(Opcode::OpJumpNotTruthy, seq![target]);
    let jump = encode(Opcode::OpJump, seq![end]);
    lemma_encode_layout(Opcode::OpJumpNotTruthy, seq![target]);
    lemma_encode_layout(Opcode::OpJump, seq![end]);
    assert(code == condition.code + branch + consequence.code + jump + alternative.code);
    assert(code.subrange(0, branch_at) =~= condition.code);
    assert(code.subrange(branch_at, branch_at + 3) =~= branch);
    assert(code.subrange(branch_at + 3, jump_at) =~= consequence.code);
    assert(code.subrange(jump_at, jump_at + 3) =~= jump);
    assert(code.subrange(jump_at + 3, code.len() as int) =~= alternative.code);
    assert(code[branch_at + 1] == branch[1] && code[branch_at + 2] == branch[2]);
    assert(code[jump_at + 1] == jump[1] && code[jump_at + 2] == jump[2]);
    assert(lower_conditional(c, at, k).constants =~= condition.constants + consequence.constants
        + alternative.constants);
}

/// Each construct that the compiler does not lower is reported as itself.
pub proof fn lemma_unimplemented_constructs(e: Expression, s: Statement)
    ensures
        e is Identifier ==> unsupported_in_expression(e) == Some(Construct::Identifier),
        e is Function ==> unsupported_in_expression(e) == Some(Construct::FunctionLiteral),
        e is Call ==> unsupported_in_expression(e) == Some(Construct::Call),
        e is Index ==> unsupported_in_expression(e) == Some(Construct::Index),
        e matches Expression::Literal(Literal::Float(_)) ==> unsupported_in_expression(e) == Some(
            Construct::FloatLiteral,
        ),
        e matches Expression::Literal(Literal::String(_)) ==> unsupported_in_expression(e) == Some(
            Construct::StringLiteral,
        ),
        e matches Expression::Literal(Literal::Array(_)) ==> unsupported_in_expression(e) == Some(
            Construct::ArrayLiteral,
        ),
        s is Assign ==> unsupported_in_statement(s) == Some(Construct::Assignment),
{
}

/// What a compilation gives depends on the compilation unit and on what
/// was emitted before, and on nothing else: two compilations of one unit
/// from the same start end the same, with the same code and the same
/// constants in the same order, or with the same error.
pub proof fn lemma_compilation_is_deterministic(
    before: Chunk,
    node: Node,
    after: Chunk,
    result: Result<Bytecode, CompileError>,
    after_again: Chunk,
    result_again: Result<Bytecode, CompileError>,
)
    requires
        Compiler::compiles(before, node, after, result),
        Compiler::compiles(before, node, after_again, result_again),
    ensures
        after == after_again,
        match (result, result_again) {
            (Ok(bytecode), Ok(bytecode_again)) => bytecode@ == bytecode_again@,
            (Err(error), Err(error_again)) => error == error_again,
            _ => false,
        },
{
}

/// The same expression compiles to the same code and the same constants,
/// or fails on the same construct.
pub proof fn lemma_same_expression_compiles_alike(a: Expression, b: Expression, at: nat, k: nat)
    requires
        same_expression(a, b),
    ensures
        lower_expression(a, at, k) == lower_expression(b, at, k),
        unsupported_in_expression(a) == unsupported_in_expression(b),
    decreases a,
{
    match a {
        Expression::Identifier(_) => {},
        Expression::Literal(x) => {
            let y = b->Literal_0;
            assert(same_literal(x, y));
        },
        Expression::Prefix(x) => {
            let y = b->Prefix_0;
            lemma_same_expression_compiles_alike(*x.right, *y.right, at, k);
        },
        Expression::Infix(x) => {
            let y = b->Infix_0;
            lemma_same_operands_compile_alike(x, y, at, k);
        },
        Expression::If(x) => {
            let y = b->If_0;
            lemma_same_conditional_compiles_alike(x, y, at, k);
        },
        Expression::Function(_) => {},
        Expression::Call(_) => {},
        Expression::Index(_) => {},
    }
}

/// The same of the operands of an infix expression.
pub proof fn lemma_same_operands_compile_alike(
    a: InfixExpression,
    b: InfixExpression,
    at: nat,
    k: nat,
)
    requires
        a.operator == b.operator,
        same_expression(*a.left, *b.left),
        same_expression(*a.right, *b.right),
    ensures
        lower_operands(a, at, k) == lower_operands(b, at, k),
        unsupported_in_operands(a) == unsupported_in_operands(b),
    decreases a,
{
    if swaps_operands(a.operator@) {
        let first = lower_expression(*a.right, at, k);
        lemma_same_expression_compiles_alike(*a.right, *b.right, at, k);
        lemma_same_expression_compiles_alike(
            *a.left,
            *b.left,
            at + first.code.len(),
            k + first.constants.len(),
        );
    } else {
        let first = lower_expression(*a.left, at, k);
        lemma_same_expression_compiles_alike(*a.left, *b.left, at, k);
        lemma_same_expression_compiles_alike(
            *a.right,
            *b.right,
            at + first.code.len(),
            k + first.constants.len(),
        );
    }
}

/// The same of a conditional.
pub proof fn lemma_same_conditional_compiles_alike(
    a: IfExpression,
    b: IfExpression,
    at: nat,
    k: nat,
)
    requires
        same_expression(*a.condition, *b.condition),
        same_block(a.consequence, b.consequence),
        match a.alternative {
            Some(p) => b.alternative matches Some(q) && same_block(p, q),
            None => b.alternative is None,
        },
    ensures
        lower_conditional(a, at, k) == lower_conditional(b, at, k),
        unsupported_in_conditional(a) == unsupported_in_conditional(b),
    decreases a,
{
    let condition = lower_expression(*a.condition, at, k);
    let consequence_at = at + condition.code.len() + 3;
    let consequence_k = k + condition.constants.len();
    let consequence = lower_block_value(a.consequence.statements@, consequence_at, consequence_k);
    lemma_same_expression_compiles_alike(*a.condition, *b.condition, at, k);
    lemma_same_statements_compile_alike(
        a.consequence.statements@,
        b.consequence.statements@,
        consequence_at,
        consequence_k,
    );
    match a.alternative {
        Some(p) => {
            let q = b.alternative->Some_0;
            assert(same_block(p, q));
            lemma_same_statements_compile_alike(
                p.statements@,
                q.statements@,
                consequence_at + consequence.code.len() + 3,
                consequence_k + consequence.constants.len(),
            );
        },
        None => {},
    }
}

/// The same of a statement.
pub proof fn lemma_same_statement_compiles_alike(a: Statement, b: Statement, at: nat, k: nat)
    requires
        same_statement(a, b),
    ensures
        lower_statement(a, at, k) == lower_statement(b, at, k),
        unsupported_in_statement(a) == unsupported_in_statement(b),
    decreases a,
{
    match a {
        Statement::Expr(x) => {
            let y = b->Expr_0;
            lemma_same_expression_compiles_alike(x, y, at, k);
        },
        Statement::Return(x) => {
            let y = b->Return_0;
            lemma_same_expression_compiles_alike(x.return_value, y.return_value, at, k);
        },
        Statement::Assign(_) => {},
    }
}

/// The same of a list of statements, compiled as statements and compiled
/// as a value.
pub proof fn lemma_same_statements_compile_alike(
    a: Seq<Statement>,
    b: Seq<Statement>,
    at: nat,
    k: nat,
)
    requires
        same_statements(a, b),
    ensures
        lower_statements(a, at, k) == lower_statements(b, at, k),
        lower_block_value(a, at, k) == lower_block_value(b, at, k),
        unsupported_in_statements(a) == unsupported_in_statements(b),
    decreases a,
{
    if a.len() > 0 {
        let before = lower_statements(a.drop_last(), at, k);
        lemma_same_statements_compile_alike(a.drop_last(), b.drop_last(), at, k);
        lemma_same_statement_compiles_alike(
            a.last(),
            b.last(),
            at + before.code.len(),
            k + before.constants.len(),
        );
        assert(same_statement(a.last(), b.last()));
        match a.last() {
            Statement::Expr(x) => {
                let y = b.last()->Expr_0;
                lemma_same_expression_compiles_alike(
                    x,
                    y,
                    at + before.code.len(),
                    k + before.constants.len(),
                );
            },
            Statement::Return(_) => {
                assert(b.last() is Return);
            },
            Statement::Assign(_) => {
                assert(b.last() is Assign);
            },
        }
    }
}

/// The same compilation unit compiles to the same code and the same
/// constants, or fails on the same construct. So a copy of a tree compiles
/// as the tree does.
pub proof fn lemma_same_node_compiles_alike(a: Node, b: Node, at: nat, k: nat)
    requires
        same_node(a, b),
    ensures
        lower_node(a, at, k) == lower_node(b, at, k),
        unsupported_in_node(a) == unsupported_in_node(b),
{
    match a {
        Node::Expression(x) => {
            lemma_same_expression_compiles_alike(x, b->Expression_0, at, k);
        },
        Node::Program(x) => {
            lemma_same_statements_compile_alike(x.statements@, b->Program_0.statements@, at, k);
        },
        Node::Statement(x) => {
            lemma_same_statement_compiles_alike(x, b->Statement_0, at, k);
        },
    }
}

/// What the compiler remembers after an expression is true of the stream:
/// the instruction remembered as last is the one that ends the expression's
/// code, and it is no discard instruction.
pub proof fn lemma_expression_history(e: Expression, at: nat, k: nat, before: History)
    requires
        unsupported_in_expression(e) is None,
    ensures
        ends_in_value(
            history_of_expression(e, at, k, before),
            at + lower_expression(e, at, k).code.len(),
        ),
    decreases e,
{
    match e {
        Expression::Literal(Literal::Integer(_)) => {
            lemma_encode_layout(Opcode::OpConst, seq![k]);
        },
        Expression::Literal(Literal::Boolean(_)) => {
            lemma_encode_layout(Opcode::OpTrue, seq![]);
            lemma_encode_layout(Opcode::OpFalse, seq![]);
        },
        Expression::Prefix(p) => {
            lemma_encode_layout(prefix_opcode(p.operator@).unwrap(), seq![]);
        },
        Expression::Infix(i) => {
            lemma_encode_layout(infix_opcode(i.operator@).unwrap(), seq![]);
        },
        Expression::If(c) => {
            lemma_conditional_history(c, at, k, before);
        },
        _ => {},
    }
}

/// The code of a conditional is as long as its parts and its two jumps.
proof fn lemma_conditional_length(condition: Chunk, consequence: Chunk, alternative: Chunk, at: nat)
    ensures
        conditional_chunk(condition, consequence, alternative, at).code.len()
            == condition.code.len() + 3 + consequence.code.len() + 3 + alternative.code.len(),
{
    let target = at + condition.code.len() + 3 + consequence.code.len() + 3;
    let end = target + alternative.code.len();
    lemma_encode_layout(Opcode::OpJumpNotTruthy, seq![target]);
    lemma_encode_layout(Opcode::OpJump, seq![end]);
}

/// The same of a conditional.
pub proof fn lemma_conditional_history(c: IfExpression, at: nat, k: nat, before: History)
    requires
        unsupported_in_conditional(c) is None,
    ensures
        ends_in_value(
            history_of_conditional(c, at, k, before),
            at + lower_conditional(c, at, k).code.len(),
        ),
    decreases c,
{
    let condition = lower_expression(*c.condition, at, k);
    let branch_at = at + condition.code.len();
    let consequence_k = k + condition.constants.len();
    let consequence = lower_block_value(c.consequence.statements@, branch_at + 3, consequence_k);
    let jump_at = branch_at + 3 + consequence.code.len();
    let alternative = match c.alternative {
        Some(block) => lower_block_value(
            block.statements@,
            jump_at + 3,
            consequence_k + consequence.constants.len(),
        ),
        None => Chunk::empty(),
    };
    let branched = history_of_expression(*c.condition, at, k, before).emit(
        Opcode::OpJumpNotTruthy,
        branch_at,
    );
    let closed = history_of_block_value(
        c.consequence.statements@,
        branch_at + 3,
        consequence_k,
        branched,
    );
    let jumped = closed.emit(Opcode::OpJump, jump_at);
    lemma_conditional_length(condition, consequence, alternative, at);
    assert(ends_in_value(branched, branch_at + 3));
    lemma_block_value_history(c.consequence.statements@, branch_at + 3, consequence_k, branched);
    assert(ends_in_value(jumped, jump_at + 3));
    match c.alternative {
        Some(block) => {
            lemma_block_value_history(
                block.statements@,
                jump_at + 3,
                consequence_k + consequence.constants.len(),
                jumped,
            );
        },
        None => {},
    }
}

/// A discard instruction emitted behind an instruction that leaves a
/// value ends the stream, with that instruction in front of it.
proof fn lemma_discard_history(valued: History, end: nat)
    requires
        ends_in_value(valued, end),
    ensures
        ends_in_discard(valued.emit(Opcode::OpPop, end), end + 1),
{
}

/// What the compiler remembers after a statement is true of the stream:
/// an expression statement ends in its discard instruction, with the last
/// instruction of the expression in front of it, and a return statement
/// ends in the last instruction of its expression.
pub proof fn lemma_statement_history(s: Statement, at: nat, k: nat, before: History)
    requires
        unsupported_in_statement(s) is None,
    ensures
        s is Expr ==> ends_in_discard(
            history_of_statement(s, at, k, before),
            at + lower_statement(s, at, k).code.len(),
        ),
        s is Return ==> ends_in_value(
            history_of_statement(s, at, k, before),
            at + lower_statement(s, at, k).code.len(),
        ),
    decreases s,
{
    match s {
        Statement::Expr(e) => {
            let value = lower_expression(e, at, k);
            let valued = history_of_expression(e, at, k, before);
            lemma_expression_history(e, at, k, before);
            lemma_discard_history(valued, at + value.code.len());
            lemma_encode_layout(Opcode::OpPop, seq![]);
            assert(lower_statement(s, at, k).code.len() == value.code.len() + 1);
        },
        Statement::Return(r) => {
            lemma_expression_history(r.return_value, at, k, before);
        },
        Statement::Assign(_) => {},
    }
}

/// What the compiler remembers after a list of statements is what it
/// remembers after the last of them.
pub proof fn lemma_statements_history(
    statements: Seq<Statement>,
    at: nat,
    k: nat,
    before: History,
)
    requires
        unsupported_in_statements(statements) is None,
        statements.len() > 0,
    ensures
        statements.last() is Expr || statements.last() is Return,
        statements.last() is Expr ==> ends_in_discard(
            history_of_statements(statements, at, k, before),
            at + lower_statements(statements, at, k).code.len(),
        ),
        statements.last() is Return ==> ends_in_value(
            history_of_statements(statements, at, k, before),
            at + lower_statements(statements, at, k).code.len(),
        ),
{
    let done = lower_statements(statements.drop_last(), at, k);
    assert(unsupported_in_statement(statements.last()) is None);
    lemma_statement_history(
        statements.last(),
        at + done.code.len(),
        k + done.constants.len(),
        history_of_statements(statements.drop_last(), at, k, before),
    );
}

/// What the compiler remembers after a block compiled as a value is true of
/// the stream, if what it remembered before was: a closing discard
/// instruction is taken back, so the instruction remembered as last ends
/// the block's code and is no discard instruction.
pub proof fn lemma_block_value_history(
    statements: Seq<Statement>,
    at: nat,
    k: nat,
    before: History,
)
    requires
        unsupported_in_statements(statements) is None,
        ends_in_value(before, at),
    ensures
        ends_in_value(
            history_of_block_value(statements, at, k, before),
            at + lower_block_value(statements, at, k).code.len(),
        ),
    decreases statements,
{
    if statements.len() > 0 {
        let done = lower_statements(statements.drop_last(), at, k);
        let earlier = history_of_statements(statements.drop_last(), at, k, before);
        assert(unsupported_in_statement(statements.last()) is None);
        lemma_statement_history(
            statements.last(),
            at + done.code.len(),
            k + done.constants.len(),
            earlier,
        );
        lemma_block_value(statements, at, k);
    }
}

} // verus!
