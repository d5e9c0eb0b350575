use std::rc::Rc;

use bytecode_compiler::ast::{
    ArrayLiteral, Assignment, BlockStatement, BooleanLiteral, CallExpression, Expression,
    FloatLiteral, FunctionLiteral, Identifier, IfExpression, IndexExpression, InfixExpression,
    IntegerLiteral, Literal, Node, PrefixExpression, Program, ReturnStatement, Statement,
    StringLiteral,
};
use bytecode_compiler::compiler::{Bytecode, Compiler};
use bytecode_compiler::error::{CompileError, Construct};
use bytecode_compiler::object::Object;
use bytecode_compiler::token::Token;

const CONST: u8 = 0;
const POP: u8 = 1;
const ADD: u8 = 2;
const SUB: u8 = 3;
const MUL: u8 = 4;
const DIV: u8 = 5;
const GREATER: u8 = 6;
const EQUAL: u8 = 7;
const NOT_EQUAL: u8 = 8;
const TRUE: u8 = 9;
const FALSE: u8 = 10;
const MINUS: u8 = 11;
const BANG: u8 = 12;
const JUMP: u8 = 13;
const JUMP_NOT_TRUTHY: u8 = 14;

fn integer(value: i64) -> Expression {
    Expression::Literal(Literal::Integer(IntegerLiteral {
        token: Token::new(&value.to_string()),
        value,
    }))
}

fn boolean(value: bool) -> Expression {
    Expression::Literal(Literal::Boolean(BooleanLiteral {
        token: Token::new(if value { "true" } else { "false" }),
        value,
    }))
}

fn identifier(name: &str) -> Identifier {
    Identifier { token: Token::new(name), value: name.to_string() }
}

fn infix(left: Expression, operator: &str, right: Expression) -> Expression {
    Expression::Infix(InfixExpression {
        token: Token::new(operator),
        left: Box::new(left),
        operator: Token::new(operator),
        right: Box::new(right),
    })
}

fn prefix(operator: &str, right: Expression) -> Expression {
    Expression::Prefix(PrefixExpression {
        token: Token::new(operator),
        operator: Token::new(operator),
        right: Box::new(right),
    })
}

fn block(statements: Vec<Statement>) -> BlockStatement {
    BlockStatement { token: Token::new("{"), statements }
}

fn conditional(
    condition: Expression,
    consequence: Vec<Statement>,
    alternative: Option<Vec<Statement>>,
) -> Expression {
    Expression::If(IfExpression {
        token: Token::new("if"),
        condition: Box::new(condition),
        consequence: block(consequence),
        alternative: alternative.map(block),
    })
}

fn returning(value: Expression) -> Statement {
    Statement::Return(ReturnStatement { token: Token::new("return"), return_value: value })
}

fn assignment(name: &str, value: Expression) -> Statement {
    Statement::Assign(Assignment { token: Token::new("let"), name: identifier(name), value })
}

fn program(statements: Vec<Statement>) -> Node {
    Node::Program(Program { statements })
}

fn integers(constants: &[Rc<Object>]) -> Vec<i64> {
    constants
        .iter()
        .map(|constant| match **constant {
            Object::Integer(value) => value,
            _ => panic!("not an integer"),
        })
        .collect()
}

fn compile(node: &Node) -> Bytecode {
    Compiler::new().compile(node).unwrap()
}

fn code(node: &Node) -> Vec<u8> {
    compile(node).instructions.0
}

fn failure(node: &Node) -> CompileError {
    Compiler::new().compile(node).unwrap_err()
}

fn operand(code: &[u8], at: usize) -> usize {
    usize::from(code[at]) * 256 + usize::from(code[at + 1])
}

#[test]
fn a_new_compiler_has_emitted_nothing() {
    let bytecode = Compiler::new().bytecode();
    assert!(bytecode.instructions.0.is_empty());
    assert!(bytecode.constants.is_empty());
}

#[test]
fn an_integer_literal_is_one_constant_and_one_push() {
    for value in [0, 1, -1, 42, i64::MAX, i64::MIN] {
        let bytecode = compile(&Node::Expression(integer(value)));
        assert_eq!(bytecode.instructions.0, vec![CONST, 0, 0]);
        assert_eq!(integers(&bytecode.constants), vec![value]);
    }
}

#[test]
fn an_integer_literal_refers_to_the_index_of_its_constant() {
    let mut compiler = Compiler::new();
    for index in 0..300usize {
        let bytecode = compiler.compile(&Node::Expression(integer(7))).unwrap();
        let code = &bytecode.instructions.0;
        assert_eq!(code.len(), 3 * (index + 1));
        assert_eq!(code[3 * index], CONST);
        assert_eq!(operand(code, 3 * index + 1), index);
        assert_eq!(bytecode.constants.len(), index + 1);
        assert_eq!(*bytecode.constants[index], Object::Integer(7));
    }
}

#[test]
fn equal_literals_get_constants_of_their_own() {
    let bytecode = compile(&program(vec![Statement::Expr(infix(integer(5), "+", integer(5)))]));
    assert_eq!(bytecode.instructions.0, vec![CONST, 0, 0, CONST, 0, 1, ADD, POP]);
    assert_eq!(integers(&bytecode.constants), vec![5, 5]);
}

#[test]
fn addition_statement() {
    let bytecode = compile(&program(vec![Statement::Expr(infix(integer(1), "+", integer(2)))]));
    assert_eq!(bytecode.instructions.0, vec![CONST, 0, 0, CONST, 0, 1, ADD, POP]);
    assert_eq!(integers(&bytecode.constants), vec![1, 2]);
}

#[test]
fn less_than_is_greater_than_with_the_operands_exchanged() {
    let less = compile(&program(vec![Statement::Expr(infix(integer(1), "<", integer(2)))]));
    let greater = compile(&program(vec![Statement::Expr(infix(integer(2), ">", integer(1)))]));
    assert_eq!(less.instructions.0, greater.instructions.0);
    assert_eq!(less.instructions.0, vec![CONST, 0, 0, CONST, 0, 1, GREATER, POP]);
    assert_eq!(integers(&less.constants), vec![2, 1]);
    assert_eq!(integers(&greater.constants), vec![2, 1]);
    assert_eq!(less, greater);
}

#[test]
fn greater_than_keeps_the_order_of_its_operands() {
    let bytecode = compile(&Node::Expression(infix(integer(1), ">", integer(2))));
    assert_eq!(bytecode.instructions.0, vec![CONST, 0, 0, CONST, 0, 1, GREATER]);
    assert_eq!(integers(&bytecode.constants), vec![1, 2]);
}

#[test]
fn true_statement() {
    let bytecode = compile(&program(vec![Statement::Expr(boolean(true))]));
    assert_eq!(bytecode.instructions.0, vec![TRUE, POP]);
    assert!(bytecode.constants.is_empty());
}

#[test]
fn false_statement() {
    let bytecode = compile(&program(vec![Statement::Expr(boolean(false))]));
    assert_eq!(bytecode.instructions.0, vec![FALSE, POP]);
    assert!(bytecode.constants.is_empty());
}

#[test]
fn every_infix_operator_has_its_opcode() {
    let cases = [
        ("+", ADD),
        ("-", SUB),
        ("*", MUL),
        ("/", DIV),
        (">", GREATER),
        ("==", EQUAL),
        ("!=", NOT_EQUAL),
    ];
    for (operator, opcode) in cases {
        let bytecode = compile(&Node::Expression(infix(integer(3), operator, integer(4))));
        assert_eq!(bytecode.instructions.0, vec![CONST, 0, 0, CONST, 0, 1, opcode]);
        assert_eq!(integers(&bytecode.constants), vec![3, 4]);
    }
}

#[test]
fn every_prefix_operator_has_its_opcode() {
    assert_eq!(code(&Node::Expression(prefix("!", boolean(true)))), vec![TRUE, BANG]);
    let bytecode = compile(&Node::Expression(prefix("-", integer(9))));
    assert_eq!(bytecode.instructions.0, vec![CONST, 0, 0, MINUS]);
    assert_eq!(integers(&bytecode.constants), vec![9]);
}

#[test]
fn operands_come_before_their_operator() {
    // (1 + 2) * (3 - 4)
    let node = Node::Expression(infix(
        infix(integer(1), "+", integer(2)),
        "*",
        infix(integer(3), "-", integer(4)),
    ));
    let bytecode = compile(&node);
    assert_eq!(
        bytecode.instructions.0,
        vec![CONST, 0, 0, CONST, 0, 1, ADD, CONST, 0, 2, CONST, 0, 3, SUB, MUL]
    );
    assert_eq!(integers(&bytecode.constants), vec![1, 2, 3, 4]);
}

#[test]
fn a_return_statement_leaves_its_value() {
    let bytecode = compile(&Node::Statement(returning(integer(5))));
    assert_eq!(bytecode.instructions.0, vec![CONST, 0, 0]);
    assert_eq!(integers(&bytecode.constants), vec![5]);
}

#[test]
fn an_expression_statement_discards_its_value() {
    let bytecode = compile(&Node::Statement(Statement::Expr(integer(5))));
    assert_eq!(bytecode.instructions.0, vec![CONST, 0, 0, POP]);
}

#[test]
fn a_standalone_expression_leaves_its_value() {
    assert_eq!(code(&Node::Expression(boolean(true))), vec![TRUE]);
}

#[test]
fn an_empty_program_compiles_to_nothing() {
    let bytecode = compile(&program(vec![]));
    assert!(bytecode.instructions.0.is_empty());
    assert!(bytecode.constants.is_empty());
}

#[test]
fn statements_compile_in_order() {
    let bytecode = compile(&program(vec![
        Statement::Expr(integer(1)),
        Statement::Expr(boolean(false)),
        returning(integer(2)),
    ]));
    assert_eq!(bytecode.instructions.0, vec![CONST, 0, 0, POP, FALSE, POP, CONST, 0, 1]);
    assert_eq!(integers(&bytecode.constants), vec![1, 2]);
}

#[test]
fn conditional_with_alternative() {
    // if (1 > 5) { 10 } else { 20 };
    let bytecode = compile(&program(vec![Statement::Expr(conditional(
        infix(integer(1), ">", integer(5)),
        vec![Statement::Expr(integer(10))],
        Some(vec![Statement::Expr(integer(20))]),
    ))]));
    let code = &bytecode.instructions.0;
    assert_eq!(
        *code,
        vec![
            CONST, 0, 0, // 0000
            CONST, 0, 1, // 0003
            GREATER, // 0006
            JUMP_NOT_TRUTHY, 0, 16, // 0007
            CONST, 0, 2, // 0010
            JUMP, 0, 19, // 0013
            CONST, 0, 3, // 0016
            POP, // 0019
        ]
    );
    assert_eq!(integers(&bytecode.constants), vec![1, 5, 10, 20]);
    // the conditional jump goes to the instruction behind the jump
    assert_eq!(operand(code, 8), 13 + 3);
    // the jump goes behind the alternative
    assert_eq!(operand(code, 14), 19);
    // neither branch ends with a discard instruction
    assert_eq!(code[10..13], [CONST, 0, 2]);
    assert_eq!(code[16..19], [CONST, 0, 3]);
}

#[test]
fn conditional_as_a_standalone_expression_jumps_to_the_end_of_the_stream() {
    let bytecode = compile(&Node::Expression(conditional(
        boolean(true),
        vec![Statement::Expr(integer(10))],
        Some(vec![Statement::Expr(integer(20))]),
    )));
    let code = &bytecode.instructions.0;
    assert_eq!(
        *code,
        vec![TRUE, JUMP_NOT_TRUTHY, 0, 10, CONST, 0, 0, JUMP, 0, 13, CONST, 0, 1]
    );
    assert_eq!(operand(code, 8), code.len());
}

#[test]
fn conditional_without_alternative_jumps_to_the_next_instruction() {
    // if (1 > 5) { 10 };
    let bytecode = compile(&program(vec![Statement::Expr(conditional(
        infix(integer(1), ">", integer(5)),
        vec![Statement::Expr(integer(10))],
        None,
    ))]));
    let code = &bytecode.instructions.0;
    assert_eq!(
        *code,
        vec![
            CONST, 0, 0, // 0000
            CONST, 0, 1, // 0003
            GREATER, // 0006
            JUMP_NOT_TRUTHY, 0, 16, // 0007
            CONST, 0, 2, // 0010
            JUMP, 0, 16, // 0013
            POP, // 0016
        ]
    );
    assert_eq!(integers(&bytecode.constants), vec![1, 5, 10]);
    let jumps: Vec<usize> = [0usize, 3, 6, 7, 10, 13, 16]
        .into_iter()
        .filter(|offset| code[*offset] == JUMP)
        .collect();
    assert_eq!(jumps, vec![13]);
    assert_eq!(operand(code, 14), 13 + 3);
    assert_eq!(operand(code, 8), operand(code, 14));
}

#[test]
fn a_branch_that_ends_with_a_return_statement_keeps_all_its_code() {
    let bytecode = compile(&Node::Expression(conditional(
        boolean(true),
        vec![Statement::Expr(integer(1)), returning(integer(2))],
        None,
    )));
    assert_eq!(
        bytecode.instructions.0,
        vec![TRUE, JUMP_NOT_TRUTHY, 0, 14, CONST, 0, 0, POP, CONST, 0, 1, JUMP, 0, 14]
    );
}

#[test]
fn only_the_last_discard_of_a_branch_is_retracted() {
    let bytecode = compile(&Node::Expression(conditional(
        boolean(true),
        vec![Statement::Expr(integer(1)), Statement::Expr(integer(2))],
        Some(vec![Statement::Expr(boolean(false)), Statement::Expr(boolean(true))]),
    )));
    assert_eq!(
        bytecode.instructions.0,
        vec![
            TRUE, // 0000
            JUMP_NOT_TRUTHY, 0, 14, // 0001
            CONST, 0, 0, // 0004
            POP, // 0007
            CONST, 0, 1, // 0008
            JUMP, 0, 17, // 0011
            FALSE, // 0014
            POP, // 0015
            TRUE, // 0016
        ]
    );
}

#[test]
fn empty_branches_compile_to_the_jumps_alone() {
    let bytecode = compile(&Node::Expression(conditional(boolean(false), vec![], Some(vec![]))));
    assert_eq!(
        bytecode.instructions.0,
        vec![FALSE, JUMP_NOT_TRUTHY, 0, 7, JUMP, 0, 7]
    );
}

#[test]
fn a_constant_one_at_the_end_of_a_branch_is_not_taken_for_a_discard() {
    // the operand of the push is the byte of the discard opcode
    let mut compiler = Compiler::new();
    compiler.compile(&Node::Expression(integer(0))).unwrap();
    let bytecode = compiler
        .compile(&Node::Expression(conditional(
            boolean(true),
            vec![returning(integer(1))],
            None,
        )))
        .unwrap();
    assert_eq!(
        bytecode.instructions.0,
        vec![CONST, 0, 0, TRUE, JUMP_NOT_TRUTHY, 0, 13, CONST, 0, 1, JUMP, 0, 13]
    );
}

#[test]
fn nested_conditionals() {
    // if (true) { if (false) { 1 } else { 2 } } else { 3 }
    let inner = conditional(
        boolean(false),
        vec![Statement::Expr(integer(1))],
        Some(vec![Statement::Expr(integer(2))]),
    );
    let outer = conditional(
        boolean(true),
        vec![Statement::Expr(inner)],
        Some(vec![Statement::Expr(integer(3))]),
    );
    let bytecode = compile(&Node::Expression(outer));
    assert_eq!(
        bytecode.instructions.0,
        vec![
            TRUE, // 0000
            JUMP_NOT_TRUTHY, 0, 20, // 0001
            FALSE, // 0004
            JUMP_NOT_TRUTHY, 0, 14, // 0005
            CONST, 0, 0, // 0008
            JUMP, 0, 17, // 0011
            CONST, 0, 1, // 0014
            JUMP, 0, 23, // 0017
            CONST, 0, 2, // 0020
        ]
    );
    assert_eq!(integers(&bytecode.constants), vec![1, 2, 3]);
}

#[test]
fn a_conditional_in_a_condition() {
    let condition = conditional(boolean(true), vec![Statement::Expr(boolean(false))], None);
    let bytecode = compile(&Node::Expression(conditional(
        condition,
        vec![Statement::Expr(integer(1))],
        None,
    )));
    assert_eq!(
        bytecode.instructions.0,
        vec![
            TRUE, // 0000
            JUMP_NOT_TRUTHY, 0, 8, // 0001
            FALSE, // 0004
            JUMP, 0, 8, // 0005
            JUMP_NOT_TRUTHY, 0, 17, // 0008
            CONST, 0, 0, // 0011
            JUMP, 0, 17, // 0014
        ]
    );
}

#[test]
fn jump_targets_are_offsets_in_the_whole_stream() {
    let mut compiler = Compiler::new();
    compiler.compile(&program(vec![Statement::Expr(integer(1))])).unwrap();
    let bytecode = compiler
        .compile(&program(vec![Statement::Expr(conditional(
            boolean(true),
            vec![Statement::Expr(integer(2))],
            Some(vec![Statement::Expr(integer(3))]),
        ))]))
        .unwrap();
    assert_eq!(
        bytecode.instructions.0,
        vec![
            CONST, 0, 0, // 0000
            POP, // 0003
            TRUE, // 0004
            JUMP_NOT_TRUTHY, 0, 14, // 0005
            CONST, 0, 1, // 0008
            JUMP, 0, 17, // 0011
            CONST, 0, 2, // 0014
            POP, // 0017
        ]
    );
    assert_eq!(integers(&bytecode.constants), vec![1, 2, 3]);
}

#[test]
fn compiling_again_appends() {
    let mut compiler = Compiler::new();
    let first = compiler.compile(&program(vec![Statement::Expr(integer(1))])).unwrap();
    let second = compiler.compile(&program(vec![Statement::Expr(integer(2))])).unwrap();
    assert_eq!(first.instructions.0, vec![CONST, 0, 0, POP]);
    assert_eq!(second.instructions.0, vec![CONST, 0, 0, POP, CONST, 0, 1, POP]);
    assert_eq!(integers(&second.constants), vec![1, 2]);
    assert_eq!(compiler.bytecode(), second);
}

#[test]
fn compiling_twice_gives_equal_bytecode() {
    let node = program(vec![
        Statement::Expr(conditional(
            infix(integer(1), "<", integer(2)),
            vec![Statement::Expr(infix(integer(3), "*", prefix("-", integer(4))))],
            Some(vec![returning(prefix("!", boolean(false)))]),
        )),
        returning(infix(integer(5), "!=", integer(6))),
    ]);
    let first = Compiler::new().compile(&node).unwrap();
    let second = Compiler::new().compile(&node).unwrap();
    assert_eq!(first, second);
    assert_eq!(first.instructions.0, second.instructions.0);
    assert_eq!(integers(&first.constants), integers(&second.constants));
    assert_eq!(integers(&first.constants), vec![2, 1, 3, 4, 5, 6]);
}

#[test]
fn failing_twice_gives_equal_errors() {
    let node = program(vec![Statement::Expr(integer(1)), assignment("x", integer(2))]);
    assert_eq!(failure(&node), failure(&node));
}

#[test]
fn bytecode_shares_its_constants_with_the_compiler() {
    let mut compiler = Compiler::new();
    let first = compiler.compile(&Node::Expression(integer(11))).unwrap();
    let second = compiler.bytecode();
    assert!(Rc::ptr_eq(&first.constants[0], &second.constants[0]));
    assert_eq!(Rc::strong_count(&first.constants[0]), 3);
    let third = second.clone();
    assert_eq!(third, second);
    assert!(Rc::ptr_eq(&third.constants[0], &first.constants[0]));
    assert_eq!(Rc::strong_count(&first.constants[0]), 4);
}

#[test]
fn a_conditional_on_an_identifier_fails() {
    // if (x > 5) { 10 } else { 20 };
    let node = program(vec![Statement::Expr(conditional(
        infix(Expression::Identifier(identifier("x")), ">", integer(5)),
        vec![Statement::Expr(integer(10))],
        Some(vec![Statement::Expr(integer(20))]),
    ))]);
    assert_eq!(failure(&node), CompileError::Unimplemented(Construct::Identifier));
}

fn unimplemented_expressions() -> Vec<(Expression, Construct)> {
    vec![
        (Expression::Identifier(identifier("x")), Construct::Identifier),
        (
            Expression::Literal(Literal::Float(FloatLiteral {
                token: Token::new("1.5"),
                bits: 0x3FF8_0000_0000_0000,
            })),
            Construct::FloatLiteral,
        ),
        (
            Expression::Literal(Literal::String(StringLiteral {
                token: Token::new("\"a\""),
                value: "a".to_string(),
            })),
            Construct::StringLiteral,
        ),
        (
            Expression::Literal(Literal::Array(ArrayLiteral {
                token: Token::new("["),
                elements: vec![integer(1)],
            })),
            Construct::ArrayLiteral,
        ),
        (
            Expression::Function(FunctionLiteral {
                token: Token::new("fn"),
                parameters: vec![identifier("a")],
                body: block(vec![Statement::Expr(integer(1))]),
            }),
            Construct::FunctionLiteral,
        ),
        (
            Expression::Call(CallExpression {
                token: Token::new("("),
                function: Box::new(Expression::Identifier(identifier("f"))),
                arguments: vec![integer(1)],
            }),
            Construct::Call,
        ),
        (
            Expression::Index(IndexExpression {
                token: Token::new("["),
                left: Box::new(integer(1)),
                index: Box::new(integer(0)),
            }),
            Construct::Index,
        ),
        (prefix("~", integer(1)), Construct::PrefixOperator),
        (prefix("", integer(1)), Construct::PrefixOperator),
        (prefix("!!", integer(1)), Construct::PrefixOperator),
        (infix(integer(1), "%", integer(2)), Construct::InfixOperator),
        (infix(integer(1), "<=", integer(2)), Construct::InfixOperator),
        (infix(integer(1), "=", integer(2)), Construct::InfixOperator),
        (infix(integer(1), "", integer(2)), Construct::InfixOperator),
    ]
}

#[test]
fn what_is_not_lowered_fails_as_unimplemented() {
    for (expression, construct) in unimplemented_expressions() {
        let error = failure(&Node::Expression(expression));
        assert_eq!(error, CompileError::Unimplemented(construct));
        assert_eq!(error.message(), "compile_expression: unimplemented");
    }
    let error = failure(&Node::Statement(assignment("x", integer(1))));
    assert_eq!(error, CompileError::Unimplemented(Construct::Assignment));
    assert_eq!(error.message(), "compile_statement: unimplemented");
}

#[test]
fn what_is_not_lowered_fails_wherever_it_stands() {
    for (expression, construct) in unimplemented_expressions() {
        let node = program(vec![
            Statement::Expr(integer(1)),
            Statement::Expr(conditional(
                boolean(true),
                vec![Statement::Expr(integer(2))],
                Some(vec![returning(infix(integer(3), "+", prefix("-", expression)))]),
            )),
        ]);
        assert_eq!(failure(&node), CompileError::Unimplemented(construct));
    }
}

#[test]
fn a_failed_compilation_appends_nothing() {
    for (expression, construct) in unimplemented_expressions() {
        let mut compiler = Compiler::new();
        let before = compiler
            .compile(&program(vec![Statement::Expr(infix(integer(1), "+", integer(2)))]))
            .unwrap();
        let node = program(vec![
            Statement::Expr(integer(3)),
            Statement::Expr(conditional(
                integer(4),
                vec![Statement::Expr(integer(5))],
                Some(vec![Statement::Expr(expression)]),
            )),
        ]);
        assert_eq!(compiler.compile(&node), Err(CompileError::Unimplemented(construct)));
        assert_eq!(compiler.bytecode(), before);
        // and the compiler goes on as if the failed compilation had not been
        let after = compiler.compile(&program(vec![Statement::Expr(integer(6))])).unwrap();
        assert_eq!(
            after.instructions.0,
            vec![CONST, 0, 0, CONST, 0, 1, ADD, POP, CONST, 0, 2, POP]
        );
        assert_eq!(integers(&after.constants), vec![1, 2, 6]);
    }
}

#[test]
fn a_failed_compilation_leaves_a_new_compiler_empty() {
    let mut compiler = Compiler::new();
    let node = program(vec![Statement::Expr(integer(1)), assignment("x", integer(2))]);
    assert_eq!(
        compiler.compile(&node),
        Err(CompileError::Unimplemented(Construct::Assignment))
    );
    let bytecode = compiler.bytecode();
    assert!(bytecode.instructions.0.is_empty());
    assert!(bytecode.constants.is_empty());
}

fn unknown() -> Expression {
    Expression::Identifier(identifier("x"))
}

fn text() -> Expression {
    Expression::Literal(Literal::String(StringLiteral {
        token: Token::new("\"a\""),
        value: "a".to_string(),
    }))
}

#[test]
fn the_first_construct_in_compilation_order_is_reported() {
    // left operand first
    let node = Node::Expression(infix(unknown(), "+", text()));
    assert_eq!(failure(&node), CompileError::Unimplemented(Construct::Identifier));
    // but the right operand first for `<`
    let node = Node::Expression(infix(unknown(), "<", text()));
    assert_eq!(failure(&node), CompileError::Unimplemented(Construct::StringLiteral));
    // operands before the operator
    let node = Node::Expression(infix(integer(1), "%", unknown()));
    assert_eq!(failure(&node), CompileError::Unimplemented(Construct::Identifier));
    let node = Node::Expression(prefix("~", unknown()));
    assert_eq!(failure(&node), CompileError::Unimplemented(Construct::Identifier));
    // condition before consequence before alternative
    let node = Node::Expression(conditional(
        boolean(true),
        vec![assignment("a", integer(1))],
        Some(vec![Statement::Expr(unknown())]),
    ));
    assert_eq!(failure(&node), CompileError::Unimplemented(Construct::Assignment));
    // statements in order
    let node = program(vec![Statement::Expr(text()), Statement::Expr(unknown())]);
    assert_eq!(failure(&node), CompileError::Unimplemented(Construct::StringLiteral));
}

#[test]
fn operands_hold_indices_and_offsets_modulo_65536() {
    let mut statements = Vec::new();
    for value in 0..65537 {
        statements.push(Statement::Expr(integer(value)));
    }
    let bytecode = compile(&program(statements));
    let code = &bytecode.instructions.0;
    assert_eq!(bytecode.constants.len(), 65537);
    assert_eq!(code.len(), 4 * 65537);
    assert_eq!(code[4 * 65535..4 * 65535 + 4], [CONST, 255, 255, POP]);
    assert_eq!(code[4 * 65536..4 * 65536 + 4], [CONST, 0, 0, POP]);
}

#[test]
fn the_stream_of_a_compilation_disassembles() {
    let bytecode = compile(&program(vec![Statement::Expr(conditional(
        infix(integer(1), ">", integer(5)),
        vec![Statement::Expr(integer(10))],
        Some(vec![Statement::Expr(integer(20))]),
    ))]));
    assert_eq!(
        bytecode.disassemble().unwrap(),
        "0000 OpConst 0\n\
         0003 OpConst 1\n\
         0006 OpGreaterThan\n\
         0007 OpJumpNotTruthy 16\n\
         0010 OpConst 2\n\
         0013 OpJump 19\n\
         0016 OpConst 3\n\
         0019 OpPop\n"
    );
}

/// The offsets at which the instructions of a stream start, and its length.
fn boundaries(code: &[u8]) -> Vec<usize> {
    let mut starts = Vec::new();
    let mut offset = 0;
    while offset < code.len() {
        starts.push(offset);
        offset += match code[offset] {
            CONST | JUMP | JUMP_NOT_TRUTHY => 3,
            byte => {
                assert!(byte < 15);
                1
            }
        };
    }
    assert_eq!(offset, code.len());
    starts.push(offset);
    starts
}

#[test]
fn jumps_go_to_instructions_and_constants_are_in_the_pool() {
    let inner = conditional(
        infix(integer(1), "<", integer(2)),
        vec![Statement::Expr(integer(3)), returning(integer(4))],
        Some(vec![Statement::Expr(conditional(boolean(true), vec![], None))]),
    );
    let node = program(vec![
        Statement::Expr(integer(0)),
        Statement::Expr(conditional(
            prefix("!", inner),
            vec![Statement::Expr(conditional(
                boolean(false),
                vec![Statement::Expr(integer(5))],
                Some(vec![]),
            ))],
            Some(vec![Statement::Expr(infix(integer(6), "*", integer(7)))]),
        )),
        returning(conditional(integer(8), vec![returning(integer(9))], None)),
    ]);
    let mut compiler = Compiler::new();
    compiler.compile(&program(vec![Statement::Expr(integer(-1))])).unwrap();
    let bytecode = compiler.compile(&node).unwrap();
    let code = &bytecode.instructions.0;
    let starts = boundaries(code);
    let mut jumps = 0;
    let mut pushes = 0;
    for start in &starts[..starts.len() - 1] {
        match code[*start] {
            JUMP | JUMP_NOT_TRUTHY => {
                jumps += 1;
                assert!(starts.contains(&operand(code, start + 1)));
            }
            CONST => {
                assert_eq!(operand(code, start + 1), pushes);
                pushes += 1;
            }
            _ => {}
        }
    }
    assert_eq!(jumps, 10);
    assert_eq!(pushes, bytecode.constants.len());
    assert_eq!(integers(&bytecode.constants), vec![-1, 0, 2, 1, 3, 4, 5, 6, 7, 8, 9]);
}
