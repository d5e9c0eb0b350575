use std::rc::Rc;

use bytecode_compiler::ast::{
    ArrayLiteral, Assignment, BlockStatement, BooleanLiteral, CallExpression, Expression,
    FloatLiteral, FunctionLiteral, Identifier, IfExpression, IndexExpression, InfixExpression,
    IntegerLiteral, Literal, Node, PrefixExpression, Program, ReturnStatement, Statement,
    StringLiteral,
};
use bytecode_compiler::compiler::Compiler;
use bytecode_compiler::object::Object;
use bytecode_compiler::token::Token;

fn integer(value: i64) -> Expression {
    Expression::Literal(Literal::Integer(IntegerLiteral {
        token: Token::new(&value.to_string()),
        value,
    }))
}

fn name(name: &str) -> Expression {
    Expression::Identifier(Identifier { token: Token::new(name), value: name.to_string() })
}

fn infix(left: Expression, operator: &str, right: Expression) -> Expression {
    Expression::Infix(InfixExpression {
        token: Token::new(operator),
        left: Box::new(left),
        operator: Token::new(operator),
        right: Box::new(right),
    })
}

fn block(statements: Vec<Statement>) -> BlockStatement {
    BlockStatement { token: Token::new("{"), statements }
}

fn every_variant() -> Vec<Statement> {
    vec![
        Statement::Assign(Assignment {
            token: Token::new("let"),
            name: Identifier { token: Token::new("x"), value: "x".to_string() },
            value: integer(1),
        }),
        Statement::Return(ReturnStatement { token: Token::new("return"), return_value: name("x") }),
        Statement::Expr(Expression::Literal(Literal::Boolean(BooleanLiteral {
            token: Token::new("true"),
            value: true,
        }))),
        Statement::Expr(Expression::Literal(Literal::Float(FloatLiteral {
            token: Token::new("2.5"),
            bits: 0x4004_0000_0000_0000,
        }))),
        Statement::Expr(Expression::Literal(Literal::String(StringLiteral {
            token: Token::new("\"s\""),
            value: "s".to_string(),
        }))),
        Statement::Expr(Expression::Literal(Literal::Array(ArrayLiteral {
            token: Token::new("["),
            elements: vec![integer(1), name("y"), infix(integer(2), "+", integer(3))],
        }))),
        Statement::Expr(Expression::Prefix(PrefixExpression {
            token: Token::new("!"),
            operator: Token::new("!"),
            right: Box::new(name("z")),
        })),
        Statement::Expr(Expression::If(IfExpression {
            token: Token::new("if"),
            condition: Box::new(infix(name("a"), "<", integer(4))),
            consequence: block(vec![Statement::Expr(integer(5))]),
            alternative: Some(block(vec![Statement::Expr(integer(6)), Statement::Expr(name("b"))])),
        })),
        Statement::Expr(Expression::If(IfExpression {
            token: Token::new("if"),
            condition: Box::new(name("c")),
            consequence: block(vec![]),
            alternative: None,
        })),
        Statement::Expr(Expression::Function(FunctionLiteral {
            token: Token::new("fn"),
            parameters: vec![
                Identifier { token: Token::new("p"), value: "p".to_string() },
                Identifier { token: Token::new("q"), value: "q".to_string() },
            ],
            body: block(vec![Statement::Expr(infix(name("p"), "*", name("q")))]),
        })),
        Statement::Expr(Expression::Call(CallExpression {
            token: Token::new("("),
            function: Box::new(name("f")),
            arguments: vec![integer(7), name("g")],
        })),
        Statement::Expr(Expression::Index(IndexExpression {
            token: Token::new("["),
            left: Box::new(name("h")),
            index: Box::new(integer(8)),
        })),
    ]
}

#[test]
fn a_copy_of_a_statement_equals_the_statement() {
    for statement in every_variant() {
        let copy = statement.clone();
        assert_eq!(copy, statement);
        assert_eq!(copy.to_text(), statement.to_text());
    }
}

#[test]
fn a_copy_of_an_expression_equals_the_expression() {
    for statement in every_variant() {
        if let Statement::Expr(expression) = statement {
            assert_eq!(expression.clone(), expression);
            if let Expression::Literal(literal) = &expression {
                assert_eq!(literal.clone(), *literal);
            }
        }
    }
}

#[test]
fn a_copy_of_a_block_or_a_program_equals_it() {
    let block = block(every_variant());
    assert_eq!(block.clone(), block);
    let program = Program { statements: every_variant() };
    assert_eq!(program.clone(), program);
    let node = Node::Program(Program { statements: every_variant() });
    assert_eq!(node.clone(), node);
    let node = Node::Statement(every_variant().remove(7));
    assert_eq!(node.clone(), node);
    let node = Node::Expression(infix(integer(1), "-", integer(2)));
    assert_eq!(node.clone(), node);
}

#[test]
fn copies_of_the_parts_equal_the_parts() {
    let infix = InfixExpression {
        token: Token::new("+"),
        left: Box::new(integer(1)),
        operator: Token::new("+"),
        right: Box::new(name("a")),
    };
    assert_eq!(infix.clone(), infix);
    let prefix = PrefixExpression {
        token: Token::new("-"),
        operator: Token::new("-"),
        right: Box::new(integer(1)),
    };
    assert_eq!(prefix.clone(), prefix);
    let conditional = IfExpression {
        token: Token::new("if"),
        condition: Box::new(name("c")),
        consequence: block(vec![Statement::Expr(integer(1))]),
        alternative: Some(block(vec![])),
    };
    assert_eq!(conditional.clone(), conditional);
    let index = IndexExpression {
        token: Token::new("["),
        left: Box::new(name("h")),
        index: Box::new(integer(8)),
    };
    assert_eq!(index.clone(), index);
    let call = CallExpression {
        token: Token::new("("),
        function: Box::new(name("f")),
        arguments: vec![integer(7)],
    };
    assert_eq!(call.clone(), call);
    let function = FunctionLiteral {
        token: Token::new("fn"),
        parameters: vec![Identifier { token: Token::new("p"), value: "p".to_string() }],
        body: block(vec![Statement::Expr(name("p"))]),
    };
    assert_eq!(function.clone(), function);
    let array = ArrayLiteral { token: Token::new("["), elements: vec![integer(1), integer(2)] };
    assert_eq!(array.clone(), array);
    let assignment = Assignment {
        token: Token::new("let"),
        name: Identifier { token: Token::new("x"), value: "x".to_string() },
        value: integer(1),
    };
    assert_eq!(assignment.clone(), assignment);
    let returning = ReturnStatement { token: Token::new("return"), return_value: integer(1) };
    assert_eq!(returning.clone(), returning);
    let integer = IntegerLiteral { token: Token::new("1"), value: 1 };
    assert_eq!(integer.clone(), integer);
    let boolean = BooleanLiteral { token: Token::new("true"), value: true };
    assert_eq!(boolean.clone(), boolean);
    let float = FloatLiteral { token: Token::new("1.5"), bits: 0x3FF8_0000_0000_0000 };
    assert_eq!(float.clone(), float);
    let string = StringLiteral { token: Token::new("\"s\""), value: "s".to_string() };
    assert_eq!(string.clone(), string);
}

#[test]
fn a_copy_compiles_as_the_tree_does() {
    let node = Node::Program(Program {
        statements: vec![
            Statement::Expr(Expression::If(IfExpression {
                token: Token::new("if"),
                condition: Box::new(infix(integer(1), "<", integer(4))),
                consequence: block(vec![Statement::Expr(integer(5))]),
                alternative: Some(block(vec![Statement::Expr(integer(6))])),
            })),
            Statement::Return(ReturnStatement {
                token: Token::new("return"),
                return_value: infix(integer(7), "==", integer(8)),
            }),
        ],
    });
    let copy = node.clone();
    assert_eq!(Compiler::new().compile(&copy), Compiler::new().compile(&node));
    let node = Node::Program(Program { statements: every_variant() });
    let copy = node.clone();
    assert_eq!(Compiler::new().compile(&copy), Compiler::new().compile(&node));
    assert!(Compiler::new().compile(&copy).is_err());
}

#[test]
fn a_copy_of_a_value_equals_the_value() {
    let shared = Rc::new(Object::Integer(3));
    let values = vec![
        Object::Integer(-1),
        Object::Boolean(true),
        Object::String("s".to_string()),
        Object::Null,
        Object::Return(shared.clone()),
        Object::Array(vec![shared.clone(), Rc::new(Object::Null)]),
        Object::Function(
            vec![Identifier { token: Token::new("p"), value: "p".to_string() }],
            block(vec![Statement::Expr(name("p"))]),
        ),
    ];
    for value in values {
        let copy = value.clone();
        assert_eq!(copy, value);
        assert_eq!(copy.to_text(), value.to_text());
    }
}

#[test]
fn a_copy_of_an_array_shares_its_elements() {
    let element = Rc::new(Object::Integer(3));
    let array = Object::Array(vec![element.clone()]);
    let copy = array.clone();
    assert_eq!(Rc::strong_count(&element), 3);
    match (&array, &copy) {
        (Object::Array(elements), Object::Array(copies)) => {
            assert!(Rc::ptr_eq(&elements[0], &copies[0]));
        }
        _ => panic!("not arrays"),
    }
    let returned = Object::Return(element.clone());
    let copy = returned.clone();
    assert_eq!(Rc::strong_count(&element), 5);
    assert_eq!(copy, returned);
}
