use std::rc::Rc;

use bytecode_compiler::ast::{
    BlockStatement, Expression, Identifier, IntegerLiteral, Literal, ReturnStatement, Statement,
};
use bytecode_compiler::object::Object;
use bytecode_compiler::token::Token;

#[test]
fn plain_values_as_text() {
    assert_eq!(Object::Integer(5).to_text(), "5");
    assert_eq!(Object::Integer(-5).to_text(), "-5");
    assert_eq!(Object::Integer(i64::MIN).to_text(), "-9223372036854775808");
    assert_eq!(Object::Boolean(true).to_text(), "true");
    assert_eq!(Object::Boolean(false).to_text(), "false");
    assert_eq!(Object::String("a b".to_string()).to_text(), "a b");
    assert_eq!(Object::Null.to_text(), "null");
}

#[test]
fn a_returned_value_shows_as_the_value() {
    let value = Object::Return(Rc::new(Object::Return(Rc::new(Object::Integer(7)))));
    assert_eq!(value.to_text(), "7");
}

#[test]
fn array_values_as_text() {
    assert_eq!(Object::Array(vec![]).to_text(), "[]");
    assert_eq!(Object::Array(vec![Rc::new(Object::Null)]).to_text(), "[null]");
    let inner = Rc::new(Object::Array(vec![
        Rc::new(Object::Integer(1)),
        Rc::new(Object::Boolean(false)),
    ]));
    let outer = Object::Array(vec![
        inner.clone(),
        Rc::new(Object::String("x".to_string())),
        inner,
    ]);
    assert_eq!(outer.to_text(), "[[1, false], x, [1, false]]");
}

#[test]
fn function_values_as_text() {
    let parameters = vec![
        Identifier { token: Token::new("a"), value: "a".to_string() },
        Identifier { token: Token::new("b"), value: "b".to_string() },
    ];
    let body = BlockStatement {
        token: Token::new("{"),
        statements: vec![Statement::Return(ReturnStatement {
            token: Token::new("return"),
            return_value: Expression::Literal(Literal::Integer(IntegerLiteral {
                token: Token::new("1"),
                value: 1,
            })),
        })],
    };
    assert_eq!(Object::Function(parameters, body).to_text(), "fn(a, b) {\nreturn 1\n\n}");
}
