use bytecode_compiler::ast::{
    ArrayLiteral, Assignment, BlockStatement, BooleanLiteral, CallExpression, Expression,
    FloatLiteral, FunctionLiteral, Identifier, IfExpression, IndexExpression, InfixExpression,
    IntegerLiteral, Literal, Node, PrefixExpression, Program, ReturnStatement, Statement,
    StringLiteral,
};
use bytecode_compiler::token::Token;

fn integer(value: i64) -> Expression {
    Expression::Literal(Literal::Integer(IntegerLiteral {
        token: Token::new(&value.to_string()),
        value,
    }))
}

fn boolean(value: bool) -> Expression {
    Expression::Literal(Literal::Boolean(BooleanLiteral {
        token: Token::new(if value { "true" } else { "false" }),
        value,
    }))
}

fn identifier(name: &str) -> Identifier {
    Identifier { token: Token::new(name), value: name.to_string() }
}

fn name(name: &str) -> Expression {
    Expression::Identifier(identifier(name))
}

fn infix(left: Expression, operator: &str, right: Expression) -> Expression {
    Expression::Infix(InfixExpression {
        token: Token::new(operator),
        left: Box::new(left),
        operator: Token::new(operator),
        right: Box::new(right),
    })
}

fn prefix(operator: &str, right: Expression) -> Expression {
    Expression::Prefix(PrefixExpression {
        token: Token::new(operator),
        operator: Token::new(operator),
        right: Box::new(right),
    })
}

fn array(elements: Vec<Expression>) -> Expression {
    Expression::Literal(Literal::Array(ArrayLiteral { token: Token::new("["), elements }))
}

fn block(statements: Vec<Statement>) -> BlockStatement {
    BlockStatement { token: Token::new("{"), statements }
}

fn returning(value: Expression) -> Statement {
    Statement::Return(ReturnStatement { token: Token::new("return"), return_value: value })
}

#[test]
fn literals_as_text() {
    assert_eq!(integer(5).to_text(), "5");
    assert_eq!(integer(-17).to_text(), "-17");
    assert_eq!(integer(i64::MIN).to_text(), "-9223372036854775808");
    assert_eq!(boolean(true).to_text(), "true");
    assert_eq!(boolean(false).to_text(), "false");
    let string = Literal::String(StringLiteral {
        token: Token::new("\"hello world\""),
        value: "hello world".to_string(),
    });
    assert_eq!(string.to_text(), "hello world");
    let float = Literal::Float(FloatLiteral {
        token: Token::new("1.50"),
        bits: 0x3FF8_0000_0000_0000,
    });
    assert_eq!(float.to_text(), "1.50");
}

#[test]
fn arrays_as_text() {
    assert_eq!(array(vec![]).to_text(), "[]");
    assert_eq!(array(vec![integer(1)]).to_text(), "[1]");
    assert_eq!(
        array(vec![integer(1), infix(integer(2), "*", integer(3)), boolean(false)]).to_text(),
        "[1, (2 * 3), false]"
    );
}

#[test]
fn operators_stand_between_parentheses() {
    assert_eq!(infix(integer(1), "+", integer(2)).to_text(), "(1 + 2)");
    assert_eq!(prefix("-", name("a")).to_text(), "(-a)");
    assert_eq!(
        infix(prefix("!", boolean(true)), "==", infix(name("a"), "<", integer(3))).to_text(),
        "((!true) == (a < 3))"
    );
}

#[test]
fn index_and_call_as_text() {
    let index = Expression::Index(IndexExpression {
        token: Token::new("["),
        left: Box::new(name("items")),
        index: Box::new(infix(integer(1), "+", integer(1))),
    });
    assert_eq!(index.to_text(), "(items[(1 + 1)])");
    let call = Expression::Call(CallExpression {
        token: Token::new("("),
        function: Box::new(name("add")),
        arguments: vec![integer(1), infix(integer(2), "*", integer(3))],
    });
    assert_eq!(call.to_text(), "add(1, (2 * 3))");
    let call = Expression::Call(CallExpression {
        token: Token::new("("),
        function: Box::new(name("now")),
        arguments: vec![],
    });
    assert_eq!(call.to_text(), "now()");
}

#[test]
fn conditionals_as_text() {
    let without = Expression::If(IfExpression {
        token: Token::new("if"),
        condition: Box::new(infix(name("x"), ">", integer(5))),
        consequence: block(vec![Statement::Expr(integer(10))]),
        alternative: None,
    });
    assert_eq!(without.to_text(), "if (x > 5) {\n10\n\n}");
    let with = Expression::If(IfExpression {
        token: Token::new("if"),
        condition: Box::new(infix(name("x"), ">", integer(5))),
        consequence: block(vec![Statement::Expr(integer(10))]),
        alternative: Some(block(vec![Statement::Expr(integer(20)), returning(name("x"))])),
    });
    assert_eq!(with.to_text(), "if (x > 5) {\n10\n\n} else {\n20\nreturn x\n\n}");
}

#[test]
fn functions_as_text() {
    let function = Expression::Function(FunctionLiteral {
        token: Token::new("fn"),
        parameters: vec![identifier("a"), identifier("b")],
        body: block(vec![returning(infix(name("a"), "+", name("b")))]),
    });
    assert_eq!(function.to_text(), "fn(a, b) {\nreturn (a + b)\n\n}");
    let function = Expression::Function(FunctionLiteral {
        token: Token::new("fn"),
        parameters: vec![],
        body: block(vec![]),
    });
    assert_eq!(function.to_text(), "fn() {\n\n}");
}

#[test]
fn statements_as_text() {
    let assignment = Statement::Assign(Assignment {
        token: Token::new("let"),
        name: identifier("x"),
        value: infix(integer(1), "+", integer(2)),
    });
    assert_eq!(assignment.to_text(), "let x = (1 + 2)");
    assert_eq!(returning(integer(5)).to_text(), "return 5");
    assert_eq!(Statement::Expr(name("y")).to_text(), "y");
    assert_eq!(identifier("z").to_text(), "z");
}

#[test]
fn blocks_and_programs_as_text() {
    let statements = || vec![Statement::Expr(integer(1)), returning(integer(2))];
    assert_eq!(block(statements()).to_text(), "1\nreturn 2\n");
    assert_eq!(block(vec![]).to_text(), "");
    assert_eq!(Program { statements: statements() }.to_text(), "1return 2");
    assert_eq!(Program::default().to_text(), "");
    assert!(Program::default().statements.is_empty());
}

#[test]
fn compilation_units_as_text() {
    assert_eq!(Node::Expression(integer(3)).to_text(), "3");
    assert_eq!(Node::Statement(returning(integer(3))).to_text(), "return 3");
    assert_eq!(
        Node::Program(Program { statements: vec![Statement::Expr(integer(3))] }).to_text(),
        "3"
    );
}

#[test]
fn tokens() {
    let token = Token::new("==");
    assert_eq!(token.as_str(), "==");
    assert!(token.is("=="));
    assert!(!token.is("="));
    assert!(!token.is("==="));
    assert_eq!(token.clone(), token);
    assert_eq!(identifier("a").clone(), identifier("a"));
}
