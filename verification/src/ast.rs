//! The syntax tree that the compiler consumes: closed sets of statement and
//! expression variants.

use vstd::prelude::*;
use crate::token::Token;

verus! {

/// The three shapes a compilation unit can take.
#[derive(Debug, PartialEq)]
pub enum Node {
    Expression(Expression),
    Program(Program),
    Statement(Statement),
}

/// A literal value.
#[derive(Debug, PartialEq)]
pub enum Literal {
    Integer(IntegerLiteral),
    Float(FloatLiteral),
    Boolean(BooleanLiteral),
    String(StringLiteral),
    Array(ArrayLiteral),
}

/// An expression. The compiler lowers literals of integers and booleans,
/// prefix and infix operators, and conditionals.
#[derive(Debug, PartialEq)]
pub enum Expression {
    Identifier(Identifier),
    Literal(Literal),
    Infix(InfixExpression),
    Prefix(PrefixExpression),
    If(IfExpression),
    Function(FunctionLiteral),
    Call(CallExpression),
    Index(IndexExpression),
}

/// A statement. The compiler lowers expression statements and return
/// statements.
#[derive(Debug, PartialEq)]
pub enum Statement {
    Assign(Assignment),
    Expr(Expression),
    Return(ReturnStatement),
}

/// A whole program: its top-level statements in source order.
#[derive(Debug, PartialEq)]
pub struct Program {
    pub statements: Vec<Statement>,
}

impl Default for Program {
    fn default() -> (program: Program)
        ensures
            program.statements@.len() == 0,
    {
        Program { statements: Vec::new() }
    }
}

/// `true` or `false`.
#[derive(Debug, PartialEq)]
pub struct BooleanLiteral {
    pub token: Token,
    pub value: bool,
}

/// An integer literal with its value.
#[derive(Debug, PartialEq)]
pub struct IntegerLiteral {
    pub token: Token,
    pub value: i64,
}

/// A floating-point literal, held as the bit pattern of its IEEE 754
/// double-precision value.
#[derive(Debug, PartialEq)]
pub struct FloatLiteral {
    pub token: Token,
    pub bits: u64,
}

/// A string literal with its content.
#[derive(Debug, PartialEq)]
pub struct StringLiteral {
    pub token: Token,
    pub value: String,
}

/// An array literal with the expressions of its elements.
#[derive(Debug, PartialEq)]
pub struct ArrayLiteral {
    pub token: Token,
    pub elements: Vec<Expression>,
}

/// A function literal: its parameters and its body.
#[derive(Debug, PartialEq)]
pub struct FunctionLiteral {
    pub token: Token,
    pub parameters: Vec<Identifier>,
    pub body: BlockStatement,
}

/// A call: the expression that gives the function, and the arguments.
#[derive(Debug, PartialEq)]
pub struct CallExpression {
    pub token: Token,
    pub function: Box<Expression>,
    pub arguments: Vec<Expression>,
}

/// A name.
#[derive(Debug, PartialEq)]
pub struct Identifier {
    pub token: Token,
    pub value: String,
}

/// A conditional: a condition, the block to evaluate if it holds, and
/// possibly the block to evaluate if it does not.
#[derive(Debug, PartialEq)]
pub struct IfExpression {
    pub token: Token,
    pub condition: Box<Expression>,
    pub consequence: BlockStatement,
    pub alternative: Option<BlockStatement>,
}

/// An element of a collection: the collection and the index.
#[derive(Debug, PartialEq)]
pub struct IndexExpression {
    pub token: Token,
    pub left: Box<Expression>,
    pub index: Box<Expression>,
}

/// An operator between its two operands.
#[derive(Debug, PartialEq)]
pub struct InfixExpression {
    pub token: Token,
    pub left: Box<Expression>,
    pub operator: Token,
    pub right: Box<Expression>,
}

/// An operator in front of its operand.
#[derive(Debug, PartialEq)]
pub struct PrefixExpression {
    pub token: Token,
    pub operator: Token,
    pub right: Box<Expression>,
}

/// The binding of a value to a name.
#[derive(Debug, PartialEq)]
pub struct Assignment {
    pub token: Token,
    pub name: Identifier,
    pub value: Expression,
}

/// A braced sequence of statements.
#[derive(Debug, PartialEq)]
pub struct BlockStatement {
    pub token: Token,
    pub statements: Vec<Statement>,
}

/// A return statement with the expression of the value returned.
#[derive(Debug, PartialEq)]
pub struct ReturnStatement {
    pub token: Token,
    pub return_value: Expression,
}

/// Whether two expressions are the same tree: the same variants with the
/// same tokens and values, and the same children in the same order.
pub open spec fn same_expression(a: Expression, b: Expression) -> bool
    decreases a,
{
    match a {
        Expression::Identifier(x) => b matches Expression::Identifier(y) && x == y,
        Expression::Literal(x) => b matches Expression::Literal(y) && same_literal(x, y),
        Expression::Infix(x) => {
            &&& b matches Expression::Infix(y)
            &&& x.token == y.token
            &&& x.operator == y.operator
            &&& same_expression(*x.left, *y.left)
            &&& same_expression(*x.right, *y.right)
        },
        Expression::Prefix(x) => {
            &&& b matches Expression::Prefix(y)
            &&& x.token == y.token
            &&& x.operator == y.operator
            &&& same_expression(*x.right, *y.right)
        },
        Expression::If(x) => {
            &&& b matches Expression::If(y)
            &&& x.token == y.token
            &&& same_expression(*x.condition, *y.condition)
            &&& same_block(x.consequence, y.consequence)
            &&& match x.alternative {
                Some(p) => y.alternative matches Some(q) && same_block(p, q),
                None => y.alternative is None,
            }
        },
        Expression::Function(x) => {
            &&& b matches Expression::Function(y)
            &&& x.token == y.token
            &&& x.parameters@ == y.parameters@
            &&& same_block(x.body, y.body)
        },
        Expression::Call(x) => {
            &&& b matches Expression::Call(y)
            &&& x.token == y.token
            &&& same_expression(*x.function, *y.function)
            &&& same_expressions(x.arguments@, y.arguments@)
        },
        Expression::Index(x) => {
            &&& b matches Expression::Index(y)
            &&& x.token == y.token
            &&& same_expression(*x.left, *y.left)
            &&& same_expression(*x.index, *y.index)
        },
    }
}

/// Whether two literals are the same tree.
pub open spec fn same_literal(a: Literal, b: Literal) -> bool
    decreases a,
{
    match a {
        Literal::Array(x) => {
            &&& b matches Literal::Array(y)
            &&& x.token == y.token
            &&& same_expressions(x.elements@, y.elements@)
        },
        _ => a == b,
    }
}

/// Whether two lists hold the same expressions in the same order.
pub open spec fn same_expressions(a: Seq<Expression>, b: Seq<Expression>) -> bool
    decreases a,
{
    &&& a.len() == b.len()
    &&& a.len() > 0 ==> same_expressions(a.drop_last(), b.drop_last()) && same_expression(
        a.last(),
        b.last(),
    )
}

/// Whether two statements are the same tree.
pub open spec fn same_statement(a: Statement, b: Statement) -> bool
    decreases a,
{
    match a {
        Statement::Assign(x) => {
            &&& b matches Statement::Assign(y)
            &&& x.token == y.token
            &&& x.name == y.name
            &&& same_expression(x.value, y.value)
        },
        Statement::Expr(x) => b matches Statement::Expr(y) && same_expression(x, y),
        Statement::Return(x) => {
            &&& b matches Statement::Return(y)
            &&& x.token == y.token
            &&& same_expression(x.return_value, y.return_value)
        },
    }
}

/// Whether two lists hold the same statements in the same order.
pub open spec fn same_statements(a: Seq<Statement>, b: Seq<Statement>) -> bool
    decreases a,
{
    &&& a.len() == b.len()
    &&& a.len() > 0 ==> same_statements(a.drop_last(), b.drop_last()) && same_statement(
        a.last(),
        b.last(),
    )
}

/// Whether two blocks are the same tree.
pub open spec fn same_block(a: BlockStatement, b: BlockStatement) -> bool
    decreases a,
{
    a.token == b.token && same_statements(a.statements@, b.statements@)
}

/// Whether two compilation units are the same tree.
pub open spec fn same_node(a: Node, b: Node) -> bool {
    match a {
        Node::Expression(x) => b matches Node::Expression(y) && same_expression(x, y),
        Node::Program(x) => b matches Node::Program(y) && same_statements(
            x.statements@,
            y.statements@,
        ),
        Node::Statement(x) => b matches Node::Statement(y) && same_statement(x, y),
    }
}

/// A copy of an expression.
fn copy_expression(e: &Expression) -> (copy: Expression)
    ensures
        same_expression(copy, *e),
    decreases *e,
{
    match e {
        Expression::Identifier(identifier) => Expression::Identifier(identifier.clone()),
        Expression::Literal(literal) => Expression::Literal(copy_literal(literal)),
        Expression::Infix(infix) => Expression::Infix(
            InfixExpression {
                token: infix.token.clone(),
                left: Box::new(copy_expression(&infix.left)),
                operator: infix.operator.clone(),
                right: Box::new(copy_expression(&infix.right)),
            },
        ),
        Expression::Prefix(prefix) => Expression::Prefix(
            PrefixExpression {
                token: prefix.token.clone(),
                operator: prefix.operator.clone(),
                right: Box::new(copy_expression(&prefix.right)),
            },
        ),
        Expression::If(conditional) => Expression::If(
            IfExpression {
                token: conditional.token.clone(),
                condition: Box::new(copy_expression(&conditional.condition)),
                consequence: copy_block(&conditional.consequence),
                alternative: match &conditional.alternative {
                    Some(alternative) => Some(copy_block(alternative)),
                    None => None,
                },
            },
        ),
        Expression::Function(function) => Expression::Function(
            FunctionLiteral {
                token: function.token.clone(),
                parameters: copy_identifiers(&function.parameters),
                body: copy_block(&function.body),
            },
        ),
        Expression::Call(call) => Expression::Call(
            CallExpression {
                token: call.token.clone(),
                function: Box::new(copy_expression(&call.function)),
                arguments: copy_expressions(&call.arguments),
            },
        ),
        Expression::Index(index) => Expression::Index(
            IndexExpression {
                token: index.token.clone(),
                left: Box::new(copy_expression(&index.left)),
                index: Box::new(copy_expression(&index.index)),
            },
        ),
    }
}

/// A copy of a literal.
fn copy_literal(literal: &Literal) -> (copy: Literal)
    ensures
        same_literal(copy, *literal),
    decreases *literal,
{
    match literal {
        Literal::Integer(integer) => Literal::Integer(
            IntegerLiteral { token: integer.token.clone(), value: integer.value },
        ),
        Literal::Float(float) => Literal::Float(
            FloatLiteral { token: float.token.clone(), bits: float.bits },
        ),
        Literal::Boolean(boolean) => Literal::Boolean(
            BooleanLiteral { token: boolean.token.clone(), value: boolean.value },
        ),
        Literal::String(string) => Literal::String(
            StringLiteral { token: string.token.clone(), value: string.value.clone() },
        ),
        Literal::Array(array) => Literal::Array(
            ArrayLiteral {
                token: array.token.clone(),
                elements: copy_expressions(&array.elements),
            },
        ),
    }
}

/// Copies of expressions, in the same order.
fn copy_expressions(expressions: &Vec<Expression>) -> (copies: Vec<Expression>)
    ensures
        same_expressions(copies@, expressions@),
    decreases *expressions,
{
    let mut copies: Vec<Expression> = Vec::new();
    let mut i: usize = 0;
    while i < expressions.len()
        invariant
            i <= expressions.len(),
            same_expressions(copies@, expressions@.take(i as int)),
        decreases expressions.len() - i,
    {
        let ghost so_far = copies@;
        copies.push(copy_expression(&expressions[i]));
        proof {
            let next = expressions@.take(i + 1);
            assert(next.drop_last() =~= expressions@.take(i as int));
            assert(copies@.drop_last() =~= so_far);
        }
        i += 1;
    }
    assert(expressions@.take(expressions.len() as int) =~= expressions@);
    copies
}

/// Copies of identifiers, in the same order.
pub fn copy_identifiers(identifiers: &Vec<Identifier>) -> (copies: Vec<Identifier>)
    ensures
        copies@ == identifiers@,
{
    let mut copies: Vec<Identifier> = Vec::new();
    let mut i: usize = 0;
    while i < identifiers.len()
        invariant
            i <= identifiers.len(),
            copies@ == identifiers@.take(i as int),
        decreases identifiers.len() - i,
    {
        copies.push(identifiers[i].clone());
        assert(identifiers@.take(i + 1) =~= identifiers@.take(i as int).push(
            identifiers@[i as int],
        ));
        i += 1;
    }
    assert(identifiers@.take(identifiers.len() as int) =~= identifiers@);
    copies
}

/// A copy of a statement.
fn copy_statement(s: &Statement) -> (copy: Statement)
    ensures
        same_statement(copy, *s),
    decreases *s,
{
    match s {
        Statement::Assign(assignment) => Statement::Assign(
            Assignment {
                token: assignment.token.clone(),
                name: assignment.name.clone(),
                value: copy_expression(&assignment.value),
            },
        ),
        Statement::Expr(e) => Statement::Expr(copy_expression(e)),
        Statement::Return(r) => Statement::Return(
            ReturnStatement {
                token: r.token.clone(),
                return_value: copy_expression(&r.return_value),
            },
        ),
    }
}

/// Copies of statements, in the same order.
fn copy_statements(statements: &Vec<Statement>) -> (copies: Vec<Statement>)
    ensures
        same_statements(copies@, statements@),
    decreases *statements,
{
    let mut copies: Vec<Statement> = Vec::new();
    let mut i: usize = 0;
    while i < statements.len()
        invariant
            i <= statements.len(),
            same_statements(copies@, statements@.take(i as int)),
        decreases statements.len() - i,
    {
        let ghost so_far = copies@;
        copies.push(copy_statement(&statements[i]));
        proof {
            let next = statements@.take(i + 1);
            assert(next.drop_last() =~= statements@.take(i as int));
            assert(copies@.drop_last() =~= so_far);
        }
        i += 1;
    }
    assert(statements@.take(statements.len() as int) =~= statements@);
    copies
}

/// A copy of a block.
fn copy_block(block: &BlockStatement) -> (copy: BlockStatement)
    ensures
        same_block(copy, *block),
    decreases *block,
{
    BlockStatement { token: block.token.clone(), statements: copy_statements(&block.statements) }
}

impl Clone for Identifier {
    fn clone(&self) -> (copy: Identifier)
        ensures
            copy == *self,
    {
        Identifier { token: self.token.clone(), value: self.value.clone() }
    }
}

impl Clone for Literal {
    fn clone(&self) -> (copy: Literal)
        ensures
            same_literal(copy, *self),
    {
        copy_literal(self)
    }
}

impl Clone for Expression {
    fn clone(&self) -> (copy: Expression)
        ensures
            same_expression(copy, *self),
    {
        copy_expression(self)
    }
}

impl Clone for Statement {
    fn clone(&self) -> (copy: Statement)
        ensures
            same_statement(copy, *self),
    {
        copy_statement(self)
    }
}

impl Clone for BlockStatement {
    fn clone(&self) -> (copy: BlockStatement)
        ensures
            same_block(copy, *self),
    {
        copy_block(self)
    }
}

impl Clone for Program {
    fn clone(&self) -> (copy: Program)
        ensures
            same_statements(copy.statements@, self.statements@),
    {
        Program { statements: copy_statements(&self.statements) }
    }
}

impl Clone for Node {
    fn clone(&self) -> (copy: Node)
        ensures
            same_node(copy, *self),
    {
        match self {
            Node::Expression(e) => Node::Expression(copy_expression(e)),
            Node::Program(p) => Node::Program(p.clone()),
            Node::Statement(s) => Node::Statement(copy_statement(s)),
        }
    }
}

impl Clone for BooleanLiteral {
    fn clone(&self) -> (copy: BooleanLiteral)
        ensures
            copy == *self,
    {
        BooleanLiteral { token: self.token.clone(), value: self.value }
    }
}

impl Clone for IntegerLiteral {
    fn clone(&self) -> (copy: IntegerLiteral)
        ensures
            copy == *self,
    {
        IntegerLiteral { token: self.token.clone(), value: self.value }
    }
}

impl Clone for FloatLiteral {
    fn clone(&self) -> (copy: FloatLiteral)
        ensures
            copy == *self,
    {
        FloatLiteral { token: self.token.clone(), bits: self.bits }
    }
}

impl Clone for StringLiteral {
    fn clone(&self) -> (copy: StringLiteral)
        ensures
            copy == *self,
    {
        StringLiteral { token: self.token.clone(), value: self.value.clone() }
    }
}

impl Clone for ArrayLiteral {
    fn clone(&self) -> (copy: ArrayLiteral)
        ensures
            copy.token == self.token,
            same_expressions(copy.elements@, self.elements@),
    {
        ArrayLiteral { token: self.token.clone(), elements: copy_expressions(&self.elements) }
    }
}

impl Clone for FunctionLiteral {
    fn clone(&self) -> (copy: FunctionLiteral)
        ensures
            same_expression(Expression::Function(copy), Expression::Function(*self)),
    {
        FunctionLiteral {
            token: self.token.clone(),
            parameters: copy_identifiers(&self.parameters),
            body: copy_block(&self.body),
        }
    }
}

impl Clone for CallExpression {
    fn clone(&self) -> (copy: CallExpression)
        ensures
            same_expression(Expression::Call(copy), Expression::Call(*self)),
    {
        CallExpression {
            token: self.token.clone(),
            function: Box::new(copy_expression(&self.function)),
            arguments: copy_expressions(&self.arguments),
        }
    }
}

impl Clone for IfExpression {
    fn clone(&self) -> (copy: IfExpression)
        ensures
            same_expression(Expression::If(copy), Expression::If(*self)),
    {
        IfExpression {
            token: self.token.clone(),
            condition: Box::new(copy_expression(&self.condition)),
            consequence: copy_block(&self.consequence),
            alternative: match &self.alternative {
                Some(alternative) => Some(copy_block(alternative)),
                None => None,
            },
        }
    }
}

impl Clone for IndexExpression {
    fn clone(&self) -> (copy: IndexExpression)
        ensures
            same_expression(Expression::Index(copy), Expression::Index(*self)),
    {
        IndexExpression {
            token: self.token.clone(),
            left: Box::new(copy_expression(&self.left)),
            index: Box::new(copy_expression(&self.index)),
        }
    }
}

impl Clone for InfixExpression {
    fn clone(&self) -> (copy: InfixExpression)
        ensures
            same_expression(Expression::Infix(copy), Expression::Infix(*self)),
    {
        InfixExpression {
            token: self.token.clone(),
            left: Box::new(copy_expression(&self.left)),
            operator: self.operator.clone(),
            right: Box::new(copy_expression(&self.right)),
        }
    }
}

impl Clone for PrefixExpression {
    fn clone(&self) -> (copy: PrefixExpression)
        ensures
            same_expression(Expression::Prefix(copy), Expression::Prefix(*self)),
    {
        PrefixExpression {
            token: self.token.clone(),
            operator: self.operator.clone(),
            right: Box::new(copy_expression(&self.right)),
        }
    }
}

impl Clone for Assignment {
    fn clone(&self) -> (copy: Assignment)
        ensures
            same_statement(Statement::Assign(copy), Statement::Assign(*self)),
    {
        Assignment {
            token: self.token.clone(),
            name: self.name.clone(),
            value: copy_expression(&self.value),
        }
    }
}

impl Clone for ReturnStatement {
    fn clone(&self) -> (copy: ReturnStatement)
        ensures
            same_statement(Statement::Return(copy), Statement::Return(*self)),
    {
        ReturnStatement {
            token: self.token.clone(),
            return_value: copy_expression(&self.return_value),
        }
    }
}

} // verus!
