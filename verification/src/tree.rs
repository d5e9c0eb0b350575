//! An open syntax tree: a node is a value of any type that implements
//! `Statement` or `Expression`, and a node holds its children behind those
//! traits. Every node can be shown as text, for a reader and for debugging.

use vstd::prelude::*;
use crate::text::{push_signed_decimal, signed_decimal};
use crate::token::Token;

verus! {

/// What every node of the tree offers.
pub trait Node {
    /// The text of the token that the node starts with.
    spec fn token_text(&self) -> Seq<char>;

    fn token_literal(&self) -> (literal: &str)
        ensures
            literal@ == self.token_text(),
    ;
}

/// A node that stands for a statement.
pub trait Statement {
    /// The text of the token that the statement starts with.
    spec fn token_text(&self) -> Seq<char>;

    /// The statement as a reader sees it where it stands in a list of
    /// statements.
    spec fn display_view(&self) -> Seq<char>;

    /// The statement as debugging output shows it where it stands for any
    /// statement: the kind of statement comes first.
    spec fn debug_view(&self) -> Seq<char>;

    fn statement_node(&self);

    fn token_literal(&self) -> (literal: &str)
        ensures
            literal@ == self.token_text(),
    ;

    fn display_text(&self) -> (text: String)
        ensures
            text@ == self.display_view(),
    ;

    fn debug_text(&self) -> (text: String)
        ensures
            text@ == self.debug_view(),
    ;
}

/// A node that stands for an expression.
pub trait Expression {
    /// The text of the token that the expression starts with.
    spec fn token_text(&self) -> Seq<char>;

    /// The expression as debugging output shows it where it stands for any
    /// expression.
    spec fn debug_view(&self) -> Seq<char>;

    fn expression_node(&self);

    fn token_literal(&self) -> (literal: &str)
        ensures
            literal@ == self.token_text(),
    ;

    fn debug_text(&self) -> (text: String)
        ensures
            text@ == self.debug_view(),
    ;
}

/// The display texts of statements, one after the other.
pub open spec fn statements_display(statements: Seq<Box<dyn Statement>>) -> Seq<char>
    decreases statements.len(),
{
    if statements.len() == 0 {
        Seq::empty()
    } else {
        statements_display(statements.drop_last()) + statements.last().display_view()
    }
}

/// Appends the display texts of statements, one after the other.
fn push_statements_display(out: &mut String, statements: &Vec<Box<dyn Statement>>)
    ensures
        final(out)@ == old(out)@ + statements_display(statements@),
{
    let mut i: usize = 0;
    while i < statements.len()
        invariant
            i <= statements.len(),
            out@ == old(out)@ + statements_display(statements@.take(i as int)),
        decreases statements.len() - i,
    {
        let shown = statements[i].display_text();
        out.append(shown.as_str());
        proof {
            let done = statements@.take(i as int);
            let next = statements@.take(i + 1);
            assert(next.drop_last() =~= done);
            assert(next.last() == statements@[i as int]);
            assert(out@ =~= old(out)@ + statements_display(next));
        }
        i += 1;
    }
    assert(statements@.take(statements.len() as int) =~= statements@);
}

/// A name.
pub struct Identifier {
    pub token: Token,
    pub value: String,
}

impl Identifier {
    /// The identifier as it is written: a dollar sign, then the name.
    pub open spec fn display_view(&self) -> Seq<char> {
        "$"@ + self.value@
    }

    /// The text as a reader sees it.
    pub fn to_text(&self) -> (text: String)
        ensures
            text@ == self.display_view(),
    {
        let mut text = String::from_str("$");
        text.append(self.value.as_str());
        text
    }
}

impl Node for Identifier {
    open spec fn token_text(&self) -> Seq<char> {
        self.token@
    }

    fn token_literal(&self) -> (literal: &str) {
        self.token.as_str()
    }
}

impl Expression for Identifier {
    open spec fn token_text(&self) -> Seq<char> {
        self.token@
    }

    open spec fn debug_view(&self) -> Seq<char> {
        self.value@
    }

    fn expression_node(&self) {
    }

    fn token_literal(&self) -> (literal: &str) {
        self.token.as_str()
    }

    fn debug_text(&self) -> (text: String) {
        self.value.clone()
    }
}

/// The written forms of identifiers, with a comma and a space between one
/// and the next.
pub open spec fn parameters_display(parameters: Seq<Identifier>) -> Seq<char>
    decreases parameters.len(),
{
    if parameters.len() == 0 {
        Seq::empty()
    } else if parameters.len() == 1 {
        parameters.last().display_view()
    } else {
        parameters_display(parameters.drop_last()) + ", "@ + parameters.last().display_view()
    }
}

/// Appends the written forms of identifiers, with a comma and a space
/// between one and the next.
fn push_parameters_display(out: &mut String, parameters: &Vec<Identifier>)
    ensures
        final(out)@ == old(out)@ + parameters_display(parameters@),
{
    let mut i: usize = 0;
    while i < parameters.len()
        invariant
            i <= parameters.len(),
            out@ == old(out)@ + parameters_display(parameters@.take(i as int)),
        decreases parameters.len() - i,
    {
        if i > 0 {
            out.append(", ");
        }
        let written = parameters[i].to_text();
        out.append(written.as_str());
        proof {
            let done = parameters@.take(i as int);
            let next = parameters@.take(i + 1);
            assert(next.drop_last() =~= done);
            assert(next.last() == parameters@[i as int]);
            assert(out@ =~= old(out)@ + parameters_display(next));
        }
        i += 1;
    }
    assert(parameters@.take(parameters.len() as int) =~= parameters@);
}

/// A boolean literal.
pub struct Boolean {
    pub token: Token,
    pub value: bool,
}

impl Boolean {
    /// The literal in debugging output: `true` or `false`.
    pub open spec fn own_debug_view(&self) -> Seq<char> {
        if self.value {
            "true"@
        } else {
            "false"@
        }
    }

    /// The text of debugging output.
    pub fn to_debug_text(&self) -> (text: String)
        ensures
            text@ == self.own_debug_view(),
    {
        if self.value {
            String::from_str("true")
        } else {
            String::from_str("false")
        }
    }
}

impl Node for Boolean {
    open spec fn token_text(&self) -> Seq<char> {
        self.token@
    }

    fn token_literal(&self) -> (literal: &str) {
        self.token.as_str()
    }
}

impl Expression for Boolean {
    open spec fn token_text(&self) -> Seq<char> {
        self.token@
    }

    open spec fn debug_view(&self) -> Seq<char> {
        self.own_debug_view()
    }

    fn expression_node(&self) {
    }

    fn token_literal(&self) -> (literal: &str) {
        self.token.as_str()
    }

    fn debug_text(&self) -> (text: String) {
        self.to_debug_text()
    }
}

/// A function literal: its parameters and its body.
pub struct FunctionLiteral {
    pub token: Token,
    pub parameters: Vec<Identifier>,
    pub body: Box<dyn Statement>,
}

impl FunctionLiteral {
    /// The literal in debugging output.
    pub open spec fn own_debug_view(&self) -> Seq<char> {
        self.token@ + "("@ + parameters_display(self.parameters@) + ") aa "@
            + self.body.debug_view()
    }

    /// The text of debugging output.
    pub fn to_debug_text(&self) -> (text: String)
        ensures
            text@ == self.own_debug_view(),
    {
        let mut text = String::new();
        text.append(self.token.as_str());
        text.append("(");
        push_parameters_display(&mut text, &self.parameters);
        text.append(") aa ");
        let body = self.body.debug_text();
        text.append(body.as_str());
        assert(text@ =~= self.own_debug_view());
        text
    }
}

impl Node for FunctionLiteral {
    open spec fn token_text(&self) -> Seq<char> {
        self.token@
    }

    fn token_literal(&self) -> (literal: &str) {
        self.token.as_str()
    }
}

impl Expression for FunctionLiteral {
    open spec fn token_text(&self) -> Seq<char> {
        self.token@
    }

    open spec fn debug_view(&self) -> Seq<char> {
        self.token@ + "("@ + parameters_display(self.parameters@) + ") "@ + self.body.debug_view()
    }

    fn expression_node(&self) {
    }

    fn token_literal(&self) -> (literal: &str) {
        self.token.as_str()
    }

    fn debug_text(&self) -> (text: String) {
        let mut text = String::new();
        text.append(self.token.as_str());
        text.append("(");
        push_parameters_display(&mut text, &self.parameters);
        text.append(") ");
        let body = self.body.debug_text();
        text.append(body.as_str());
        assert(text@ =~= Expression::debug_view(self));
        text
    }
}

/// An integer literal.
pub struct IntegerLiteral {
    pub token: Token,
    pub value: i64,
}

impl IntegerLiteral {
    /// The literal's value in decimal.
    pub open spec fn display_view(&self) -> Seq<char> {
        signed_decimal(self.value as int)
    }

    /// The text as a reader sees it.
    pub fn to_text(&self) -> (text: String)
        ensures
            text@ == self.display_view(),
    {
        let mut text = String::new();
        push_signed_decimal(&mut text, self.value);
        assert(text@ =~= self.display_view());
        text
    }
}

impl Node for IntegerLiteral {
    open spec fn token_text(&self) -> Seq<char> {
        self.token@
    }

    fn token_literal(&self) -> (literal: &str) {
        self.token.as_str()
    }
}

impl Expression for IntegerLiteral {
    open spec fn token_text(&self) -> Seq<char> {
        self.token@
    }

    open spec fn debug_view(&self) -> Seq<char> {
        self.display_view()
    }

    fn expression_node(&self) {
    }

    fn token_literal(&self) -> (literal: &str) {
        self.token.as_str()
    }

    fn debug_text(&self) -> (text: String) {
        self.to_text()
    }
}

/// A conditional.
pub struct IfExpression {
    pub token: Token,
    pub condition: Box<dyn Expression>,
    pub consequence: Box<dyn Statement>,
    pub alternative: Option<Box<dyn Statement>>,
}

impl IfExpression {
    /// The conditional in debugging output; an alternative that is not
    /// there is not shown.
    pub open spec fn own_debug_view(&self) -> Seq<char> {
        "if "@ + self.condition.debug_view() + " "@ + self.consequence.debug_view()
            + match self.alternative {
            Some(alternative) => " else "@ + alternative.debug_view(),
            None => Seq::empty(),
        }
    }

    /// The text of debugging output.
    pub fn to_debug_text(&self) -> (text: String)
        ensures
            text@ == self.own_debug_view(),
    {
        let mut text = String::from_str("if ");
        let condition = self.condition.debug_text();
        text.append(condition.as_str());
        text.append(" ");
        let consequence = self.consequence.debug_text();
        text.append(consequence.as_str());
        match &self.alternative {
            Some(alternative) => {
                text.append(" else ");
                let shown = alternative.debug_text();
                text.append(shown.as_str());
            },
            None => {},
        }
        assert(text@ =~= self.own_debug_view());
        text
    }
}

impl Node for IfExpression {
    open spec fn token_text(&self) -> Seq<char> {
        self.token@
    }

    fn token_literal(&self) -> (literal: &str) {
        self.token.as_str()
    }
}

impl Expression for IfExpression {
    open spec fn token_text(&self) -> Seq<char> {
        self.token@
    }

    open spec fn debug_view(&self) -> Seq<char> {
        "if "@ + self.condition.debug_view() + " "@ + self.consequence.debug_view() + " else "@
            + match self.alternative {
            Some(alternative) => "Some("@ + alternative.debug_view() + ")"@,
            None => "None"@,
        }
    }

    fn expression_node(&self) {
    }

    fn token_literal(&self) -> (literal: &str) {
        self.token.as_str()
    }

    fn debug_text(&self) -> (text: String) {
        let mut text = String::from_str("if ");
        let condition = self.condition.debug_text();
        text.append(condition.as_str());
        text.append(" ");
        let consequence = self.consequence.debug_text();
        text.append(consequence.as_str());
        text.append(" else ");
        match &self.alternative {
            Some(alternative) => {
                text.append("Some(");
                let shown = alternative.debug_text();
                text.append(shown.as_str());
                text.append(")");
            },
            None => {
                text.append("None");
            },
        }
        assert(text@ =~= Expression::debug_view(self));
        text
    }
}

/// An operator between two operands.
pub struct InfixExpression {
    pub token: Token,
    pub left: Box<dyn Expression>,
    pub operator: String,
    pub right: Box<dyn Expression>,
}

impl InfixExpression {
    /// The expression in debugging output, between parentheses.
    pub open spec fn own_debug_view(&self) -> Seq<char> {
        "("@ + self.left.debug_view() + " "@ + self.operator@ + " "@ + self.right.debug_view()
            + ")"@
    }

    /// The text of debugging output.
    pub fn to_debug_text(&self) -> (text: String)
        ensures
            text@ == self.own_debug_view(),
    {
        let mut text = String::from_str("(");
        let left = self.left.debug_text();
        text.append(left.as_str());
        text.append(" ");
        text.append(self.operator.as_str());
        text.append(" ");
        let right = self.right.debug_text();
        text.append(right.as_str());
        text.append(")");
        assert(text@ =~= self.own_debug_view());
        text
    }
}

impl Node for InfixExpression {
    open spec fn token_text(&self) -> Seq<char> {
        self.token@
    }

    fn token_literal(&self) -> (literal: &str) {
        self.token.as_str()
    }
}

impl Expression for InfixExpression {
    open spec fn token_text(&self) -> Seq<char> {
        self.token@
    }

    open spec fn debug_view(&self) -> Seq<char> {
        self.own_debug_view()
    }

    fn expression_node(&self) {
    }

    fn token_literal(&self) -> (literal: &str) {
        self.token.as_str()
    }

    fn debug_text(&self) -> (text: String) {
        self.to_debug_text()
    }
}

/// An operator in front of its operand.
pub struct PrefixExpression {
    pub token: Token,
    pub operator: String,
    pub right: Box<dyn Expression>,
}

impl PrefixExpression {
    /// The expression in debugging output, between parentheses.
    pub open spec fn own_debug_view(&self) -> Seq<char> {
        "("@ + self.operator@ + self.right.debug_view() + ")"@
    }

    /// The text of debugging output.
    pub fn to_debug_text(&self) -> (text: String)
        ensures
            text@ == self.own_debug_view(),
    {
        let mut text = String::from_str("(");
        text.append(self.operator.as_str());
        let right = self.right.debug_text();
        text.append(right.as_str());
        text.append(")");
        assert(text@ =~= self.own_debug_view());
        text
    }
}

impl Node for PrefixExpression {
    open spec fn token_text(&self) -> Seq<char> {
        self.token@
    }

    fn token_literal(&self) -> (literal: &str) {
        self.token.as_str()
    }
}

impl Expression for PrefixExpression {
    open spec fn token_text(&self) -> Seq<char> {
        self.token@
    }

    open spec fn debug_view(&self) -> Seq<char> {
        self.own_debug_view()
    }

    fn expression_node(&self) {
    }

    fn token_literal(&self) -> (literal: &str) {
        self.token.as_str()
    }

    fn debug_text(&self) -> (text: String) {
        self.to_debug_text()
    }
}

/// A braced sequence of statements.
pub struct BlockStatement {
    pub token: Token,
    pub statements: Vec<Box<dyn Statement>>,
}

impl BlockStatement {
    /// The block in debugging output: its statements as a reader sees them,
    /// one after the other.
    pub open spec fn own_debug_view(&self) -> Seq<char> {
        statements_display(self.statements@)
    }

    /// The text of debugging output.
    pub fn to_debug_text(&self) -> (text: String)
        ensures
            text@ == self.own_debug_view(),
    {
        let mut text = String::new();
        push_statements_display(&mut text, &self.statements);
        assert(text@ =~= self.own_debug_view());
        text
    }
}

impl Node for BlockStatement {
    open spec fn token_text(&self) -> Seq<char> {
        self.token@
    }

    fn token_literal(&self) -> (literal: &str) {
        self.token.as_str()
    }
}

impl Statement for BlockStatement {
    open spec fn token_text(&self) -> Seq<char> {
        self.token@
    }

    /// A block within a list of statements shows as nothing.
    open spec fn display_view(&self) -> Seq<char> {
        Seq::empty()
    }

    open spec fn debug_view(&self) -> Seq<char> {
        "Block: "@ + self.own_debug_view()
    }

    fn statement_node(&self) {
    }

    fn token_literal(&self) -> (literal: &str) {
        self.token.as_str()
    }

    fn display_text(&self) -> (text: String) {
        String::new()
    }

    fn debug_text(&self) -> (text: String) {
        let mut text = String::from_str("Block: ");
        let own = self.to_debug_text();
        text.append(own.as_str());
        text
    }
}

/// An expression that stands as a statement.
pub struct ExpressionStatement {
    pub token: Token,
    pub expression: Option<Box<dyn Expression>>,
}

impl ExpressionStatement {
    /// The statement in debugging output: its expression, if it has one.
    pub open spec fn own_debug_view(&self) -> Seq<char> {
        match self.expression {
            Some(expression) => expression.debug_view(),
            None => Seq::empty(),
        }
    }

    /// The text of debugging output.
    pub fn to_debug_text(&self) -> (text: String)
        ensures
            text@ == self.own_debug_view(),
    {
        match &self.expression {
            Some(expression) => expression.debug_text(),
            None => String::new(),
        }
    }
}

impl Node for ExpressionStatement {
    open spec fn token_text(&self) -> Seq<char> {
        self.token@
    }

    fn token_literal(&self) -> (literal: &str) {
        self.token.as_str()
    }
}

impl Statement for ExpressionStatement {
    open spec fn token_text(&self) -> Seq<char> {
        self.token@
    }

    open spec fn display_view(&self) -> Seq<char> {
        self.own_debug_view()
    }

    open spec fn debug_view(&self) -> Seq<char> {
        "Expression: "@ + self.own_debug_view()
    }

    fn statement_node(&self) {
    }

    fn token_literal(&self) -> (literal: &str) {
        self.token.as_str()
    }

    fn display_text(&self) -> (text: String) {
        self.to_debug_text()
    }

    fn debug_text(&self) -> (text: String) {
        let mut text = String::from_str("Expression: ");
        let own = self.to_debug_text();
        text.append(own.as_str());
        text
    }
}

/// A return statement.
pub struct ReturnStatement {
    pub token: Token,
    pub return_value: Option<Box<dyn Expression>>,
}

impl ReturnStatement {
    /// The statement in debugging output; nothing if it returns no value.
    pub open spec fn own_debug_view(&self) -> Seq<char> {
        match self.return_value {
            Some(value) => "return "@ + value.debug_view(),
            None => Seq::empty(),
        }
    }

    /// The text of debugging output.
    pub fn to_debug_text(&self) -> (text: String)
        ensures
            text@ == self.own_debug_view(),
    {
        match &self.return_value {
            Some(value) => {
                let mut text = String::from_str("return ");
                let shown = value.debug_text();
                text.append(shown.as_str());
                text
            },
            None => String::new(),
        }
    }
}

impl Node for ReturnStatement {
    open spec fn token_text(&self) -> Seq<char> {
        self.token@
    }

    fn token_literal(&self) -> (literal: &str) {
        self.token.as_str()
    }
}

impl Statement for ReturnStatement {
    open spec fn token_text(&self) -> Seq<char> {
        self.token@
    }

    open spec fn display_view(&self) -> Seq<char> {
        self.own_debug_view()
    }

    open spec fn debug_view(&self) -> Seq<char> {
        "Return: "@ + self.own_debug_view()
    }

    fn statement_node(&self) {
    }

    fn token_literal(&self) -> (literal: &str) {
        self.token.as_str()
    }

    fn display_text(&self) -> (text: String) {
        self.to_debug_text()
    }

    fn debug_text(&self) -> (text: String) {
        let mut text = String::from_str("Return: ");
        let own = self.to_debug_text();
        text.append(own.as_str());
        text
    }
}

/// An assignment to a variable, written `$name = value;`.
pub struct VariableAssignment {
    pub token: Token,
    pub name: String,
    pub value: Box<dyn Expression>,
}

impl VariableAssignment {
    /// The assignment in debugging output, as it is written.
    pub open spec fn own_debug_view(&self) -> Seq<char> {
        "$"@ + self.name@ + " = "@ + self.value.debug_view() + ";"@
    }

    /// The text of debugging output.
    pub fn to_debug_text(&self) -> (text: String)
        ensures
            text@ == self.own_debug_view(),
    {
        let mut text = String::from_str("$");
        text.append(self.name.as_str());
        text.append(" = ");
        let value = self.value.debug_text();
        text.append(value.as_str());
        text.append(";");
        assert(text@ =~= self.own_debug_view());
        text
    }
}

impl Node for VariableAssignment {
    open spec fn token_text(&self) -> Seq<char> {
        self.token@
    }

    fn token_literal(&self) -> (literal: &str) {
        self.token.as_str()
    }
}

impl Statement for VariableAssignment {
    open spec fn token_text(&self) -> Seq<char> {
        self.token@
    }

    open spec fn display_view(&self) -> Seq<char> {
        self.own_debug_view()
    }

    open spec fn debug_view(&self) -> Seq<char> {
        "Assignment: "@ + self.own_debug_view()
    }

    fn statement_node(&self) {
    }

    fn token_literal(&self) -> (literal: &str) {
        self.token.as_str()
    }

    fn display_text(&self) -> (text: String) {
        self.to_debug_text()
    }

    fn debug_text(&self) -> (text: String) {
        let mut text = String::from_str("Assignment: ");
        let own = self.to_debug_text();
        text.append(own.as_str());
        text
    }
}

/// A reference to a variable, written `$name`. It stands as an expression
/// and as a statement.
pub struct VariableReference {
    pub token: Token,
    pub name: String,
}

impl VariableReference {
    /// The reference in debugging output, as it is written.
    pub open spec fn own_debug_view(&self) -> Seq<char> {
        "$"@ + self.name@
    }

    /// The text of debugging output.
    pub fn to_debug_text(&self) -> (text: String)
        ensures
            text@ == self.own_debug_view(),
    {
        let mut text = String::from_str("$");
        text.append(self.name.as_str());
        text
    }
}

impl Node for VariableReference {
    open spec fn token_text(&self) -> Seq<char> {
        self.token@
    }

    fn token_literal(&self) -> (literal: &str) {
        self.token.as_str()
    }
}

impl Expression for VariableReference {
    open spec fn token_text(&self) -> Seq<char> {
        self.token@
    }

    /// Where a reference stands for any expression, debugging output shows
    /// its token.
    open spec fn debug_view(&self) -> Seq<char> {
        self.token@
    }

    fn expression_node(&self) {
    }

    fn token_literal(&self) -> (literal: &str) {
        self.token.as_str()
    }

    fn debug_text(&self) -> (text: String) {
        self.token.literal.clone()
    }
}

impl Statement for VariableReference {
    open spec fn token_text(&self) -> Seq<char> {
        self.token@
    }

    /// Within a list of statements a reference shows with a second dollar
    /// sign in front.
    open spec fn display_view(&self) -> Seq<char> {
        "$"@ + self.own_debug_view()
    }

    open spec fn debug_view(&self) -> Seq<char> {
        "Reference: "@ + self.own_debug_view()
    }

    fn statement_node(&self) {
    }

    fn token_literal(&self) -> (literal: &str) {
        self.token.as_str()
    }

    fn display_text(&self) -> (text: String) {
        let mut text = String::from_str("$");
        let own = self.to_debug_text();
        text.append(own.as_str());
        text
    }

    fn debug_text(&self) -> (text: String) {
        let mut text = String::from_str("Reference: ");
        let own = self.to_debug_text();
        text.append(own.as_str());
        text
    }
}

/// A whole program: its statements in source order.
pub struct Program {
    pub statements: Vec<Box<dyn Statement>>,
}

impl Program {
    /// The program as text: its statements as a reader sees them, one
    /// after the other. Debugging output shows the same.
    pub open spec fn display_view(&self) -> Seq<char> {
        statements_display(self.statements@)
    }

    /// The text as a reader sees it.
    pub fn to_text(&self) -> (text: String)
        ensures
            text@ == self.display_view(),
    {
        let mut text = String::new();
        push_statements_display(&mut text, &self.statements);
        assert(text@ =~= self.display_view());
        text
    }

    /// The text of debugging output.
    pub fn to_debug_text(&self) -> (text: String)
        ensures
            text@ == self.display_view(),
    {
        self.to_text()
    }
}

impl Default for Program {
    fn default() -> (program: Program)
        ensures
            program.statements@.len() == 0,
    {
        Program { statements: Vec::new() }
    }
}

impl Node for Program {
    /// A program starts with the token that its first statement starts
    /// with; an empty program has no token.
    open spec fn token_text(&self) -> Seq<char> {
        if self.statements@.len() > 0 {
            self.statements@[0].token_text()
        } else {
            ""@
        }
    }

    fn token_literal(&self) -> (literal: &str) {
        if self.statements.len() > 0 {
            self.statements[0].token_literal()
        } else {
            ""
        }
    }
}

} // verus!
