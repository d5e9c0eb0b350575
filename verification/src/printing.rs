//! Syntax trees as source-like text.

use vstd::prelude::*;
use crate::ast::{
    BlockStatement, Expression, Identifier, Literal, Node, Program, Statement,
};
use crate::text::{push_signed_decimal, signed_decimal};

verus! {

/// The text of a literal. A float literal is shown as it was written.
pub open spec fn literal_text(literal: Literal) -> Seq<char>
    decreases literal,
{
    match literal {
        Literal::Integer(integer) => signed_decimal(integer.value as int),
        Literal::Boolean(boolean) => if boolean.value {
            "true"@
        } else {
            "false"@
        },
        Literal::String(string) => string.value@,
        Literal::Float(float) => float.token@,
        Literal::Array(array) => "["@ + expressions_text(array.elements@) + "]"@,
    }
}

/// The texts of expressions, with a comma and a space between one and the
/// next.
pub open spec fn expressions_text(expressions: Seq<Expression>) -> Seq<char>
    decreases expressions,
{
    if expressions.len() == 0 {
        Seq::empty()
    } else if expressions.len() == 1 {
        expression_text(expressions.last())
    } else {
        expressions_text(expressions.drop_last()) + ", "@ + expression_text(expressions.last())
    }
}

/// The names of identifiers, with a comma and a space between one and the
/// next.
pub open spec fn identifiers_text(identifiers: Seq<Identifier>) -> Seq<char>
    decreases identifiers.len(),
{
    if identifiers.len() == 0 {
        Seq::empty()
    } else if identifiers.len() == 1 {
        identifiers.last().value@
    } else {
        identifiers_text(identifiers.drop_last()) + ", "@ + identifiers.last().value@
    }
}

/// The text of an expression. Operators stand between parentheses with
/// their operands, so that the text shows how the expression was parsed.
pub open spec fn expression_text(e: Expression) -> Seq<char>
    decreases e,
{
    match e {
        Expression::Identifier(identifier) => identifier.value@,
        Expression::Literal(literal) => literal_text(literal),
        Expression::Index(index) => "("@ + expression_text(*index.left) + "["@ + expression_text(
            *index.index,
        ) + "])"@,
        Expression::Infix(infix) => "("@ + expression_text(*infix.left) + " "@ + infix.operator@
            + " "@ + expression_text(*infix.right) + ")"@,
        Expression::Prefix(prefix) => "("@ + prefix.operator@ + expression_text(*prefix.right)
            + ")"@,
        Expression::If(conditional) => "if "@ + expression_text(*conditional.condition) + " {\n"@
            + block_text(conditional.consequence.statements@) + "\n}"@
            + match conditional.alternative {
            Some(alternative) => " else {\n"@ + block_text(alternative.statements@) + "\n}"@,
            None => Seq::empty(),
        },
        Expression::Function(function) => "fn("@ + identifiers_text(function.parameters@)
            + ") {\n"@ + block_text(function.body.statements@) + "\n}"@,
        Expression::Call(call) => expression_text(*call.function) + "("@ + expressions_text(
            call.arguments@,
        ) + ")"@,
    }
}

/// The text of a statement.
pub open spec fn statement_text(s: Statement) -> Seq<char>
    decreases s,
{
    match s {
        Statement::Assign(assignment) => assignment.token@ + " "@ + assignment.name.value@
            + " = "@ + expression_text(assignment.value),
        Statement::Expr(e) => expression_text(e),
        Statement::Return(r) => r.token@ + " "@ + expression_text(r.return_value),
    }
}

/// The texts of the statements of a block, each followed by a line feed.
pub open spec fn block_text(statements: Seq<Statement>) -> Seq<char>
    decreases statements,
{
    if statements.len() == 0 {
        Seq::empty()
    } else {
        block_text(statements.drop_last()) + statement_text(statements.last()) + "\n"@
    }
}

/// The texts of the statements of a program, one after the other.
pub open spec fn program_text(statements: Seq<Statement>) -> Seq<char>
    decreases statements,
{
    if statements.len() == 0 {
        Seq::empty()
    } else {
        program_text(statements.drop_last()) + statement_text(statements.last())
    }
}

/// The text of a compilation unit.
pub open spec fn node_text(node: Node) -> Seq<char> {
    match node {
        Node::Expression(e) => expression_text(e),
        Node::Program(p) => program_text(p.statements@),
        Node::Statement(s) => statement_text(s),
    }
}

/// Appends the text of a literal.
fn push_literal(out: &mut String, literal: &Literal)
    ensures
        final(out)@ == old(out)@ + literal_text(*literal),
    decreases *literal,
{
    match literal {
        Literal::Integer(integer) => {
            push_signed_decimal(out, integer.value);
        },
        Literal::Boolean(boolean) => {
            if boolean.value {
                out.append("true");
            } else {
                out.append("false");
            }
        },
        Literal::String(string) => {
            out.append(string.value.as_str());
        },
        Literal::Float(float) => {
            out.append(float.token.as_str());
        },
        Literal::Array(array) => {
            out.append("[");
            push_expressions(out, &array.elements);
            out.append("]");
            assert(out@ =~= old(out)@ + literal_text(*literal));
        },
    }
}

/// Appends the texts of expressions, with a comma and a space between one
/// and the next.
fn push_expressions(out: &mut String, expressions: &Vec<Expression>)
    ensures
        final(out)@ == old(out)@ + expressions_text(expressions@),
    decreases *expressions,
{
    let mut i: usize = 0;
    while i < expressions.len()
        invariant
            i <= expressions.len(),
            out@ == old(out)@ + expressions_text(expressions@.take(i as int)),
        decreases expressions.len() - i,
    {
        if i > 0 {
            out.append(", ");
        }
        push_expression(out, &expressions[i]);
        proof {
            let done = expressions@.take(i as int);
            let next = expressions@.take(i + 1);
            assert(next.drop_last() =~= done);
            assert(next.last() == expressions@[i as int]);
            assert(out@ =~= old(out)@ + expressions_text(next));
        }
        i += 1;
    }
    assert(expressions@.take(expressions.len() as int) =~= expressions@);
}

/// Appends the names of identifiers, with a comma and a space between one
/// and the next.
pub fn push_identifiers(out: &mut String, identifiers: &Vec<Identifier>)
    ensures
        final(out)@ == old(out)@ + identifiers_text(identifiers@),
{
    let mut i: usize = 0;
    while i < identifiers.len()
        invariant
            i <= identifiers.len(),
            out@ == old(out)@ + identifiers_text(identifiers@.take(i as int)),
        decreases identifiers.len() - i,
    {
        if i > 0 {
            out.append(", ");
        }
        out.append(identifiers[i].value.as_str());
        proof {
            let done = identifiers@.take(i as int);
            let next = identifiers@.take(i + 1);
            assert(next.drop_last() =~= done);
            assert(next.last() == identifiers@[i as int]);
            assert(out@ =~= old(out)@ + identifiers_text(next));
        }
        i += 1;
    }
    assert(identifiers@.take(identifiers.len() as int) =~= identifiers@);
}

/// Appends the text of an expression.
fn push_expression(out: &mut String, e: &Expression)
    ensures
        final(out)@ == old(out)@ + expression_text(*e),
    decreases *e,
{
    match e {
        Expression::Identifier(identifier) => {
            out.append(identifier.value.as_str());
        },
        Expression::Literal(literal) => {
            push_literal(out, literal);
        },
        Expression::Index(index) => {
            out.append("(");
            push_expression(out, &index.left);
            out.append("[");
            push_expression(out, &index.index);
            out.append("])");
            assert(out@ =~= old(out)@ + expression_text(*e));
        },
        Expression::Infix(infix) => {
            out.append("(");
            push_expression(out, &infix.left);
            out.append(" ");
            out.append(infix.operator.as_str());
            out.append(" ");
            push_expression(out, &infix.right);
            out.append(")");
            assert(out@ =~= old(out)@ + expression_text(*e));
        },
        Expression::Prefix(prefix) => {
            out.append("(");
            out.append(prefix.operator.as_str());
            push_expression(out, &prefix.right);
            out.append(")");
            assert(out@ =~= old(out)@ + expression_text(*e));
        },
        Expression::If(conditional) => {
            out.append("if ");
            push_expression(out, &conditional.condition);
            out.append(" {\n");
            push_block(out, &conditional.consequence);
            out.append("\n}");
            match &conditional.alternative {
                Some(alternative) => {
                    out.append(" else {\n");
                    push_block(out, alternative);
                    out.append("\n}");
                },
                None => {},
            }
            assert(out@ =~= old(out)@ + expression_text(*e));
        },
        Expression::Function(function) => {
            out.append("fn(");
            push_identifiers(out, &function.parameters);
            out.append(") {\n");
            push_block(out, &function.body);
            out.append("\n}");
            assert(out@ =~= old(out)@ + expression_text(*e));
        },
        Expression::Call(call) => {
            push_expression(out, &call.function);
            out.append("(");
            push_expressions(out, &call.arguments);
            out.append(")");
            assert(out@ =~= old(out)@ + expression_text(*e));
        },
    }
}

/// Appends the text of a statement.
fn push_statement(out: &mut String, s: &Statement)
    ensures
        final(out)@ == old(out)@ + statement_text(*s),
    decreases *s,
{
    match s {
        Statement::Assign(assignment) => {
            out.append(assignment.token.as_str());
            out.append(" ");
            out.append(assignment.name.value.as_str());
            out.append(" = ");
            push_expression(out, &assignment.value);
            assert(out@ =~= old(out)@ + statement_text(*s));
        },
        Statement::Expr(e) => {
            push_expression(out, e);
        },
        Statement::Return(r) => {
            out.append(r.token.as_str());
            out.append(" ");
            push_expression(out, &r.return_value);
            assert(out@ =~= old(out)@ + statement_text(*s));
        },
    }
}

/// Appends the texts of the statements of a block, each followed by a line
/// feed.
pub fn push_block(out: &mut String, block: &BlockStatement)
    ensures
        final(out)@ == old(out)@ + block_text(block.statements@),
    decreases *block,
{
    let statements = &block.statements;
    let mut i: usize = 0;
    while i < statements.len()
        invariant
            i <= statements.len(),
            statements == &block.statements,
            out@ == old(out)@ + block_text(statements@.take(i as int)),
        decreases statements.len() - i,
    {
        push_statement(out, &statements[i]);
        out.append("\n");
        proof {
            let done = statements@.take(i as int);
            let next = statements@.take(i + 1);
            assert(next.drop_last() =~= done);
            assert(next.last() == statements@[i as int]);
            assert(out@ =~= old(out)@ + block_text(next));
        }
        i += 1;
    }
    assert(statements@.take(statements.len() as int) =~= statements@);
}

impl Identifier {
    /// The identifier's name.
    pub fn to_text(&self) -> (text: String)
        ensures
            text@ == self.value@,
    {
        self.value.clone()
    }
}

impl Literal {
    /// The literal as text.
    pub fn to_text(&self) -> (text: String)
        ensures
            text@ == literal_text(*self),
    {
        let mut text = String::new();
        push_literal(&mut text, self);
        assert(text@ =~= literal_text(*self));
        text
    }
}

impl Expression {
    /// The expression as text.
    pub fn to_text(&self) -> (text: String)
        ensures
            text@ == expression_text(*self),
    {
        let mut text = String::new();
        push_expression(&mut text, self);
        assert(text@ =~= expression_text(*self));
        text
    }
}

impl Statement {
    /// The statement as text.
    pub fn to_text(&self) -> (text: String)
        ensures
            text@ == statement_text(*self),
    {
        let mut text = String::new();
        push_statement(&mut text, self);
        assert(text@ =~= statement_text(*self));
        text
    }
}

impl BlockStatement {
    /// The block's statements as text, each followed by a line feed.
    pub fn to_text(&self) -> (text: String)
        ensures
            text@ == block_text(self.statements@),
    {
        let mut text = String::new();
        push_block(&mut text, self);
        assert(text@ =~= block_text(self.statements@));
        text
    }
}

impl Program {
    /// The program's statements as text, one after the other.
    pub fn to_text(&self) -> (text: String)
        ensures
            text@ == program_text(self.statements@),
    {
        let mut text = String::new();
        let mut i: usize = 0;
        while i < self.statements.len()
            invariant
                i <= self.statements.len(),
                text@ == program_text(self.statements@.take(i as int)),
            decreases self.statements.len() - i,
        {
            push_statement(&mut text, &self.statements[i]);
            proof {
                let done = self.statements@.take(i as int);
                let next = self.statements@.take(i + 1);
                assert(next.drop_last() =~= done);
                assert(next.last() == self.statements@[i as int]);
            }
            i += 1;
        }
        assert(self.statements@.take(self.statements.len() as int) =~= self.statements@);
        text
    }
}

impl Node {
    /// The compilation unit as text.
    pub fn to_text(&self) -> (text: String)
        ensures
            text@ == node_text(*self),
    {
        match self {
            Node::Expression(e) => e.to_text(),
            Node::Program(p) => p.to_text(),
            Node::Statement(s) => s.to_text(),
        }
    }
}

} // verus!
