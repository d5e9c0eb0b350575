//! Why a compilation can fail.

use vstd::prelude::*;

verus! {

/// A construct of the language that the compiler accepts in a syntax tree
/// and does not lower.
#[derive(Clone, Copy, Debug, PartialEq, Eq, Structural)]
pub enum Construct {
    Assignment,
    Identifier,
    FloatLiteral,
    StringLiteral,
    ArrayLiteral,
    FunctionLiteral,
    Call,
    Index,
    /// A prefix operator other than `!` and `-`.
    PrefixOperator,
    /// An infix operator other than `+ - * / > < == !=`.
    InfixOperator,
}

/// The error of a compilation.
#[derive(Clone, Copy, Debug, PartialEq, Eq, Structural)]
pub enum CompileError {
    /// The tree holds a construct that the compiler does not lower.
    Unimplemented(Construct),
}

impl CompileError {
    /// The error's message: it names the compilation step that gave up.
    pub open spec fn text(self) -> Seq<char> {
        match self {
            CompileError::Unimplemented(Construct::Assignment) => "compile_statement: unimplemented"@,
            CompileError::Unimplemented(_) => "compile_expression: unimplemented"@,
        }
    }

    /// The error's message.
    pub fn message(&self) -> (message: String)
        ensures
            message@ == self.text(),
    {
        match self {
            CompileError::Unimplemented(Construct::Assignment) => String::from_str(
                "compile_statement: unimplemented",
            ),
            CompileError::Unimplemented(_) => String::from_str("compile_expression: unimplemented"),
        }
    }
}

} // verus!
