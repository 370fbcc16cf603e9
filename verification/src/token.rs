//! Lexical tokens consumed by the parser, and the parser's error type.
//!
//! Tokens are produced by an external tokenizer; the parser never sees
//! raw characters, only an ordered, finite sequence of these values.

use vstd::prelude::*;

verus! {

/// One lexical unit of an arithmetic expression.
#[derive(Debug, PartialEq, Eq)]
pub enum Token {
    Integer(i64),
    Variable(String),
    Add,
    Subtract,
    Multiply,
    Divide,
    LeftParenthesis,
    RightParenthesis,
}

/// How a parse can fail.
///
/// The two variants are deliberately distinct: `UnmatchedParenthesis` is
/// a fatal structural error (an opening parenthesis was consumed and its
/// closing partner never arrived), which aborts the whole parse, while
/// `InvalidExpression` is the ordinary failure of the grammar to produce
/// an expression from the tokens.  Backtracking never recovers from the
/// fatal variant.
#[derive(Debug, PartialEq, Eq)]
pub enum ParseError {
    /// An opening parenthesis has no matching closing parenthesis.
    UnmatchedParenthesis,
    /// The token sequence does not form an expression.
    InvalidExpression,
}

} // verus!
