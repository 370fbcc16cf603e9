//! A recursive-descent parser for arithmetic expressions over a token
//! stream, together with a deterministic pretty-printer.
//!
//! The grammar has two precedence levels (additive and multiplicative)
//! plus a leaf layer of atoms; both operator layers are right-recursive,
//! so every operator groups to the right.  Parsing consumes tokens
//! front-to-back with one-token lookahead: a token popped and found not
//! to extend the current rule is pushed back for the enclosing rule.
//! Rendering produces a fully parenthesized textual form: multiplicative
//! nodes and parenthesized atoms are wrapped in parentheses, additive
//! nodes are not.

pub mod ast;
pub mod laws;
pub mod parser;
pub mod render;
pub mod token;

pub use ast::Atom;
pub use ast::Expression;
pub use ast::MExpression;
pub use parser::parse_atom;
pub use parser::parse_expression;
pub use parser::parse_m_expression;
pub use parser::parse_tokens;
pub use token::ParseError;
pub use token::Token;
