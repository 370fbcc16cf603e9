//! The abstract syntax tree produced by the parser.
//!
//! Three strictly layered kinds: `Expression` (additive layer),
//! `MExpression` (multiplicative layer) and `Atom` (leaves).  In both
//! operator layers the left operand belongs to the layer below and the
//! right operand recurses into the same layer, which makes every
//! operator right-associative.  A parenthesized atom is the only way a
//! full `Expression` can reappear below the leaf layer.

use vstd::prelude::*;

verus! {

/// Additive layer: a sum, a difference, or a bare multiplicative
/// expression.  The right operand of `Add`/`Subtract` is a full
/// `Expression`, so chains of `+`/`-` group to the right.
#[derive(Debug, PartialEq, Eq)]
pub enum Expression {
    Add(MExpression, Box<Expression>),
    Subtract(MExpression, Box<Expression>),
    MExpression(MExpression),
}

/// Multiplicative layer: a product, a quotient, or a bare atom.  The
/// right operand of `Multiply`/`Divide` is a full `MExpression`, so
/// chains of `*`/`/` group to the right.
#[derive(Debug, PartialEq, Eq)]
pub enum MExpression {
    Multiply(Atom, Box<MExpression>),
    Divide(Atom, Box<MExpression>),
    Atoms(Atom),
}

/// Leaf layer: an integer literal, a variable, or a parenthesized
/// sub-expression.
#[derive(Debug, PartialEq, Eq)]
pub enum Atom {
    Expression(Box<Expression>),
    Integer(i64),
    Variable(String),
}

} // verus!
