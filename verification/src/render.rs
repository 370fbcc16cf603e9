//! Rendering the syntax tree back to text.
//!
//! The output is canonical and fully grouped: multiplicative nodes and
//! parenthesized atoms are wrapped in parentheses, additive nodes are
//! written bare, every operator gets one space on each side, integers
//! are written in decimal, and variable names verbatim.  Each type's
//! `render` method is proved to produce exactly the character sequence
//! given by the corresponding specification function.

use vstd::prelude::*;
use vstd::string::*;

use crate::ast::Atom;
use crate::ast::Expression;
use crate::ast::MExpression;

verus! {

/// The character for one decimal digit.
pub open spec fn spec_decimal_digit(d: int) -> char {
    if d == 0 {
        '0'
    } else if d == 1 {
        '1'
    } else if d == 2 {
        '2'
    } else if d == 3 {
        '3'
    } else if d == 4 {
        '4'
    } else if d == 5 {
        '5'
    } else if d == 6 {
        '6'
    } else if d == 7 {
        '7'
    } else if d == 8 {
        '8'
    } else {
        '9'
    }
}

/// Decimal digits of a natural number, most significant first, with no
/// leading zeros (a lone zero for zero itself).
pub open spec fn spec_decimal_nat(n: nat) -> Seq<char>
    decreases n,
{
    if n < 10 {
        seq![spec_decimal_digit(n as int)]
    } else {
        spec_decimal_nat(n / 10) + seq![spec_decimal_digit((n % 10) as int)]
    }
}

/// Decimal text of an integer: a minus sign before the digits of its
/// magnitude when negative.
pub open spec fn spec_decimal_int(n: int) -> Seq<char> {
    if n < 0 {
        seq!['-'] + spec_decimal_nat((-n) as nat)
    } else {
        spec_decimal_nat(n as nat)
    }
}

/// Text of an additive-layer node: operands joined by a spaced `+` or
/// `-`, with no grouping added at this layer.
pub open spec fn spec_render_expression(e: Expression) -> Seq<char>
    decreases e,
{
    match e {
        Expression::Add(l, r) => spec_render_m_expression(l) + seq![' ', '+', ' ']
            + spec_render_expression(*r),
        Expression::Subtract(l, r) => spec_render_m_expression(l) + seq![' ', '-', ' ']
            + spec_render_expression(*r),
        Expression::MExpression(m) => spec_render_m_expression(m),
    }
}

/// Text of a multiplicative-layer node: operands joined by a spaced `*`
/// or `/` and wrapped in parentheses as one unit.
pub open spec fn spec_render_m_expression(m: MExpression) -> Seq<char>
    decreases m,
{
    match m {
        MExpression::Multiply(l, r) => seq!['('] + spec_render_atom(l) + seq![' ', '*', ' ']
            + spec_render_m_expression(*r) + seq![')'],
        MExpression::Divide(l, r) => seq!['('] + spec_render_atom(l) + seq![' ', '/', ' ']
            + spec_render_m_expression(*r) + seq![')'],
        MExpression::Atoms(a) => spec_render_atom(a),
    }
}

/// Text of a leaf: decimal digits, the variable name verbatim, or the
/// nested expression wrapped in parentheses.
pub open spec fn spec_render_atom(a: Atom) -> Seq<char>
    decreases a,
{
    match a {
        Atom::Expression(e) => seq!['('] + spec_render_expression(*e) + seq![')'],
        Atom::Integer(num) => spec_decimal_int(num as int),
        Atom::Variable(var) => var@,
    }
}

/// The one-character text of a decimal digit.
fn decimal_digit_str(d: u64) -> (s: &'static str)
    requires
        d < 10,
    ensures
        s@ == seq![spec_decimal_digit(d as int)],
{
    if d == 0 {
        proof {
            reveal_strlit("0");
            assert("0"@ =~= seq!['0']);
        }
        "0"
    } else if d == 1 {
        proof {
            reveal_strlit("1");
            assert("1"@ =~= seq!['1']);
        }
        "1"
    } else if d == 2 {
        proof {
            reveal_strlit("2");
            assert("2"@ =~= seq!['2']);
        }
        "2"
    } else if d == 3 {
        proof {
            reveal_strlit("3");
            assert("3"@ =~= seq!['3']);
        }
        "3"
    } else if d == 4 {
        proof {
            reveal_strlit("4");
            assert("4"@ =~= seq!['4']);
        }
        "4"
    } else if d == 5 {
        proof {
            reveal_strlit("5");
            assert("5"@ =~= seq!['5']);
        }
        "5"
    } else if d == 6 {
        proof {
            reveal_strlit("6");
            assert("6"@ =~= seq!['6']);
        }
        "6"
    } else if d == 7 {
        proof {
            reveal_strlit("7");
            assert("7"@ =~= seq!['7']);
        }
        "7"
    } else if d == 8 {
        proof {
            reveal_strlit("8");
            assert("8"@ =~= seq!['8']);
        }
        "8"
    } else {
        proof {
            reveal_strlit("9");
            assert("9"@ =~= seq!['9']);
        }
        "9"
    }
}

/// Decimal text of an unsigned quantity.
fn decimal_u64(n: u64) -> (s: String)
    ensures
        s@ == spec_decimal_nat(n as nat),
    decreases n,
{
    if n < 10 {
        String::from_str(decimal_digit_str(n))
    } else {
        let mut s = decimal_u64(n / 10);
        s.append(decimal_digit_str(n % 10));
        s
    }
}

/// Decimal text of a signed quantity.
fn decimal_i64(n: i64) -> (s: String)
    ensures
        s@ == spec_decimal_int(n as int),
{
    if n >= 0 {
        decimal_u64(n as u64)
    } else {
        let magnitude: u64 = (-(n as i128)) as u64;
        let mut s = String::from_str("-");
        proof {
            reveal_strlit("-");
            assert("-"@ =~= seq!['-']);
        }
        let digits = decimal_u64(magnitude);
        s.append(digits.as_str());
        s
    }
}

impl Expression {
    /// The canonical text of this expression.
    pub fn render(&self) -> (s: String)
        ensures
            s@ == spec_render_expression(*self),
        decreases self,
    {
        match self {
            Expression::Add(l, r) => {
                let mut s = l.render();
                s.append(" + ");
                let right = (&**r).render();
                s.append(right.as_str());
                proof {
                    reveal_strlit(" + ");
                    assert(" + "@ =~= seq![' ', '+', ' ']);
                }
                s
            },
            Expression::Subtract(l, r) => {
                let mut s = l.render();
                s.append(" - ");
                let right = (&**r).render();
                s.append(right.as_str());
                proof {
                    reveal_strlit(" - ");
                    assert(" - "@ =~= seq![' ', '-', ' ']);
                }
                s
            },
            Expression::MExpression(m) => m.render(),
        }
    }
}

impl MExpression {
    /// The canonical text of this multiplicative expression.
    pub fn render(&self) -> (s: String)
        ensures
            s@ == spec_render_m_expression(*self),
        decreases self,
    {
        match self {
            MExpression::Multiply(l, r) => {
                let mut s = String::from_str("(");
                let left = l.render();
                s.append(left.as_str());
                s.append(" * ");
                let right = (&**r).render();
                s.append(right.as_str());
                s.append(")");
                proof {
                    reveal_strlit("(");
                    reveal_strlit(")");
                    reveal_strlit(" * ");
                    assert("("@ =~= seq!['(']);
                    assert(")"@ =~= seq![')']);
                    assert(" * "@ =~= seq![' ', '*', ' ']);
                }
                s
            },
            MExpression::Divide(l, r) => {
                let mut s = String::from_str("(");
                let left = l.render();
                s.append(left.as_str());
                s.append(" / ");
                let right = (&**r).render();
                s.append(right.as_str());
                s.append(")");
                proof {
                    reveal_strlit("(");
                    reveal_strlit(")");
                    reveal_strlit(" / ");
                    assert("("@ =~= seq!['(']);
                    assert(")"@ =~= seq![')']);
                    assert(" / "@ =~= seq![' ', '/', ' ']);
                }
                s
            },
            MExpression::Atoms(a) => a.render(),
        }
    }
}

impl Atom {
    /// The canonical text of this atom.
    pub fn render(&self) -> (s: String)
        ensures
            s@ == spec_render_atom(*self),
        decreases self,
    {
        match self {
            Atom::Expression(e) => {
                let mut s = String::from_str("(");
                let inner = (&**e).render();
                s.append(inner.as_str());
                s.append(")");
                proof {
                    reveal_strlit("(");
                    reveal_strlit(")");
                    assert("("@ =~= seq!['(']);
                    assert(")"@ =~= seq![')']);
                }
                s
            },
            Atom::Integer(num) => decimal_i64(*num),
            Atom::Variable(var) => {
                let s = String::from_str(var.as_str());
                s
            },
        }
    }
}

} // verus!
