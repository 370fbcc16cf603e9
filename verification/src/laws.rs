//! Proved properties relating the parser and the renderer.
//!
//! The lexical form of a rendered expression is described by
//! `spec_tokens_of_expression`: the token sequence a tokenizer yields
//! from the rendered text, obtained by replacing each rendered piece
//! (digits, name, operator, parenthesis) by its token.  The round-trip
//! results below show that parsing that form gives the original tree
//! back, for every tree free of multiplicative nodes.  The restriction
//! is essential: a `*` or `/` node renders parenthesized, so its
//! reparse wraps it in a parenthesized atom, which renders with one
//! more pair of parentheses than the original.

use vstd::prelude::*;

use crate::ast::Atom;
use crate::ast::Expression;
use crate::ast::MExpression;
use crate::parser::spec_parse_atom;
use crate::parser::spec_parse_expression;
use crate::parser::spec_parse_m_expression;
use crate::parser::spec_parse_m_tail;
use crate::parser::ParseStep;
use crate::render::spec_decimal_int;
use crate::render::spec_render_atom;
use crate::render::spec_render_expression;
use crate::render::spec_render_m_expression;
use crate::token::Token;

verus! {

/// The token sequence of the rendered text of an expression.
pub open spec fn spec_tokens_of_expression(e: Expression) -> Seq<Token>
    decreases e,
{
    match e {
        Expression::Add(l, r) => spec_tokens_of_m_expression(l) + seq![Token::Add]
            + spec_tokens_of_expression(*r),
        Expression::Subtract(l, r) => spec_tokens_of_m_expression(l) + seq![Token::Subtract]
            + spec_tokens_of_expression(*r),
        Expression::MExpression(m) => spec_tokens_of_m_expression(m),
    }
}

/// The token sequence of the rendered text of a multiplicative
/// expression.
pub open spec fn spec_tokens_of_m_expression(m: MExpression) -> Seq<Token>
    decreases m,
{
    match m {
        MExpression::Multiply(l, r) => seq![Token::LeftParenthesis] + spec_tokens_of_atom(l)
            + seq![Token::Multiply] + spec_tokens_of_m_expression(*r)
            + seq![Token::RightParenthesis],
        MExpression::Divide(l, r) => seq![Token::LeftParenthesis] + spec_tokens_of_atom(l)
            + seq![Token::Divide] + spec_tokens_of_m_expression(*r)
            + seq![Token::RightParenthesis],
        MExpression::Atoms(a) => spec_tokens_of_atom(a),
    }
}

/// The token sequence of the rendered text of an atom.
pub open spec fn spec_tokens_of_atom(a: Atom) -> Seq<Token>
    decreases a,
{
    match a {
        Atom::Expression(e) => seq![Token::LeftParenthesis] + spec_tokens_of_expression(*e)
            + seq![Token::RightParenthesis],
        Atom::Integer(num) => seq![Token::Integer(num)],
        Atom::Variable(var) => seq![Token::Variable(var)],
    }
}

/// No `Multiply` or `Divide` node anywhere in the tree, parenthesized
/// sub-expressions included.
pub open spec fn spec_additive_expression(e: Expression) -> bool
    decreases e,
{
    match e {
        Expression::Add(l, r) => spec_additive_m_expression(l) && spec_additive_expression(*r),
        Expression::Subtract(l, r) => spec_additive_m_expression(l) && spec_additive_expression(
            *r,
        ),
        Expression::MExpression(m) => spec_additive_m_expression(m),
    }
}

/// The multiplicative layer holds a bare atom, itself free of
/// multiplicative nodes.
pub open spec fn spec_additive_m_expression(m: MExpression) -> bool
    decreases m,
{
    match m {
        MExpression::Multiply(l, r) => false,
        MExpression::Divide(l, r) => false,
        MExpression::Atoms(a) => spec_additive_atom(a),
    }
}

/// The atom contains no multiplicative node.
pub open spec fn spec_additive_atom(a: Atom) -> bool
    decreases a,
{
    match a {
        Atom::Expression(e) => spec_additive_expression(*e),
        Atom::Integer(num) => true,
        Atom::Variable(var) => true,
    }
}

/// Tokens on which the additive rule's lookahead stops cleanly: the
/// contexts in which a rendered expression is embedded (end of input,
/// or the closing parenthesis of the atom around it).
pub open spec fn spec_expression_stopper(rest: Seq<Token>) -> bool {
    rest.len() == 0 || rest[0] is RightParenthesis
}

/// Tokens on which the multiplicative rule's lookahead stops cleanly:
/// those of `spec_expression_stopper`, and the additive operator that
/// may follow a left operand.
pub open spec fn spec_m_stopper(rest: Seq<Token>) -> bool {
    rest.len() == 0 || rest[0] is RightParenthesis || rest[0] is Add || rest[0] is Subtract
}

/// The lexical form of an atom holds at least one token.
proof fn lemma_tokens_of_atom_nonempty(a: Atom)
    ensures
        spec_tokens_of_atom(a).len() >= 1,
{
    match a {
        Atom::Expression(e) => {
            assert(spec_tokens_of_atom(a).len() >= 1);
        },
        Atom::Integer(num) => {
            assert(spec_tokens_of_atom(a).len() >= 1);
        },
        Atom::Variable(var) => {
            assert(spec_tokens_of_atom(a).len() >= 1);
        },
    }
}

/// The lexical form of a multiplicative expression holds at least one
/// token.
proof fn lemma_tokens_of_m_expression_nonempty(m: MExpression)
    ensures
        spec_tokens_of_m_expression(m).len() >= 1,
{
    match m {
        MExpression::Multiply(l, r) => {
            assert(spec_tokens_of_m_expression(m).len() >= 1);
        },
        MExpression::Divide(l, r) => {
            assert(spec_tokens_of_m_expression(m).len() >= 1);
        },
        MExpression::Atoms(a) => {
            lemma_tokens_of_atom_nonempty(a);
        },
    }
}

/// Parsing the lexical form of a multiplication-free atom, whatever
/// follows it, gives the atom back and consumes exactly its tokens.
pub proof fn lemma_atom_round_trip(a: Atom, rest: Seq<Token>)
    requires
        spec_additive_atom(a),
    ensures
        spec_parse_atom(spec_tokens_of_atom(a) + rest) == ParseStep::Parsed(a, rest),
    decreases a,
{
    let s = spec_tokens_of_atom(a) + rest;
    match a {
        Atom::Integer(num) => {
            assert(s[0] == Token::Integer(num));
            assert(s.drop_first() =~= rest);
        },
        Atom::Variable(var) => {
            assert(s[0] == Token::Variable(var));
            assert(s.drop_first() =~= rest);
        },
        Atom::Expression(e) => {
            let inner = spec_tokens_of_expression(*e);
            let closing = seq![Token::RightParenthesis] + rest;
            assert(s[0] == Token::LeftParenthesis);
            assert(s.drop_first() =~= inner + closing);
            lemma_expression_round_trip(*e, closing);
            assert(closing[0] == Token::RightParenthesis);
            assert(closing.drop_first() =~= rest);
        },
    }
}

/// Parsing the lexical form of a multiplication-free multiplicative
/// expression, followed by tokens its lookahead stops on, gives the
/// expression back and consumes exactly its tokens.
pub proof fn lemma_m_expression_round_trip(m: MExpression, rest: Seq<Token>)
    requires
        spec_additive_m_expression(m),
        spec_m_stopper(rest),
    ensures
        spec_parse_m_expression(spec_tokens_of_m_expression(m) + rest) == ParseStep::Parsed(
            m,
            rest,
        ),
    decreases m,
{
    let s = spec_tokens_of_m_expression(m) + rest;
    match m {
        MExpression::Atoms(a) => {
            lemma_atom_round_trip(a, rest);
            lemma_tokens_of_atom_nonempty(a);
            assert(rest.len() < s.len());
            if rest.len() == 0 {
                assert(spec_parse_m_tail(a, rest) == ParseStep::Parsed(m, rest));
            } else {
                // The lookahead token is an operator of the additive
                // layer or a closing parenthesis, so the speculative
                // retry fails on its first atom without consuming
                // anything, and the atom stands alone.
                assert(spec_parse_atom(rest) == ParseStep::<Atom>::Failed(rest));
                assert(spec_parse_m_tail(a, rest) == ParseStep::Parsed(m, rest));
            }
        },
        // `Multiply` and `Divide` are excluded by the precondition.
        MExpression::Multiply(l, r) => {},
        MExpression::Divide(l, r) => {},
    }
}

/// Parsing the lexical form of a multiplication-free expression,
/// followed by tokens its lookahead stops on, gives the expression back
/// and consumes exactly its tokens.
pub proof fn lemma_expression_round_trip(e: Expression, rest: Seq<Token>)
    requires
        spec_additive_expression(e),
        spec_expression_stopper(rest),
    ensures
        spec_parse_expression(spec_tokens_of_expression(e) + rest) == ParseStep::Parsed(e, rest),
    decreases e,
{
    let s = spec_tokens_of_expression(e) + rest;
    match e {
        Expression::MExpression(m) => {
            lemma_m_expression_round_trip(m, rest);
            lemma_tokens_of_m_expression_nonempty(m);
            assert(rest.len() < s.len());
        },
        Expression::Add(l, r) => {
            let rest1 = seq![Token::Add] + spec_tokens_of_expression(*r) + rest;
            assert(s =~= spec_tokens_of_m_expression(l) + rest1);
            lemma_m_expression_round_trip(l, rest1);
            lemma_tokens_of_m_expression_nonempty(l);
            assert(rest1.len() < s.len());
            assert(rest1[0] == Token::Add);
            assert(rest1.drop_first() =~= spec_tokens_of_expression(*r) + rest);
            lemma_expression_round_trip(*r, rest);
        },
        Expression::Subtract(l, r) => {
            let rest1 = seq![Token::Subtract] + spec_tokens_of_expression(*r) + rest;
            assert(s =~= spec_tokens_of_m_expression(l) + rest1);
            lemma_m_expression_round_trip(l, rest1);
            lemma_tokens_of_m_expression_nonempty(l);
            assert(rest1.len() < s.len());
            assert(rest1[0] == Token::Subtract);
            assert(rest1.drop_first() =~= spec_tokens_of_expression(*r) + rest);
            lemma_expression_round_trip(*r, rest);
        },
    }
}

/// Rendering is a fixed point under reparsing for multiplication-free
/// trees: parsing the lexical form of the rendered text yields the very
/// same tree, so rendering it again yields the same text.  For a tree
/// holding a `*` or `/` node the fixed point fails — its reparse gains
/// a parenthesized atom, whose rendering gains a pair of parentheses —
/// which is why such trees are excluded.
pub proof fn lemma_render_parse_fixed_point(e: Expression)
    requires
        spec_additive_expression(e),
    ensures
        spec_parse_expression(spec_tokens_of_expression(e)) == ParseStep::Parsed(
            e,
            Seq::<Token>::empty(),
        ),
{
    assert(spec_tokens_of_expression(e) + Seq::<Token>::empty() =~= spec_tokens_of_expression(e));
    lemma_expression_round_trip(e, Seq::<Token>::empty());
}

/// An opening parenthesis whose expression runs to the end of the
/// input, with no closing parenthesis after it, is the fatal structural
/// error — at the atom rule that consumed the parenthesis and at the
/// whole parse alike.  This is distinct from the ordinary failure an
/// empty input gives.
pub proof fn lemma_unclosed_parenthesis_is_fatal(e: Expression)
    requires
        spec_additive_expression(e),
    ensures
        spec_parse_atom(seq![Token::LeftParenthesis] + spec_tokens_of_expression(e))
            == ParseStep::<Atom>::Fatal,
        spec_parse_expression(seq![Token::LeftParenthesis] + spec_tokens_of_expression(e))
            == ParseStep::<Expression>::Fatal,
{
    let s = seq![Token::LeftParenthesis] + spec_tokens_of_expression(e);
    assert(s[0] == Token::LeftParenthesis);
    assert(s.drop_first() =~= spec_tokens_of_expression(e) + Seq::<Token>::empty());
    lemma_expression_round_trip(e, Seq::<Token>::empty());
    assert(spec_parse_m_expression(s) == ParseStep::<MExpression>::Fatal);
}

/// For two integer literals, each operator's three-token sequence
/// parses to the corresponding two-operand node, and that node renders
/// as the two decimal texts joined by the spaced operator — bare for
/// `+` and `-`, parenthesized as a unit for `*` and `/`.
pub proof fn lemma_binary_operators(a: i64, b: i64)
    ensures
        ({
            let tree = Expression::Add(
                MExpression::Atoms(Atom::Integer(a)),
                Box::new(Expression::MExpression(MExpression::Atoms(Atom::Integer(b)))),
            );
            spec_parse_expression(seq![Token::Integer(a), Token::Add, Token::Integer(b)])
                == ParseStep::Parsed(tree, Seq::<Token>::empty()) && spec_render_expression(tree)
                == spec_decimal_int(a as int) + seq![' ', '+', ' '] + spec_decimal_int(b as int)
        }),
        ({
            let tree = Expression::Subtract(
                MExpression::Atoms(Atom::Integer(a)),
                Box::new(Expression::MExpression(MExpression::Atoms(Atom::Integer(b)))),
            );
            spec_parse_expression(seq![Token::Integer(a), Token::Subtract, Token::Integer(b)])
                == ParseStep::Parsed(tree, Seq::<Token>::empty()) && spec_render_expression(tree)
                == spec_decimal_int(a as int) + seq![' ', '-', ' '] + spec_decimal_int(b as int)
        }),
        ({
            let tree = Expression::MExpression(
                MExpression::Multiply(
                    Atom::Integer(a),
                    Box::new(MExpression::Atoms(Atom::Integer(b))),
                ),
            );
            spec_parse_expression(seq![Token::Integer(a), Token::Multiply, Token::Integer(b)])
                == ParseStep::Parsed(tree, Seq::<Token>::empty()) && spec_render_expression(tree)
                == seq!['('] + spec_decimal_int(a as int) + seq![' ', '*', ' '] + spec_decimal_int(
                b as int,
            ) + seq![')']
        }),
        ({
            let tree = Expression::MExpression(
                MExpression::Divide(
                    Atom::Integer(a),
                    Box::new(MExpression::Atoms(Atom::Integer(b))),
                ),
            );
            spec_parse_expression(seq![Token::Integer(a), Token::Divide, Token::Integer(b)])
                == ParseStep::Parsed(tree, Seq::<Token>::empty()) && spec_render_expression(tree)
                == seq!['('] + spec_decimal_int(a as int) + seq![' ', '/', ' '] + spec_decimal_int(
                b as int,
            ) + seq![')']
        }),
{
    reveal_with_fuel(spec_render_expression, 5);
    reveal_with_fuel(spec_render_m_expression, 5);
    reveal_with_fuel(spec_render_atom, 5);
    lemma_additive_pair(a, b);
    lemma_multiplicative_pair(a, b);
    assert(spec_render_atom(Atom::Integer(a)) == spec_decimal_int(a as int));
    assert(spec_render_atom(Atom::Integer(b)) == spec_decimal_int(b as int));
    assert(spec_render_m_expression(MExpression::Atoms(Atom::Integer(a))) == spec_decimal_int(
        a as int,
    ));
    assert(spec_render_expression(
        Expression::MExpression(MExpression::Atoms(Atom::Integer(b))),
    ) == spec_decimal_int(b as int));
    assert(spec_render_m_expression(
        MExpression::Multiply(Atom::Integer(a), Box::new(MExpression::Atoms(Atom::Integer(b)))),
    ) == seq!['('] + spec_decimal_int(a as int) + seq![' ', '*', ' '] + spec_decimal_int(b as int)
        + seq![')']);
    assert(spec_render_m_expression(
        MExpression::Divide(Atom::Integer(a), Box::new(MExpression::Atoms(Atom::Integer(b)))),
    ) == seq!['('] + spec_decimal_int(a as int) + seq![' ', '/', ' '] + spec_decimal_int(b as int)
        + seq![')']);
}

/// The `+` and `-` cases of [`lemma_binary_operators`], through the
/// round-trip result.
proof fn lemma_additive_pair(a: i64, b: i64)
    ensures
        spec_parse_expression(seq![Token::Integer(a), Token::Add, Token::Integer(b)])
            == ParseStep::Parsed(
            Expression::Add(
                MExpression::Atoms(Atom::Integer(a)),
                Box::new(Expression::MExpression(MExpression::Atoms(Atom::Integer(b)))),
            ),
            Seq::<Token>::empty(),
        ),
        spec_parse_expression(seq![Token::Integer(a), Token::Subtract, Token::Integer(b)])
            == ParseStep::Parsed(
            Expression::Subtract(
                MExpression::Atoms(Atom::Integer(a)),
                Box::new(Expression::MExpression(MExpression::Atoms(Atom::Integer(b)))),
            ),
            Seq::<Token>::empty(),
        ),
{
    reveal_with_fuel(spec_tokens_of_expression, 3);
    reveal_with_fuel(spec_tokens_of_m_expression, 3);
    reveal_with_fuel(spec_tokens_of_atom, 3);
    reveal_with_fuel(spec_additive_expression, 3);
    reveal_with_fuel(spec_additive_m_expression, 3);
    reveal_with_fuel(spec_additive_atom, 3);
    let bare_b = Expression::MExpression(MExpression::Atoms(Atom::Integer(b)));
    assert(spec_tokens_of_expression(bare_b) =~= seq![Token::Integer(b)]);
    assert(spec_additive_expression(bare_b));
    let add_tree = Expression::Add(MExpression::Atoms(Atom::Integer(a)), Box::new(bare_b));
    assert(spec_tokens_of_expression(add_tree) =~= seq![
        Token::Integer(a),
        Token::Add,
        Token::Integer(b),
    ]);
    assert(spec_additive_expression(add_tree));
    lemma_render_parse_fixed_point(add_tree);
    let sub_tree = Expression::Subtract(MExpression::Atoms(Atom::Integer(a)), Box::new(bare_b));
    assert(spec_tokens_of_expression(sub_tree) =~= seq![
        Token::Integer(a),
        Token::Subtract,
        Token::Integer(b),
    ]);
    assert(spec_additive_expression(sub_tree));
    lemma_render_parse_fixed_point(sub_tree);
}

/// The `*` and `/` cases of [`lemma_binary_operators`], by unfolding
/// the rules on the three tokens.
proof fn lemma_multiplicative_pair(a: i64, b: i64)
    ensures
        spec_parse_expression(seq![Token::Integer(a), Token::Multiply, Token::Integer(b)])
            == ParseStep::Parsed(
            Expression::MExpression(
                MExpression::Multiply(
                    Atom::Integer(a),
                    Box::new(MExpression::Atoms(Atom::Integer(b))),
                ),
            ),
            Seq::<Token>::empty(),
        ),
        spec_parse_expression(seq![Token::Integer(a), Token::Divide, Token::Integer(b)])
            == ParseStep::Parsed(
            Expression::MExpression(
                MExpression::Divide(
                    Atom::Integer(a),
                    Box::new(MExpression::Atoms(Atom::Integer(b))),
                ),
            ),
            Seq::<Token>::empty(),
        ),
{
    reveal_with_fuel(spec_parse_expression, 3);
    reveal_with_fuel(spec_parse_m_expression, 3);
    reveal_with_fuel(spec_parse_m_tail, 3);
    reveal_with_fuel(spec_parse_atom, 3);
    let s_mul = seq![Token::Integer(a), Token::Multiply, Token::Integer(b)];
    assert(s_mul.drop_first() =~= seq![Token::Multiply, Token::Integer(b)]);
    assert(seq![Token::Multiply, Token::Integer(b)].drop_first() =~= seq![Token::Integer(b)]);
    assert(seq![Token::Integer(b)].drop_first() =~= Seq::<Token>::empty());
    assert(spec_parse_atom(s_mul) == ParseStep::Parsed(Atom::Integer(a), seq![
        Token::Multiply,
        Token::Integer(b),
    ]));
    assert(spec_parse_m_expression(seq![Token::Integer(b)]) == ParseStep::Parsed(
        MExpression::Atoms(Atom::Integer(b)),
        Seq::<Token>::empty(),
    ));
    let s_div = seq![Token::Integer(a), Token::Divide, Token::Integer(b)];
    assert(s_div.drop_first() =~= seq![Token::Divide, Token::Integer(b)]);
    assert(seq![Token::Divide, Token::Integer(b)].drop_first() =~= seq![Token::Integer(b)]);
    assert(spec_parse_atom(s_div) == ParseStep::Parsed(Atom::Integer(a), seq![
        Token::Divide,
        Token::Integer(b),
    ]));
}

/// Chains of the same additive operator group to the right: the flat
/// token sequence `x - y - z` parses with the second difference nested
/// as the right operand, not the first as the left.
pub proof fn lemma_subtraction_groups_to_the_right(x: i64, y: i64, z: i64)
    ensures
        spec_parse_expression(
            seq![
                Token::Integer(x),
                Token::Subtract,
                Token::Integer(y),
                Token::Subtract,
                Token::Integer(z),
            ],
        ) == ParseStep::Parsed(
            Expression::Subtract(
                MExpression::Atoms(Atom::Integer(x)),
                Box::new(
                    Expression::Subtract(
                        MExpression::Atoms(Atom::Integer(y)),
                        Box::new(Expression::MExpression(MExpression::Atoms(Atom::Integer(z)))),
                    ),
                ),
            ),
            Seq::<Token>::empty(),
        ),
{
    reveal_with_fuel(spec_tokens_of_expression, 4);
    reveal_with_fuel(spec_tokens_of_m_expression, 4);
    reveal_with_fuel(spec_tokens_of_atom, 4);
    reveal_with_fuel(spec_additive_expression, 4);
    reveal_with_fuel(spec_additive_m_expression, 4);
    reveal_with_fuel(spec_additive_atom, 4);
    let bare_z = Expression::MExpression(MExpression::Atoms(Atom::Integer(z)));
    assert(spec_tokens_of_expression(bare_z) =~= seq![Token::Integer(z)]);
    assert(spec_additive_expression(bare_z));
    let inner = Expression::Subtract(MExpression::Atoms(Atom::Integer(y)), Box::new(bare_z));
    assert(spec_tokens_of_expression(inner) =~= seq![
        Token::Integer(y),
        Token::Subtract,
        Token::Integer(z),
    ]);
    assert(spec_additive_expression(inner));
    let tree = Expression::Subtract(MExpression::Atoms(Atom::Integer(x)), Box::new(inner));
    assert(spec_tokens_of_expression(tree) =~= seq![
        Token::Integer(x),
        Token::Subtract,
        Token::Integer(y),
        Token::Subtract,
        Token::Integer(z),
    ]);
    assert(spec_additive_expression(tree));
    lemma_render_parse_fixed_point(tree);
}

/// A variable token behaves exactly as an integer token does in the
/// tree: a sum of two variables parses to the same shape as a sum of
/// two integers, and renders as the two names joined by the spaced
/// operator.
pub proof fn lemma_variables_parse_like_integers(p: String, q: String)
    ensures
        ({
            let tree = Expression::Add(
                MExpression::Atoms(Atom::Variable(p)),
                Box::new(Expression::MExpression(MExpression::Atoms(Atom::Variable(q)))),
            );
            spec_parse_expression(seq![Token::Variable(p), Token::Add, Token::Variable(q)])
                == ParseStep::Parsed(tree, Seq::<Token>::empty()) && spec_render_expression(tree)
                == p@ + seq![' ', '+', ' '] + q@
        }),
{
    reveal_with_fuel(spec_tokens_of_expression, 3);
    reveal_with_fuel(spec_tokens_of_m_expression, 3);
    reveal_with_fuel(spec_tokens_of_atom, 3);
    reveal_with_fuel(spec_additive_expression, 3);
    reveal_with_fuel(spec_additive_m_expression, 3);
    reveal_with_fuel(spec_additive_atom, 3);
    reveal_with_fuel(spec_render_expression, 3);
    reveal_with_fuel(spec_render_m_expression, 3);
    reveal_with_fuel(spec_render_atom, 3);
    let bare_q = Expression::MExpression(MExpression::Atoms(Atom::Variable(q)));
    assert(spec_tokens_of_expression(bare_q) =~= seq![Token::Variable(q)]);
    assert(spec_additive_expression(bare_q));
    let tree = Expression::Add(MExpression::Atoms(Atom::Variable(p)), Box::new(bare_q));
    assert(spec_tokens_of_expression(tree) =~= seq![
        Token::Variable(p),
        Token::Add,
        Token::Variable(q),
    ]);
    assert(spec_additive_expression(tree));
    lemma_render_parse_fixed_point(tree);
    assert(spec_render_expression(bare_q) == q@);
}

/// Multiplication binds tighter than addition: in `x + y * z` the
/// product is nested inside the sum's right operand.
pub proof fn lemma_multiplication_binds_tighter(x: i64, y: i64, z: i64)
    ensures
        spec_parse_expression(
            seq![
                Token::Integer(x),
                Token::Add,
                Token::Integer(y),
                Token::Multiply,
                Token::Integer(z),
            ],
        ) == ParseStep::Parsed(
            Expression::Add(
                MExpression::Atoms(Atom::Integer(x)),
                Box::new(
                    Expression::MExpression(
                        MExpression::Multiply(
                            Atom::Integer(y),
                            Box::new(MExpression::Atoms(Atom::Integer(z))),
                        ),
                    ),
                ),
            ),
            Seq::<Token>::empty(),
        ),
{
    reveal_with_fuel(spec_parse_expression, 5);
    reveal_with_fuel(spec_parse_m_expression, 5);
    reveal_with_fuel(spec_parse_m_tail, 5);
    reveal_with_fuel(spec_parse_atom, 5);
    let s = seq![
        Token::Integer(x),
        Token::Add,
        Token::Integer(y),
        Token::Multiply,
        Token::Integer(z),
    ];
    let s1 = seq![Token::Add, Token::Integer(y), Token::Multiply, Token::Integer(z)];
    let s2 = seq![Token::Integer(y), Token::Multiply, Token::Integer(z)];
    let s3 = seq![Token::Multiply, Token::Integer(z)];
    let s4 = seq![Token::Integer(z)];
    assert(s.drop_first() =~= s1);
    assert(s1.drop_first() =~= s2);
    assert(s2.drop_first() =~= s3);
    assert(s3.drop_first() =~= s4);
    assert(s4.drop_first() =~= Seq::<Token>::empty());
    assert(spec_parse_atom(s) == ParseStep::Parsed(Atom::Integer(x), s1));
    assert(spec_parse_atom(s1) == ParseStep::<Atom>::Failed(s1));
    assert(spec_parse_m_tail(Atom::Integer(x), s1) == ParseStep::Parsed(
        MExpression::Atoms(Atom::Integer(x)),
        s1,
    ));
    assert(spec_parse_m_expression(s) == ParseStep::Parsed(
        MExpression::Atoms(Atom::Integer(x)),
        s1,
    ));
    assert(spec_parse_m_expression(s4) == ParseStep::Parsed(
        MExpression::Atoms(Atom::Integer(z)),
        Seq::<Token>::empty(),
    ));
    assert(spec_parse_m_expression(s2) == ParseStep::Parsed(
        MExpression::Multiply(Atom::Integer(y), Box::new(MExpression::Atoms(Atom::Integer(z)))),
        Seq::<Token>::empty(),
    ));
    assert(spec_parse_expression(s2) == ParseStep::Parsed(
        Expression::MExpression(
            MExpression::Multiply(
                Atom::Integer(y),
                Box::new(MExpression::Atoms(Atom::Integer(z))),
            ),
        ),
        Seq::<Token>::empty(),
    ));
}

/// A parenthesized sum is one atom: in `(x + y) * z` the whole group
/// stands as the product's left operand.
pub proof fn lemma_parenthesized_group_is_one_atom(x: i64, y: i64, z: i64)
    ensures
        spec_parse_expression(
            seq![
                Token::LeftParenthesis,
                Token::Integer(x),
                Token::Add,
                Token::Integer(y),
                Token::RightParenthesis,
                Token::Multiply,
                Token::Integer(z),
            ],
        ) == ParseStep::Parsed(
            Expression::MExpression(
                MExpression::Multiply(
                    Atom::Expression(
                        Box::new(
                            Expression::Add(
                                MExpression::Atoms(Atom::Integer(x)),
                                Box::new(
                                    Expression::MExpression(
                                        MExpression::Atoms(Atom::Integer(y)),
                                    ),
                                ),
                            ),
                        ),
                    ),
                    Box::new(MExpression::Atoms(Atom::Integer(z))),
                ),
            ),
            Seq::<Token>::empty(),
        ),
{
    reveal_with_fuel(spec_parse_expression, 5);
    reveal_with_fuel(spec_parse_m_expression, 5);
    reveal_with_fuel(spec_parse_m_tail, 5);
    reveal_with_fuel(spec_parse_atom, 5);
    reveal_with_fuel(spec_tokens_of_expression, 3);
    reveal_with_fuel(spec_tokens_of_m_expression, 3);
    reveal_with_fuel(spec_tokens_of_atom, 3);
    reveal_with_fuel(spec_additive_expression, 3);
    reveal_with_fuel(spec_additive_m_expression, 3);
    reveal_with_fuel(spec_additive_atom, 3);
    let bare_y = Expression::MExpression(MExpression::Atoms(Atom::Integer(y)));
    assert(spec_tokens_of_expression(bare_y) =~= seq![Token::Integer(y)]);
    assert(spec_additive_expression(bare_y));
    let sum = Expression::Add(MExpression::Atoms(Atom::Integer(x)), Box::new(bare_y));
    assert(spec_tokens_of_expression(sum) =~= seq![
        Token::Integer(x),
        Token::Add,
        Token::Integer(y),
    ]);
    assert(spec_additive_expression(sum));
    let after_sum = seq![Token::RightParenthesis, Token::Multiply, Token::Integer(z)];
    lemma_expression_round_trip(sum, after_sum);
    let s = seq![
        Token::LeftParenthesis,
        Token::Integer(x),
        Token::Add,
        Token::Integer(y),
        Token::RightParenthesis,
        Token::Multiply,
        Token::Integer(z),
    ];
    assert(s.drop_first() =~= spec_tokens_of_expression(sum) + after_sum);
    let s3 = seq![Token::Multiply, Token::Integer(z)];
    let s4 = seq![Token::Integer(z)];
    assert(after_sum.drop_first() =~= s3);
    assert(s3.drop_first() =~= s4);
    assert(s4.drop_first() =~= Seq::<Token>::empty());
    let group = Atom::Expression(Box::new(sum));
    assert(spec_parse_atom(s) == ParseStep::Parsed(group, s3));
    assert(spec_parse_m_expression(s4) == ParseStep::Parsed(
        MExpression::Atoms(Atom::Integer(z)),
        Seq::<Token>::empty(),
    ));
    assert(spec_parse_m_tail(group, s3) == ParseStep::Parsed(
        MExpression::Multiply(group, Box::new(MExpression::Atoms(Atom::Integer(z)))),
        Seq::<Token>::empty(),
    ));
}

/// Juxtaposition multiplies: two atoms with no operator token between
/// them are joined as a product, because the multiplicative rule's
/// speculative retry succeeds on the second atom.
pub proof fn lemma_juxtaposition_multiplies(a: i64, b: i64)
    ensures
        spec_parse_expression(seq![Token::Integer(a), Token::Integer(b)]) == ParseStep::Parsed(
            Expression::MExpression(
                MExpression::Multiply(
                    Atom::Integer(a),
                    Box::new(MExpression::Atoms(Atom::Integer(b))),
                ),
            ),
            Seq::<Token>::empty(),
        ),
{
    reveal_with_fuel(spec_parse_expression, 5);
    reveal_with_fuel(spec_parse_m_expression, 5);
    reveal_with_fuel(spec_parse_m_tail, 5);
    reveal_with_fuel(spec_parse_atom, 5);
    let s = seq![Token::Integer(a), Token::Integer(b)];
    let s1 = seq![Token::Integer(b)];
    assert(s.drop_first() =~= s1);
    assert(s1.drop_first() =~= Seq::<Token>::empty());
    assert(spec_parse_atom(s) == ParseStep::Parsed(Atom::Integer(a), s1));
    assert(spec_parse_m_expression(s1) == ParseStep::Parsed(
        MExpression::Atoms(Atom::Integer(b)),
        Seq::<Token>::empty(),
    ));
    assert(spec_parse_m_tail(Atom::Integer(a), s1) == ParseStep::Parsed(
        MExpression::Multiply(Atom::Integer(a), Box::new(MExpression::Atoms(Atom::Integer(b)))),
        Seq::<Token>::empty(),
    ));
}

} // verus!

