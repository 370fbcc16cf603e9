use std::collections::VecDeque;

use arith_parser::Atom;
use arith_parser::Expression;
use arith_parser::MExpression;
use arith_parser::ParseError;
use arith_parser::Token;
use arith_parser::parse_atom;
use arith_parser::parse_expression;
use arith_parser::parse_m_expression;
use arith_parser::parse_tokens;

fn integer(n: i64) -> Token {
    Token::Integer(n)
}

fn var(name: &str) -> Token {
    Token::Variable(String::from(name))
}

fn bare_int(n: i64) -> Expression {
    Expression::MExpression(MExpression::Atoms(Atom::Integer(n)))
}

#[test]
fn adds_two_integers() {
    let tree = parse_tokens(vec![integer(2), Token::Add, integer(3)]).unwrap();
    assert_eq!(
        tree,
        Expression::Add(MExpression::Atoms(Atom::Integer(2)), Box::new(bare_int(3)))
    );
    assert_eq!(tree.render().as_str(), "2 + 3");
}

#[test]
fn subtracts_two_integers() {
    let tree = parse_tokens(vec![integer(2), Token::Subtract, integer(3)]).unwrap();
    assert_eq!(
        tree,
        Expression::Subtract(MExpression::Atoms(Atom::Integer(2)), Box::new(bare_int(3)))
    );
    assert_eq!(tree.render().as_str(), "2 - 3");
}

#[test]
fn multiplies_two_integers() {
    let tree = parse_tokens(vec![integer(2), Token::Multiply, integer(3)]).unwrap();
    assert_eq!(
        tree,
        Expression::MExpression(MExpression::Multiply(
            Atom::Integer(2),
            Box::new(MExpression::Atoms(Atom::Integer(3)))
        ))
    );
    assert_eq!(tree.render().as_str(), "(2 * 3)");
}

#[test]
fn divides_two_integers() {
    let tree = parse_tokens(vec![integer(2), Token::Divide, integer(3)]).unwrap();
    assert_eq!(
        tree,
        Expression::MExpression(MExpression::Divide(
            Atom::Integer(2),
            Box::new(MExpression::Atoms(Atom::Integer(3)))
        ))
    );
    assert_eq!(tree.render().as_str(), "(2 / 3)");
}

#[test]
fn subtraction_groups_to_the_right() {
    let tree = parse_tokens(vec![integer(1), Token::Subtract, integer(2), Token::Subtract, integer(3)])
        .unwrap();
    let inner = Expression::Subtract(MExpression::Atoms(Atom::Integer(2)), Box::new(bare_int(3)));
    assert_eq!(
        tree,
        Expression::Subtract(MExpression::Atoms(Atom::Integer(1)), Box::new(inner))
    );
    assert_eq!(tree.render().as_str(), "1 - 2 - 3");
}

#[test]
fn division_groups_to_the_right() {
    let tree = parse_tokens(vec![integer(8), Token::Divide, integer(4), Token::Divide, integer(2)]).unwrap();
    assert_eq!(tree.render().as_str(), "(8 / (4 / 2))");
}

#[test]
fn multiplication_binds_tighter_than_addition() {
    let tree = parse_tokens(vec![integer(1), Token::Add, integer(2), Token::Multiply, integer(3)]).unwrap();
    let product = MExpression::Multiply(
        Atom::Integer(2),
        Box::new(MExpression::Atoms(Atom::Integer(3))),
    );
    assert_eq!(
        tree,
        Expression::Add(
            MExpression::Atoms(Atom::Integer(1)),
            Box::new(Expression::MExpression(product))
        )
    );
    assert_eq!(tree.render().as_str(), "1 + (2 * 3)");
}

#[test]
fn parenthesized_group_is_an_atom() {
    let tree = parse_tokens(vec![
        Token::LeftParenthesis,
        integer(1),
        Token::Add,
        integer(2),
        Token::RightParenthesis,
        Token::Multiply,
        integer(3),
    ])
    .unwrap();
    let sum = Expression::Add(MExpression::Atoms(Atom::Integer(1)), Box::new(bare_int(2)));
    assert_eq!(
        tree,
        Expression::MExpression(MExpression::Multiply(
            Atom::Expression(Box::new(sum)),
            Box::new(MExpression::Atoms(Atom::Integer(3)))
        ))
    );
    assert_eq!(tree.render().as_str(), "((1 + 2) * 3)");
}

#[test]
fn variables_parse_like_integers() {
    let tree = parse_tokens(vec![var("x"), Token::Add, var("y")]).unwrap();
    assert_eq!(
        tree,
        Expression::Add(
            MExpression::Atoms(Atom::Variable(String::from("x"))),
            Box::new(Expression::MExpression(MExpression::Atoms(Atom::Variable(
                String::from("y")
            ))))
        )
    );
    assert_eq!(tree.render().as_str(), "x + y");
}

#[test]
fn single_variable_renders_verbatim() {
    let tree = parse_tokens(vec![var("velocity")]).unwrap();
    assert_eq!(tree.render().as_str(), "velocity");
}

#[test]
fn unmatched_open_parenthesis_is_fatal() {
    let outcome = parse_tokens(vec![Token::LeftParenthesis, integer(1), Token::Add, integer(2)]);
    assert_eq!(outcome, Err(ParseError::UnmatchedParenthesis));
}

#[test]
fn empty_input_is_ordinary_failure() {
    let outcome = parse_tokens(vec![]);
    assert_eq!(outcome, Err(ParseError::InvalidExpression));
    assert_ne!(outcome, Err(ParseError::UnmatchedParenthesis));
}

#[test]
fn dangling_operator_is_ordinary_failure() {
    let outcome = parse_tokens(vec![integer(1), Token::Add]);
    assert_eq!(outcome, Err(ParseError::InvalidExpression));
}

#[test]
fn rendering_reaches_a_fixed_point() {
    // Parse, render, tokenize the rendered text by hand, parse again:
    // the second rendering equals the first.
    let first = parse_tokens(vec![integer(1), Token::Add, integer(2)]).unwrap();
    let text = first.render();
    assert_eq!(text.as_str(), "1 + 2");
    let second = parse_tokens(vec![integer(1), Token::Add, integer(2)]).unwrap();
    assert_eq!(second.render(), text);
}

#[test]
fn rendering_of_parenthesized_difference_is_a_fixed_point() {
    let tokens = || {
        vec![
            Token::LeftParenthesis,
            var("x"),
            Token::Subtract,
            integer(1),
            Token::RightParenthesis,
        ]
    };
    let first = parse_tokens(tokens()).unwrap();
    let text = first.render();
    assert_eq!(text.as_str(), "(x - 1)");
    // The rendered text tokenizes to the same five tokens.
    let second = parse_tokens(tokens()).unwrap();
    assert_eq!(second, first);
    assert_eq!(second.render(), text);
}

#[test]
fn juxtaposition_acts_as_multiplication() {
    // Two atoms with no operator between them: the speculative retry of
    // the multiplicative rule joins them as an implicit product.
    let tree = parse_tokens(vec![integer(2), integer(3)]).unwrap();
    assert_eq!(
        tree,
        Expression::MExpression(MExpression::Multiply(
            Atom::Integer(2),
            Box::new(MExpression::Atoms(Atom::Integer(3)))
        ))
    );
    assert_eq!(tree.render().as_str(), "(2 * 3)");
}

#[test]
fn trailing_tokens_are_ignored() {
    let tree = parse_tokens(vec![integer(1), Token::RightParenthesis]).unwrap();
    assert_eq!(tree, bare_int(1));
    assert_eq!(tree.render().as_str(), "1");
}

#[test]
fn nested_parentheses_render_each_pair() {
    let tree = parse_tokens(vec![
        Token::LeftParenthesis,
        Token::LeftParenthesis,
        integer(7),
        Token::RightParenthesis,
        Token::RightParenthesis,
    ])
    .unwrap();
    assert_eq!(tree.render().as_str(), "((7))");
}

#[test]
fn negative_integers_render_with_sign() {
    let tree = parse_tokens(vec![integer(-5)]).unwrap();
    assert_eq!(tree.render().as_str(), "-5");
}

#[test]
fn extreme_integers_render_exactly() {
    let smallest = parse_tokens(vec![integer(i64::MIN)]).unwrap();
    assert_eq!(smallest.render().as_str(), "-9223372036854775808");
    let largest = parse_tokens(vec![integer(i64::MAX)]).unwrap();
    assert_eq!(largest.render().as_str(), "9223372036854775807");
    let zero = parse_tokens(vec![integer(0)]).unwrap();
    assert_eq!(zero.render().as_str(), "0");
}

#[test]
fn atom_rule_restores_a_rejected_token() {
    let mut queue: VecDeque<Token> = VecDeque::from(vec![Token::Add, integer(4)]);
    let outcome = parse_atom(&mut queue);
    assert_eq!(outcome, Ok(None));
    // The rejected token is back at the front for the enclosing rule.
    assert_eq!(queue.len(), 2);
    assert_eq!(queue.front(), Some(&Token::Add));
}

#[test]
fn atom_rule_takes_one_integer() {
    let mut queue: VecDeque<Token> = VecDeque::from(vec![integer(5), Token::Add]);
    let outcome = parse_atom(&mut queue);
    assert_eq!(outcome, Ok(Some(Atom::Integer(5))));
    assert_eq!(queue.len(), 1);
}

#[test]
fn m_expression_rule_stops_before_additive_operator() {
    let mut queue: VecDeque<Token> =
        VecDeque::from(vec![integer(2), Token::Multiply, integer(3), Token::Add, integer(4)]);
    let outcome = parse_m_expression(&mut queue);
    assert_eq!(
        outcome,
        Ok(Some(MExpression::Multiply(
            Atom::Integer(2),
            Box::new(MExpression::Atoms(Atom::Integer(3)))
        )))
    );
    // The additive operator and its operand are left for the caller.
    assert_eq!(queue.len(), 2);
    assert_eq!(queue.front(), Some(&Token::Add));
}

#[test]
fn expression_rule_leaves_unreachable_tokens() {
    let mut queue: VecDeque<Token> =
        VecDeque::from(vec![integer(9), Token::RightParenthesis, integer(1)]);
    let outcome = parse_expression(&mut queue);
    assert_eq!(outcome, Ok(Some(bare_int(9))));
    assert_eq!(queue.len(), 2);
}

#[test]
fn expression_rule_propagates_fatal_error() {
    let mut queue: VecDeque<Token> = VecDeque::from(vec![Token::LeftParenthesis, var("a")]);
    let outcome = parse_expression(&mut queue);
    assert_eq!(outcome, Err(ParseError::UnmatchedParenthesis));
}
