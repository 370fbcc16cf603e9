//! The parser: a specification-level model of the grammar and the
//! executable recursive-descent functions proved to implement it.
//!
//! The model (`spec_parse_expression` and friends) maps a token
//! sequence to a [`ParseStep`]: the parsed construct together with the
//! tokens left over, an ordinary failure together with the tokens left
//! over, or the fatal unmatched-parenthesis condition.  Each executable
//! function's postcondition says that its result and the final state of
//! the queue are exactly what the model prescribes for the queue's
//! initial state.
//!
//! Lookahead works by popping a token and pushing it back onto the
//! front of the queue when it does not extend the current rule, so the
//! enclosing rule sees it again.

use vstd::prelude::*;

use crate::ast::Atom;
use crate::ast::Expression;
use crate::ast::MExpression;
use crate::token::ParseError;
use crate::token::Token;
use std::collections::VecDeque;

verus! {

/// Outcome of running one grammar rule on a token sequence.
///
/// `Failed` and `Parsed` record the tokens that remain after the
/// attempt; a failed attempt may still have consumed tokens (its caller
/// then continues from wherever it stopped).  `Fatal` is the
/// unmatched-parenthesis condition, which aborts the whole parse, so no
/// remaining sequence is recorded for it.
pub enum ParseStep<T> {
    Fatal,
    Failed(Seq<Token>),
    Parsed(T, Seq<Token>),
}

/// How a rule's outcome shows up at run time: the step the model
/// prescribes for the tokens the rule started from, versus the tokens
/// it left behind and the value it returned.
pub open spec fn step_matches<T>(
    step: ParseStep<T>,
    rest: Seq<Token>,
    r: Result<Option<T>, ParseError>,
) -> bool {
    match step {
        ParseStep::Fatal => r == Err::<Option<T>, ParseError>(ParseError::UnmatchedParenthesis),
        ParseStep::Failed(f) => r == Ok::<Option<T>, ParseError>(None) && rest == f,
        ParseStep::Parsed(t, f) => r == Ok::<Option<T>, ParseError>(Some(t)) && rest == f,
    }
}

/// The atom rule.  An integer or variable token is the atom itself; an
/// opening parenthesis commits to a parenthesized expression, whose
/// closing parenthesis must follow or the parse is fatally broken; any
/// other token is restored and the rule fails without consuming input.
pub open spec fn spec_parse_atom(s: Seq<Token>) -> ParseStep<Atom>
    decreases s.len(), 0int,
{
    if s.len() == 0 {
        ParseStep::Failed(s)
    } else {
        match s[0] {
            Token::Integer(num) => ParseStep::Parsed(Atom::Integer(num), s.drop_first()),
            Token::Variable(var) => ParseStep::Parsed(Atom::Variable(var), s.drop_first()),
            Token::LeftParenthesis => match spec_parse_expression(s.drop_first()) {
                ParseStep::Fatal => ParseStep::Fatal,
                ParseStep::Failed(rest) => ParseStep::Failed(rest),
                ParseStep::Parsed(exp, rest) => {
                    if rest.len() > 0 && rest[0] == Token::RightParenthesis {
                        ParseStep::Parsed(Atom::Expression(Box::new(exp)), rest.drop_first())
                    } else {
                        ParseStep::Fatal
                    }
                },
            },
            _ => ParseStep::Failed(s),
        }
    }
}

/// The multiplicative rule.  It parses an atom and hands it to
/// [`spec_parse_m_tail`].  The branch on the atom's consumption exists
/// only for the termination measure; [`lemma_parse_consumes`] shows
/// that a parsed atom always consumes a token, so the `Fatal` arm is
/// never taken.
pub open spec fn spec_parse_m_expression(s: Seq<Token>) -> ParseStep<MExpression>
    decreases s.len(), 1int,
{
    match spec_parse_atom(s) {
        ParseStep::Fatal => ParseStep::Fatal,
        ParseStep::Failed(rest) => ParseStep::Failed(rest),
        ParseStep::Parsed(atom, rest) => {
            if rest.len() < s.len() {
                spec_parse_m_tail(atom, rest)
            } else {
                ParseStep::Fatal
            }
        },
    }
}

/// What follows the left atom of a multiplicative expression.  An
/// explicit `*` or `/` demands a multiplicative right operand.  Any
/// other token is restored and the rule speculatively retries a full
/// multiplicative parse: if that succeeds the two parts are joined as a
/// multiplication (juxtaposition acts as an implicit `*`), and if it
/// fails the atom stands alone, the retry's leftover tokens remaining.
pub open spec fn spec_parse_m_tail(atom: Atom, s: Seq<Token>) -> ParseStep<MExpression>
    decreases s.len(), 2int,
{
    if s.len() == 0 {
        ParseStep::Parsed(MExpression::Atoms(atom), s)
    } else {
        match s[0] {
            Token::Multiply => match spec_parse_m_expression(s.drop_first()) {
                ParseStep::Fatal => ParseStep::Fatal,
                ParseStep::Failed(rest) => ParseStep::Failed(rest),
                ParseStep::Parsed(exp, rest) => ParseStep::Parsed(
                    MExpression::Multiply(atom, Box::new(exp)),
                    rest,
                ),
            },
            Token::Divide => match spec_parse_m_expression(s.drop_first()) {
                ParseStep::Fatal => ParseStep::Fatal,
                ParseStep::Failed(rest) => ParseStep::Failed(rest),
                ParseStep::Parsed(exp, rest) => ParseStep::Parsed(
                    MExpression::Divide(atom, Box::new(exp)),
                    rest,
                ),
            },
            _ => match spec_parse_m_expression(s) {
                ParseStep::Fatal => ParseStep::Fatal,
                ParseStep::Failed(rest) => ParseStep::Parsed(MExpression::Atoms(atom), rest),
                ParseStep::Parsed(exp, rest) => ParseStep::Parsed(
                    MExpression::Multiply(atom, Box::new(exp)),
                    rest,
                ),
            },
        }
    }
}

/// The additive rule.  It parses a multiplicative expression; an
/// explicit `+` or `-` then demands an additive right operand (a
/// dangling operator fails the whole rule), and any other token is
/// restored, the multiplicative expression standing alone.  As in
/// [`spec_parse_m_expression`], the consumption branch serves only the
/// termination measure and its `Fatal` arm is never taken.
pub open spec fn spec_parse_expression(s: Seq<Token>) -> ParseStep<Expression>
    decreases s.len(), 3int,
{
    match spec_parse_m_expression(s) {
        ParseStep::Fatal => ParseStep::Fatal,
        ParseStep::Failed(rest) => ParseStep::Failed(rest),
        ParseStep::Parsed(exp1, rest) => {
            if rest.len() == 0 {
                ParseStep::Parsed(Expression::MExpression(exp1), rest)
            } else if rest.len() < s.len() {
                match rest[0] {
                    Token::Add => match spec_parse_expression(rest.drop_first()) {
                        ParseStep::Fatal => ParseStep::Fatal,
                        ParseStep::Failed(rest2) => ParseStep::Failed(rest2),
                        ParseStep::Parsed(exp2, rest2) => ParseStep::Parsed(
                            Expression::Add(exp1, Box::new(exp2)),
                            rest2,
                        ),
                    },
                    Token::Subtract => match spec_parse_expression(rest.drop_first()) {
                        ParseStep::Fatal => ParseStep::Fatal,
                        ParseStep::Failed(rest2) => ParseStep::Failed(rest2),
                        ParseStep::Parsed(exp2, rest2) => ParseStep::Parsed(
                            Expression::Subtract(exp1, Box::new(exp2)),
                            rest2,
                        ),
                    },
                    _ => ParseStep::Parsed(Expression::MExpression(exp1), rest),
                }
            } else {
                ParseStep::Fatal
            }
        },
    }
}

/// No rule ever hands back more tokens than it was given, and a rule
/// that parses its construct consumes at least one token.
pub proof fn lemma_parse_consumes(s: Seq<Token>)
    ensures
        match spec_parse_atom(s) {
            ParseStep::Fatal => true,
            ParseStep::Failed(rest) => rest.len() <= s.len(),
            ParseStep::Parsed(atom, rest) => rest.len() < s.len(),
        },
        match spec_parse_m_expression(s) {
            ParseStep::Fatal => true,
            ParseStep::Failed(rest) => rest.len() <= s.len(),
            ParseStep::Parsed(exp, rest) => rest.len() < s.len(),
        },
        match spec_parse_expression(s) {
            ParseStep::Fatal => true,
            ParseStep::Failed(rest) => rest.len() <= s.len(),
            ParseStep::Parsed(exp, rest) => rest.len() < s.len(),
        },
    decreases s.len(), 1int,
{
    // The atom rule.
    if s.len() > 0 && s[0] is LeftParenthesis {
        lemma_parse_consumes(s.drop_first());
    }
    // The multiplicative rule, from the atom rule's conclusion.
    if let ParseStep::Parsed(atom, rest) = spec_parse_atom(s) {
        lemma_parse_m_tail_consumes(atom, rest);
    }
    // The additive rule, from the multiplicative rule's conclusion.
    if let ParseStep::Parsed(exp1, rest) = spec_parse_m_expression(s) {
        if rest.len() > 0 && (rest[0] is Add || rest[0] is Subtract) {
            lemma_parse_consumes(rest.drop_first());
        }
    }
}

/// The continuation of the multiplicative rule hands back no more
/// tokens than it was given (it may consume none: the lookahead token
/// is restored before the atom is allowed to stand alone).
pub proof fn lemma_parse_m_tail_consumes(atom: Atom, s: Seq<Token>)
    ensures
        match spec_parse_m_tail(atom, s) {
            ParseStep::Fatal => true,
            ParseStep::Failed(rest) => rest.len() <= s.len(),
            ParseStep::Parsed(exp, rest) => rest.len() <= s.len(),
        },
    decreases s.len(), 2int,
{
    if s.len() > 0 {
        if s[0] is Multiply || s[0] is Divide {
            lemma_parse_consumes(s.drop_first());
        } else {
            lemma_parse_consumes(s);
        }
    }
}

/// Parse one atom from the front of the queue.
pub fn parse_atom(stream: &mut VecDeque<Token>) -> (r: Result<Option<Atom>, ParseError>)
    ensures
        step_matches(spec_parse_atom(old(stream)@), final(stream)@, r),
    decreases old(stream)@.len(), 0int,
{
    match stream.pop_front() {
        None => Ok(None),
        Some(token) => match token {
            Token::Integer(num) => Ok(Some(Atom::Integer(num))),
            Token::Variable(var) => Ok(Some(Atom::Variable(var))),
            Token::LeftParenthesis => match parse_expression(stream) {
                Err(fatal) => Err(fatal),
                Ok(None) => Ok(None),
                Ok(Some(exp)) => match stream.pop_front() {
                    Some(Token::RightParenthesis) => Ok(Some(Atom::Expression(Box::new(exp)))),
                    _ => Err(ParseError::UnmatchedParenthesis),
                },
            },
            other => {
                stream.push_front(other);
                proof {
                    assert(stream@ =~= old(stream)@);
                }
                Ok(None)
            },
        },
    }
}

/// Parse one multiplicative expression from the front of the queue.
pub fn parse_m_expression(stream: &mut VecDeque<Token>) -> (r: Result<
    Option<MExpression>,
    ParseError,
>)
    ensures
        step_matches(spec_parse_m_expression(old(stream)@), final(stream)@, r),
    decreases old(stream)@.len(), 1int,
{
    match parse_atom(stream) {
        Err(fatal) => Err(fatal),
        Ok(None) => Ok(None),
        Ok(Some(atom)) => {
            proof {
                lemma_parse_consumes(old(stream)@);
            }
            parse_m_tail(atom, stream)
        },
    }
}

/// Parse what follows the left atom of a multiplicative expression.
fn parse_m_tail(atom: Atom, stream: &mut VecDeque<Token>) -> (r: Result<
    Option<MExpression>,
    ParseError,
>)
    ensures
        step_matches(spec_parse_m_tail(atom, old(stream)@), final(stream)@, r),
    decreases old(stream)@.len(), 2int,
{
    match stream.pop_front() {
        None => Ok(Some(MExpression::Atoms(atom))),
        Some(token) => match token {
            Token::Multiply => match parse_m_expression(stream) {
                Err(fatal) => Err(fatal),
                Ok(None) => Ok(None),
                Ok(Some(exp)) => Ok(Some(MExpression::Multiply(atom, Box::new(exp)))),
            },
            Token::Divide => match parse_m_expression(stream) {
                Err(fatal) => Err(fatal),
                Ok(None) => Ok(None),
                Ok(Some(exp)) => Ok(Some(MExpression::Divide(atom, Box::new(exp)))),
            },
            other => {
                stream.push_front(other);
                proof {
                    assert(stream@ =~= old(stream)@);
                }
                match parse_m_expression(stream) {
                    Err(fatal) => Err(fatal),
                    Ok(None) => Ok(Some(MExpression::Atoms(atom))),
                    Ok(Some(exp)) => Ok(Some(MExpression::Multiply(atom, Box::new(exp)))),
                }
            },
        },
    }
}

/// Parse one additive expression from the front of the queue.
pub fn parse_expression(stream: &mut VecDeque<Token>) -> (r: Result<
    Option<Expression>,
    ParseError,
>)
    ensures
        step_matches(spec_parse_expression(old(stream)@), final(stream)@, r),
    decreases old(stream)@.len(), 3int,
{
    match parse_m_expression(stream) {
        Err(fatal) => Err(fatal),
        Ok(None) => Ok(None),
        Ok(Some(exp1)) => {
            let ghost after_m = stream@;
            proof {
                lemma_parse_consumes(old(stream)@);
            }
            match stream.pop_front() {
                None => Ok(Some(Expression::MExpression(exp1))),
                Some(token) => match token {
                    Token::Add => match parse_expression(stream) {
                        Err(fatal) => Err(fatal),
                        Ok(None) => Ok(None),
                        Ok(Some(exp2)) => Ok(Some(Expression::Add(exp1, Box::new(exp2)))),
                    },
                    Token::Subtract => match parse_expression(stream) {
                        Err(fatal) => Err(fatal),
                        Ok(None) => Ok(None),
                        Ok(Some(exp2)) => Ok(Some(Expression::Subtract(exp1, Box::new(exp2)))),
                    },
                    other => {
                        stream.push_front(other);
                        proof {
                            assert(stream@ =~= after_m);
                        }
                        Ok(Some(Expression::MExpression(exp1)))
                    },
                },
            }
        },
    }
}

/// Parse a whole token sequence: run the additive rule once on it.
///
/// Tokens the expression does not reach are ignored, as the grammar's
/// lookahead leaves them on the queue.  An ordinary failure of the
/// grammar surfaces as `InvalidExpression`; an unmatched opening
/// parenthesis surfaces as `UnmatchedParenthesis`.
pub fn parse_tokens(tokens: Vec<Token>) -> (r: Result<Expression, ParseError>)
    ensures
        match spec_parse_expression(tokens@) {
            ParseStep::Fatal => r == Err::<Expression, ParseError>(
                ParseError::UnmatchedParenthesis,
            ),
            ParseStep::Failed(rest) => r == Err::<Expression, ParseError>(
                ParseError::InvalidExpression,
            ),
            ParseStep::Parsed(exp, rest) => r == Ok::<Expression, ParseError>(exp),
        },
{
    let ghost all = tokens@;
    let mut remaining = tokens;
    let mut queue: VecDeque<Token> = VecDeque::new();
    while remaining.len() > 0
        invariant
            remaining@ + queue@ == all,
        decreases remaining@.len(),
    {
        let token = remaining.pop().unwrap();
        queue.push_front(token);
        proof {
            assert(remaining@ + queue@ =~= all);
        }
    }
    proof {
        assert(queue@ =~= all);
    }
    match parse_expression(&mut queue) {
        Err(fatal) => Err(fatal),
        Ok(None) => Err(ParseError::InvalidExpression),
        Ok(Some(exp)) => Ok(exp),
    }
}

} // verus!
