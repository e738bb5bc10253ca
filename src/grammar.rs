use vstd::prelude::*;

use crate::ast::{AstBinaryOperator, AstExpression, spec_binary, spec_number, spec_parenthesized};
use crate::lexer::AstTokenKind;
use crate::parser::{operator_at, parse_binary, parse_operators, parse_primary, ParseError, Parsed};

verus! {

/// A `+` or `-` at token `q`.
pub open spec fn additive_at(ks: Seq<AstTokenKind>, q: int) -> Option<AstBinaryOperator> {
    match operator_at(ks, q) {
        Some(op) => if op.precedence == 1 {
            Some(op)
        } else {
            None
        },
        None => None,
    }
}

/// A `*` or `/` at token `q`.
pub open spec fn multiplicative_at(ks: Seq<AstTokenKind>, q: int) -> Option<AstBinaryOperator> {
    match operator_at(ks, q) {
        Some(op) => if op.precedence == 2 {
            Some(op)
        } else {
            None
        },
        None => None,
    }
}

/// factor := number | `(` expression `)`
pub open spec fn grammar_factor(ks: Seq<AstTokenKind>, p: int) -> Parsed<AstExpression>
    decreases ks.len() - p, 0int,
{
    if 0 <= p < ks.len() {
        match ks[p] {
            AstTokenKind::Number(v) => Ok((spec_number(v), p + 1)),
            AstTokenKind::LParen => match grammar_expression(ks, p + 1) {
                Ok((inner, q)) => if 0 <= q < ks.len() && ks[q] is RParen {
                    Ok((spec_parenthesized(inner), q + 1))
                } else {
                    Err(ParseError::UnterminatedGroup(p as usize))
                },
                Err(e) => Err(e),
            },
            _ => Err(ParseError::UnexpectedToken(p as usize)),
        }
    } else {
        Err(ParseError::UnexpectedToken(p as usize))
    }
}

/// term := factor | factor (`*` | `/`) term
pub open spec fn grammar_term(ks: Seq<AstTokenKind>, p: int) -> Parsed<AstExpression>
    decreases ks.len() - p, 1int,
{
    match grammar_factor(ks, p) {
        Ok((f, q)) => if p < q <= ks.len() {
            match multiplicative_at(ks, q) {
                None => Ok((f, q)),
                Some(op) => match grammar_term(ks, q + 1) {
                    Ok((t, q2)) => Ok((spec_binary(f, t, op), q2)),
                    Err(e) => Err(e),
                },
            }
        } else {
            Err(ParseError::UnexpectedToken(p as usize))
        },
        Err(e) => Err(e),
    }
}

/// expression := term | term (`+` | `-`) expression
pub open spec fn grammar_expression(ks: Seq<AstTokenKind>, p: int) -> Parsed<AstExpression>
    decreases ks.len() - p, 2int,
{
    match grammar_term(ks, p) {
        Ok((t, q)) => if p < q <= ks.len() {
            match additive_at(ks, q) {
                None => Ok((t, q)),
                Some(op) => match grammar_expression(ks, q + 1) {
                    Ok((e, q2)) => Ok((spec_binary(t, e, op), q2)),
                    Err(x) => Err(x),
                },
            }
        } else {
            Err(ParseError::UnexpectedToken(p as usize))
        },
        Err(e) => Err(e),
    }
}

/// Where the operator loop stops: it has moved forward, and what follows
/// binds more loosely than `min`.
proof fn lemma_operators_stop(ks: Seq<AstTokenKind>, left: AstExpression, q: int, min: u8)
    requires
        0 <= q <= ks.len(),
    ensures
        parse_operators(ks, left, q, min) matches Ok((e, q2)) ==> {
            &&& q <= q2 <= ks.len()
            &&& operator_at(ks, q2) matches Some(op) ==> op.precedence < min
        },
    decreases ks.len() - q,
{
    if let Some(op) = operator_at(ks, q) {
        if op.precedence >= min {
            if let Ok((right, q2)) = parse_binary(ks, q + 1, op.precedence) {
                if q < q2 <= ks.len() {
                    lemma_operators_stop(ks, spec_binary(left, right, op), q2, min);
                }
            }
        }
    }
}

pub(crate) proof fn lemma_binary_progress(ks: Seq<AstTokenKind>, p: int)
    ensures
        parse_binary(ks, p, 0) matches Ok((e, q)) ==> p < q <= ks.len(),
{
    lemma_binary_stop(ks, p, 0);
}

proof fn lemma_binary_stop(ks: Seq<AstTokenKind>, p: int, min: u8)
    ensures
        parse_binary(ks, p, min) matches Ok((e, q)) ==> {
            &&& p < q <= ks.len()
            &&& operator_at(ks, q) matches Some(op) ==> op.precedence < min
        },
{
    if let Ok((left, q)) = parse_primary(ks, p) {
        if p < q <= ks.len() {
            lemma_operators_stop(ks, left, q, min);
        }
    }
}

/// Every operator binds at least at level one, so a floor of zero or one
/// makes no difference.
proof fn lemma_operators_floor(ks: Seq<AstTokenKind>, left: AstExpression, q: int)
    ensures
        parse_operators(ks, left, q, 0) == parse_operators(ks, left, q, 1),
    decreases ks.len() - q,
{
    if let Some(op) = operator_at(ks, q) {
        if let Ok((right, q2)) = parse_binary(ks, q + 1, op.precedence) {
            if q < q2 <= ks.len() {
                lemma_operators_floor(ks, spec_binary(left, right, op), q2);
            }
        }
    }
}

proof fn lemma_binary_floor(ks: Seq<AstTokenKind>, p: int)
    ensures
        parse_binary(ks, p, 0) == parse_binary(ks, p, 1),
{
    if let Ok((left, q)) = parse_primary(ks, p) {
        lemma_operators_floor(ks, left, q);
    }
}

proof fn lemma_levels(ks: Seq<AstTokenKind>, p: int)
    ensures
        parse_primary(ks, p) == grammar_factor(ks, p),
        parse_binary(ks, p, 2) == grammar_term(ks, p),
        parse_binary(ks, p, 1) == grammar_expression(ks, p),
    decreases ks.len() - p,
{
    if 0 <= p < ks.len() {
        if ks[p] is LParen {
            lemma_levels(ks, p + 1);
            lemma_binary_floor(ks, p + 1);
        }
    }
    assert(parse_primary(ks, p) == grammar_factor(ks, p));
    if let Ok((f, q)) = parse_primary(ks, p) {
        if p < q <= ks.len() {
            if let Some(op) = operator_at(ks, q) {
                lemma_levels(ks, q + 1);
                lemma_binary_stop(ks, q + 1, op.precedence);
                if op.precedence == 2 {
                    if let Ok((t, q2)) = parse_binary(ks, q + 1, 2) {
                        let left = spec_binary(f, t, op);
                        assert(parse_operators(ks, left, q2, 2) == Ok::<(AstExpression, int), ParseError>((left, q2)));
                        assert(parse_binary(ks, p, 2) == grammar_term(ks, p));
                        assert(parse_operators(ks, f, q, 1) == parse_operators(ks, left, q2, 1));
                        if let Some(op2) = operator_at(ks, q2) {
                            lemma_levels(ks, q2 + 1);
                            lemma_binary_stop(ks, q2 + 1, 1);
                            if let Ok((e, q3)) = parse_binary(ks, q2 + 1, 1) {
                                let whole = spec_binary(left, e, op2);
                                assert(parse_operators(ks, left, q2, 1) == parse_operators(ks, whole, q3, 1));
                                assert(parse_operators(ks, whole, q3, 1) == Ok::<(AstExpression, int), ParseError>((whole, q3)));
                            }
                        } else {
                            assert(parse_operators(ks, left, q2, 1) == Ok::<(AstExpression, int), ParseError>((left, q2)));
                        }
                        assert(parse_binary(ks, p, 1) == grammar_expression(ks, p));
                    }
                } else {
                    if let Ok((e, q3)) = parse_binary(ks, q + 1, 1) {
                        let whole = spec_binary(f, e, op);
                        assert(parse_operators(ks, whole, q3, 1) == Ok::<(AstExpression, int), ParseError>((whole, q3)));
                    }
                }
            }
        }
    }
}

/// The precedence-climbing parser builds exactly the tree of the grammar
///   expression := term | term (`+` | `-`) expression
///   term       := factor | factor (`*` | `/`) term
///   factor     := number | `(` expression `)`
/// so `*` and `/` bind tighter than `+` and `-`, parentheses override
/// precedence, and a chain of operators of equal precedence groups to the
/// right. It also fails exactly where the grammar fails, with the same error.
pub proof fn parser_follows_grammar(ks: Seq<AstTokenKind>, p: int)
    ensures
        parse_binary(ks, p, 0) == grammar_expression(ks, p),
{
    lemma_binary_floor(ks, p);
    lemma_levels(ks, p);
}

} // verus!
