use vstd::prelude::*;

use crate::ast::{
    spec_binary, spec_number, spec_parenthesized, spec_statement, Ast,
    AstBinaryOperator, AstBinaryOperatorKind, AstExpression, AstStatement, AstStatementKind,
};
use crate::lexer::{AstToken, AstTokenKind};

verus! {

/// Failure to build a tree from tokens. Each carries the index of the token
/// it concerns, so that the caller can report that token's span.
#[derive(Debug, Clone, Copy, PartialEq, Eq, Structural)]
pub enum ParseError {
    /// No expression can start at this token (or the tokens ran out here).
    UnexpectedToken(usize),
    /// The `(` at this index is not closed by a `)`.
    UnterminatedGroup(usize),
}

/// A parsed piece and the index of the first token after it.
pub type Parsed<T> = Result<(T, int), ParseError>;

/// The kinds of a token sequence, which alone decide the parse.
pub open spec fn kinds_of(ts: Seq<AstToken>) -> Seq<AstTokenKind> {
    ts.map_values(|t: AstToken| t.kind)
}

/// The operator that token `p` stands for, if any.
pub open spec fn operator_at(toks: Seq<AstTokenKind>, p: int) -> Option<AstBinaryOperator> {
    if 0 <= p < toks.len() {
        match toks[p] {
            AstTokenKind::Plus => Some(AstBinaryOperator { kind: AstBinaryOperatorKind::Add, precedence: 1 }),
            AstTokenKind::Minus => Some(AstBinaryOperator { kind: AstBinaryOperatorKind::Subtract, precedence: 1 }),
            AstTokenKind::Star => Some(AstBinaryOperator { kind: AstBinaryOperatorKind::Multiply, precedence: 2 }),
            AstTokenKind::Slash => Some(AstBinaryOperator { kind: AstBinaryOperatorKind::Divide, precedence: 2 }),
            _ => None,
        }
    } else {
        None
    }
}

/// A number, or a parenthesized expression, starting at token `p`.
pub open spec fn parse_primary(toks: Seq<AstTokenKind>, p: int) -> Parsed<AstExpression>
    decreases toks.len() - p, 0int,
{
    if 0 <= p < toks.len() {
        match toks[p] {
            AstTokenKind::Number(v) => Ok((spec_number(v), p + 1)),
            AstTokenKind::LParen => match parse_binary(toks, p + 1, 0) {
                Ok((inner, q)) => if 0 <= q < toks.len() && toks[q] is RParen {
                    Ok((spec_parenthesized(inner), q + 1))
                } else {
                    Err(ParseError::UnterminatedGroup(p as usize))
                },
                Err(e) => Err(e),
            },
            _ => Err(ParseError::UnexpectedToken(p as usize)),
        }
    } else {
        Err(ParseError::UnexpectedToken(p as usize))
    }
}

/// Precedence climbing from token `p`: operators binding at least as tightly
/// as `min` are taken in. The right operand of an operator is parsed at that
/// operator's own precedence, so a chain of equal precedence groups to the
/// right: `8-4-2` is `8-(4-2)`. The checks that a sub-parse moved forward
/// only make termination evident; they always hold.
pub open spec fn parse_binary(toks: Seq<AstTokenKind>, p: int, min: u8) -> Parsed<AstExpression>
    decreases toks.len() - p, 1int,
{
    match parse_primary(toks, p) {
        Ok((left, q)) => if p < q <= toks.len() {
            parse_operators(toks, left, q, min)
        } else {
            Err(ParseError::UnexpectedToken(p as usize))
        },
        Err(e) => Err(e),
    }
}

/// The loop of precedence climbing, with `left` built so far and the next
/// token at `q`.
pub open spec fn parse_operators(
    toks: Seq<AstTokenKind>,
    left: AstExpression,
    q: int,
    min: u8,
) -> Parsed<AstExpression>
    decreases toks.len() - q, 2int,
{
    match operator_at(toks, q) {
        None => Ok((left, q)),
        Some(op) => if op.precedence < min {
            Ok((left, q))
        } else {
            match parse_binary(toks, q + 1, op.precedence) {
                Ok((right, q2)) => if q < q2 <= toks.len() {
                    parse_operators(toks, spec_binary(left, right, op), q2, min)
                } else {
                    Err(ParseError::UnexpectedToken(q as usize))
                },
                Err(e) => Err(e),
            }
        },
    }
}

/// One statement from token `p`; none at the end-of-input token or past the
/// last token.
pub open spec fn parse_one_statement(toks: Seq<AstTokenKind>, p: int) -> Result<
    Option<(AstStatement, int)>,
    ParseError,
> {
    if p < 0 || p >= toks.len() || toks[p] is EOF {
        Ok(None)
    } else {
        match parse_binary(toks, p, 0) {
            Ok((e, q)) => Ok(Some((spec_statement(e), q))),
            Err(e) => Err(e),
        }
    }
}

/// All statements from token `p` on.
pub open spec fn parse_program(toks: Seq<AstTokenKind>, p: int) -> Result<Seq<AstStatement>, ParseError>
    decreases toks.len() - p,
{
    match parse_one_statement(toks, p) {
        Ok(None) => Ok(Seq::empty()),
        Ok(Some((st, q))) => if p < q <= toks.len() {
            match parse_program(toks, q) {
                Ok(rest) => Ok(seq![st] + rest),
                Err(e) => Err(e),
            }
        } else {
            Err(ParseError::UnexpectedToken(p as usize))
        },
        Err(e) => Err(e),
    }
}

/// What an expression parser call returned, against the model.
pub open spec fn parsed_as(
    r: Result<AstExpression, ParseError>,
    model: Parsed<AstExpression>,
    start: int,
    end: int,
    len: int,
) -> bool {
    match model {
        Ok((e, q)) => r == Ok::<AstExpression, ParseError>(e) && end == q && start < q <= len,
        Err(x) => r == Err::<AstExpression, ParseError>(x),
    }
}

/// Builds statements from a token sequence, left to right.
pub struct Parser {
    tokens: Vec<AstToken>,
    current: usize,
}

impl Parser {
    pub closed spec fn toks(&self) -> Seq<AstToken> {
        self.tokens@
    }

    /// Index of the next token to read.
    pub closed spec fn cursor(&self) -> int {
        self.current as int
    }

    pub closed spec fn wf(&self) -> bool {
        self.current <= self.tokens@.len()
    }

    pub fn new() -> (r: Self)
        ensures
            r.wf(),
            r.toks() == Seq::<AstToken>::empty(),
            r.cursor() == 0,
    {
        Parser { tokens: Vec::new(), current: 0 }
    }

    pub fn from_tokens(tokens: Vec<AstToken>) -> (r: Self)
        ensures
            r.wf(),
            r.toks() == tokens@,
            r.cursor() == 0,
    {
        Parser { tokens, current: 0 }
    }

    /// The token `offset` places from the cursor, if there is one.
    pub fn peek(&self, offset: isize) -> (r: Option<&AstToken>)
        ensures
            ({
                let i = self.cursor() + offset;
                if 0 <= i < self.toks().len() {
                    r is Some && *(r->0) == self.toks()[i]
                } else {
                    r is None
                }
            }),
    {
        let i: i128 = self.current as i128 + offset as i128;
        if 0 <= i && i < self.tokens.len() as i128 {
            Some(&self.tokens[i as usize])
        } else {
            None
        }
    }

    /// The token under the cursor, if there is one.
    pub fn current(&self) -> (r: Option<&AstToken>)
        ensures
            if 0 <= self.cursor() < self.toks().len() {
                r is Some && *(r->0) == self.toks()[self.cursor()]
            } else {
                r is None
            },
    {
        self.peek(0)
    }

    fn consume(&mut self)
        requires
            old(self).cursor() < old(self).toks().len(),
        ensures
            final(self).toks() == old(self).toks(),
            final(self).cursor() == old(self).cursor() + 1,
    {
        if self.current < self.tokens.len() {
            self.current = self.current + 1;
        }
    }

    /// The operator under the cursor, without consuming it.
    pub fn parse_binary_operator(&self) -> (r: Option<AstBinaryOperator>)
        ensures
            r == operator_at(kinds_of(self.toks()), self.cursor()),
    {
        match self.current() {
            Some(token) => match token.kind {
                AstTokenKind::Plus => Some(AstBinaryOperator::new(AstBinaryOperatorKind::Add, 1)),
                AstTokenKind::Minus => Some(
                    AstBinaryOperator::new(AstBinaryOperatorKind::Subtract, 1),
                ),
                AstTokenKind::Star => Some(
                    AstBinaryOperator::new(AstBinaryOperatorKind::Multiply, 2),
                ),
                AstTokenKind::Slash => Some(
                    AstBinaryOperator::new(AstBinaryOperatorKind::Divide, 2),
                ),
                _ => None,
            },
            None => None,
        }
    }

    /// A number, or an expression in parentheses.
    pub fn parse_primary_expression(&mut self) -> (r: Result<AstExpression, ParseError>)
        requires
            old(self).wf(),
        ensures
            final(self).wf(),
            final(self).toks() == old(self).toks(),
            parsed_as(
                r,
                parse_primary(kinds_of(old(self).toks()), old(self).cursor()),
                old(self).cursor(),
                final(self).cursor(),
                old(self).toks().len() as int,
            ),
        decreases old(self).toks().len() - old(self).cursor(), 0int,
    {
        let start = self.current;
        if start >= self.tokens.len() {
            return Err(ParseError::UnexpectedToken(start));
        }
        match self.tokens[start].kind {
            AstTokenKind::Number(value) => {
                self.consume();
                Ok(AstExpression::number(value))
            },
            AstTokenKind::LParen => {
                self.consume();
                let inner = match self.parse_expression() {
                    Ok(e) => e,
                    Err(e) => return Err(e),
                };
                let close = self.current;
                if close < self.tokens.len() {
                    if let AstTokenKind::RParen = self.tokens[close].kind {
                        self.consume();
                        return Ok(AstExpression::parenthesized(inner));
                    }
                }
                Err(ParseError::UnterminatedGroup(start))
            },
            _ => Err(ParseError::UnexpectedToken(start)),
        }
    }

    /// A whole expression: binary operators of any precedence.
    pub fn parse_expression(&mut self) -> (r: Result<AstExpression, ParseError>)
        requires
            old(self).wf(),
        ensures
            final(self).wf(),
            final(self).toks() == old(self).toks(),
            parsed_as(
                r,
                parse_binary(kinds_of(old(self).toks()), old(self).cursor(), 0),
                old(self).cursor(),
                final(self).cursor(),
                old(self).toks().len() as int,
            ),
        decreases old(self).toks().len() - old(self).cursor(), 2int,
    {
        self.parse_binary_expression(0)
    }

    /// Precedence climbing: see `parse_binary`.
    pub fn parse_binary_expression(&mut self, precedence: u8) -> (r: Result<
        AstExpression,
        ParseError,
    >)
        requires
            old(self).wf(),
        ensures
            final(self).wf(),
            final(self).toks() == old(self).toks(),
            parsed_as(
                r,
                parse_binary(kinds_of(old(self).toks()), old(self).cursor(), precedence),
                old(self).cursor(),
                final(self).cursor(),
                old(self).toks().len() as int,
            ),
        decreases old(self).toks().len() - old(self).cursor(), 1int,
    {
        let ghost ts = self.tokens@;
        let ghost toks = kinds_of(ts);
        let ghost start = self.current as int;
        let mut left = match self.parse_primary_expression() {
            Ok(e) => e,
            Err(e) => return Err(e),
        };
        loop
            invariant
                self.wf(),
                self.tokens@ == ts,
                ts == old(self).toks(),
                toks == kinds_of(ts),
                start == old(self).cursor(),
                start < self.current <= toks.len(),
                parse_binary(toks, start, precedence) == parse_operators(
                    toks,
                    left,
                    self.current as int,
                    precedence,
                ),
            decreases toks.len() - self.current,
        {
            let operator = match self.parse_binary_operator() {
                Some(op) => op,
                None => return Ok(left),
            };
            if operator.precedence < precedence {
                return Ok(left);
            }
            self.consume();
            let right = match self.parse_binary_expression(operator.precedence) {
                Ok(e) => e,
                Err(e) => return Err(e),
            };
            left = AstExpression::binary(left, right, operator);
        }
    }

    /// One statement, or `None` at the end-of-input token or past the last
    /// token. On success the cursor stands after the statement.
    pub fn parse_statement(&mut self) -> (r: Result<Option<AstStatement>, ParseError>)
        requires
            old(self).wf(),
        ensures
            final(self).wf(),
            final(self).toks() == old(self).toks(),
            match parse_one_statement(kinds_of(old(self).toks()), old(self).cursor()) {
                Ok(None) => r == Ok::<Option<AstStatement>, ParseError>(None),
                Ok(Some((st, q))) => {
                    &&& r == Ok::<Option<AstStatement>, ParseError>(Some(st))
                    &&& final(self).cursor() == q
                    &&& old(self).cursor() < q
                },
                Err(x) => r == Err::<Option<AstStatement>, ParseError>(x),
            },
    {
        match self.current() {
            None => return Ok(None),
            Some(token) => {
                if let AstTokenKind::EOF = token.kind {
                    return Ok(None);
                }
            },
        }
        match self.parse_expression() {
            Ok(e) => Ok(Some(AstStatement::new(AstStatementKind::Expression(e)))),
            Err(e) => Err(e),
        }
    }

    /// The next statement of the program; see `parse_statement`.
    pub fn next_statement(&mut self) -> (r: Result<Option<AstStatement>, ParseError>)
        requires
            old(self).wf(),
        ensures
            final(self).wf(),
            final(self).toks() == old(self).toks(),
            match parse_one_statement(kinds_of(old(self).toks()), old(self).cursor()) {
                Ok(None) => r == Ok::<Option<AstStatement>, ParseError>(None),
                Ok(Some((st, q))) => {
                    &&& r == Ok::<Option<AstStatement>, ParseError>(Some(st))
                    &&& final(self).cursor() == q
                    &&& old(self).cursor() < q
                },
                Err(x) => r == Err::<Option<AstStatement>, ParseError>(x),
            },
    {
        self.parse_statement()
    }
}

/// Parses every statement of a token sequence into a program.
pub fn parse(tokens: Vec<AstToken>) -> (r: Result<Ast, ParseError>)
    ensures
        match parse_program(kinds_of(tokens@), 0) {
            Ok(statements) => r matches Ok(ast) && ast.statements@ == statements,
            Err(x) => r == Err::<Ast, ParseError>(x),
        },
{
    let ghost ts = tokens@;
    let ghost toks = kinds_of(ts);
    let mut parser = Parser::from_tokens(tokens);
    let mut ast = Ast::new();
    loop
        invariant
            parser.wf(),
            parser.toks() == ts,
            ts == tokens@,
            toks == kinds_of(ts),
            0 <= parser.cursor() <= toks.len(),
            parse_program(toks, 0) == match parse_program(toks, parser.cursor()) {
                Ok(rest) => Ok(ast.statements@ + rest),
                Err(x) => Err::<Seq<AstStatement>, ParseError>(x),
            },
        decreases toks.len() - parser.cursor(),
    {
        let ghost p = parser.cursor();
        match parser.next_statement() {
            Ok(None) => {
                assert(parse_program(toks, p) == Ok::<Seq<AstStatement>, ParseError>(Seq::empty()));
                assert(ast.statements@ + Seq::<AstStatement>::empty() == ast.statements@);
                return Ok(ast);
            },
            Ok(Some(statement)) => {
                let ghost before = ast.statements@;
                ast.add_statement(statement);
                assert(forall|rest: Seq<AstStatement>|
                    before + (seq![statement] + rest) == ast.statements@ + rest);
            },
            Err(e) => {
                assert(parse_program(toks, p) == Err::<Seq<AstStatement>, ParseError>(e));
                return Err(e);
            },
        }
    }
}

} // verus!
