use vstd::prelude::*;

verus! {

/// A program: its statements in source order.
#[derive(Debug, PartialEq)]
pub struct Ast {
    pub statements: Vec<AstStatement>,
}

#[derive(Debug, PartialEq)]
pub struct AstStatement {
    pub kind: AstStatementKind,
}

#[derive(Debug, PartialEq)]
pub enum AstStatementKind {
    Expression(AstExpression),
}

#[derive(Debug, PartialEq)]
pub struct AstExpression {
    pub kind: AstExpressionKind,
}

#[derive(Debug, PartialEq)]
pub enum AstExpressionKind {
    Number(i64),
    Binary(AstBinaryExpression),
    Parenthesized(AstParenthesizedExpression),
}

/// A group written in parentheses; it evaluates to its inner expression.
#[derive(Debug, PartialEq)]
pub struct AstParenthesizedExpression {
    pub expression: Box<AstExpression>,
}

#[derive(Debug, PartialEq)]
pub struct AstBinaryExpression {
    pub left: Box<AstExpression>,
    pub right: Box<AstExpression>,
    pub operator: AstBinaryOperator,
}

#[derive(Debug, PartialEq, Eq, Clone, Copy, Structural)]
pub struct AstBinaryOperator {
    pub kind: AstBinaryOperatorKind,
    pub precedence: u8,
}

#[derive(Debug, PartialEq, Eq, Clone, Copy, Structural)]
pub enum AstBinaryOperatorKind {
    Add,
    Subtract,
    Multiply,
    Divide,
}

/// An integer literal, as handed to a traversal.
#[derive(Debug, PartialEq, Eq, Clone, Copy, Structural)]
pub struct AstNumberExpression {
    pub value: i64,
}

pub open spec fn spec_number(value: i64) -> AstExpression {
    AstExpression { kind: AstExpressionKind::Number(value) }
}

pub open spec fn spec_binary(
    left: AstExpression,
    right: AstExpression,
    operator: AstBinaryOperator,
) -> AstExpression {
    AstExpression {
        kind: AstExpressionKind::Binary(
            AstBinaryExpression { left: Box::new(left), right: Box::new(right), operator },
        ),
    }
}

pub open spec fn spec_parenthesized(inner: AstExpression) -> AstExpression {
    AstExpression {
        kind: AstExpressionKind::Parenthesized(
            AstParenthesizedExpression { expression: Box::new(inner) },
        ),
    }
}

pub open spec fn spec_statement(e: AstExpression) -> AstStatement {
    AstStatement { kind: AstStatementKind::Expression(e) }
}

impl Ast {
    pub fn new() -> (r: Self)
        ensures
            r.statements@ == Seq::<AstStatement>::empty(),
    {
        Ast { statements: Vec::new() }
    }

    /// Appends a statement after the existing ones.
    pub fn add_statement(&mut self, statement: AstStatement)
        ensures
            final(self).statements@ == old(self).statements@.push(statement),
    {
        self.statements.push(statement);
    }
}

impl AstStatement {
    pub fn new(kind: AstStatementKind) -> (r: Self)
        ensures
            r.kind == kind,
    {
        AstStatement { kind }
    }
}

impl AstBinaryOperator {
    pub fn new(kind: AstBinaryOperatorKind, precedence: u8) -> (r: Self)
        ensures
            r.kind == kind,
            r.precedence == precedence,
    {
        AstBinaryOperator { kind, precedence }
    }
}

impl AstExpression {
    pub fn new(kind: AstExpressionKind) -> (r: Self)
        ensures
            r.kind == kind,
    {
        AstExpression { kind }
    }

    pub fn number(value: i64) -> (r: Self)
        ensures
            r == spec_number(value),
    {
        AstExpression { kind: AstExpressionKind::Number(value) }
    }

    pub fn binary(left: AstExpression, right: AstExpression, operator: AstBinaryOperator) -> (r:
        Self)
        ensures
            r == spec_binary(left, right, operator),
    {
        AstExpression {
            kind: AstExpressionKind::Binary(
                AstBinaryExpression { left: Box::new(left), right: Box::new(right), operator },
            ),
        }
    }

    pub fn parenthesized(expression: AstExpression) -> (r: Self)
        ensures
            r == spec_parenthesized(expression),
    {
        AstExpression {
            kind: AstExpressionKind::Parenthesized(
                AstParenthesizedExpression { expression: Box::new(expression) },
            ),
        }
    }
}

} // verus!
