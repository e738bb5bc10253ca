use vstd::prelude::*;

use crate::ast::{
    Ast, AstBinaryExpression, AstBinaryOperatorKind, AstExpression, AstExpressionKind,
    AstNumberExpression, AstParenthesizedExpression, AstStatement, AstStatementKind,
};

verus! {

/// Failure to compute the value of a tree.
#[derive(Debug, Clone, Copy, PartialEq, Eq, Structural)]
pub enum EvalError {
    /// The right operand of `/` is zero.
    DivisionByZero,
    /// A sum, difference, product or quotient falls outside the `i64` range.
    Overflow,
}

/// Integer division rounding toward zero, as Rust's `/` does; `d != 0`.
pub open spec fn trunc_div(x: int, d: int) -> int {
    if x == 0 {
        0
    } else if x > 0 && d > 0 {
        x / d
    } else if x < 0 && d < 0 {
        (-x) / (-d)
    } else if x < 0 {
        -((-x) / d)
    } else {
        -(x / (-d))
    }
}

/// `v` as an `i64`, or an overflow where it does not fit.
pub open spec fn checked(v: int) -> Result<i64, EvalError> {
    if i64::MIN <= v <= i64::MAX {
        Ok(v as i64)
    } else {
        Err(EvalError::Overflow)
    }
}

/// The value of one operator on two operands.
pub open spec fn apply_operator(kind: AstBinaryOperatorKind, l: i64, r: i64) -> Result<
    i64,
    EvalError,
> {
    match kind {
        AstBinaryOperatorKind::Add => checked(l + r),
        AstBinaryOperatorKind::Subtract => checked(l - r),
        AstBinaryOperatorKind::Multiply => checked(l * r),
        AstBinaryOperatorKind::Divide => if r == 0 {
            Err(EvalError::DivisionByZero)
        } else {
            checked(trunc_div(l as int, r as int))
        },
    }
}

/// The value of an expression: left operand first, then right; the first
/// error met is the result.
pub open spec fn eval_expression(e: AstExpression) -> Result<i64, EvalError>
    decreases e,
{
    match e.kind {
        AstExpressionKind::Number(v) => Ok(v),
        AstExpressionKind::Parenthesized(p) => eval_expression(*p.expression),
        AstExpressionKind::Binary(b) => match eval_expression(*b.left) {
            Err(x) => Err(x),
            Ok(l) => match eval_expression(*b.right) {
                Err(x) => Err(x),
                Ok(r) => apply_operator(b.operator.kind, l, r),
            },
        },
    }
}

pub open spec fn eval_statement(s: AstStatement) -> Result<i64, EvalError> {
    match s.kind {
        AstStatementKind::Expression(e) => eval_expression(e),
    }
}

/// Evaluates statements in order; the result is the value of the last one,
/// or `last` where there are none.
pub open spec fn eval_statements(ss: Seq<AstStatement>, last: i64) -> Result<i64, EvalError>
    decreases ss.len(),
{
    if ss.len() == 0 {
        Ok(last)
    } else {
        match eval_statement(ss[0]) {
            Ok(v) => eval_statements(ss.drop_first(), v),
            Err(x) => Err(x),
        }
    }
}

/// Folds a tree into a single integer.
pub struct Evaluator {
    pub value: i64,
}

impl Evaluator {
    pub fn new() -> (r: Self)
        ensures
            r.value == 0,
    {
        Evaluator { value: 0 }
    }

    /// The value of the program's last statement (the previous value where
    /// it has none), or the first error met.
    pub fn evaluate(&mut self, ast: &Ast) -> (r: Result<i64, EvalError>)
        ensures
            r == eval_statements(ast.statements@, old(self).value),
            r matches Ok(v) ==> final(self).value == v,
    {
        let ghost ss = ast.statements@;
        let mut i: usize = 0;
        assert(ss.skip(0) == ss);
        while i < ast.statements.len()
            invariant
                ss == ast.statements@,
                i <= ss.len(),
                eval_statements(ss, old(self).value) == eval_statements(
                    ss.skip(i as int),
                    self.value,
                ),
            decreases ss.len() - i,
        {
            match self.visit_statement(&ast.statements[i]) {
                Ok(v) => {
                    assert(ss.skip(i as int).drop_first() == ss.skip(i + 1));
                    self.value = v;
                },
                Err(x) => return Err(x),
            }
            i = i + 1;
        }
        Ok(self.value)
    }

    pub fn visit_statement(&self, statement: &AstStatement) -> (r: Result<i64, EvalError>)
        ensures
            r == eval_statement(*statement),
    {
        match &statement.kind {
            AstStatementKind::Expression(e) => self.visit_expression(e),
        }
    }

    pub fn visit_expression(&self, expression: &AstExpression) -> (r: Result<i64, EvalError>)
        ensures
            r == eval_expression(*expression),
        decreases expression,
    {
        match &expression.kind {
            AstExpressionKind::Number(value) => self.visit_number(
                &AstNumberExpression { value: *value },
            ),
            AstExpressionKind::Binary(binary) => self.visit_binary_expression(binary),
            AstExpressionKind::Parenthesized(p) => self.visit_parenthesized_expression(p),
        }
    }

    pub fn visit_number(&self, number: &AstNumberExpression) -> (r: Result<i64, EvalError>)
        ensures
            r == Ok::<i64, EvalError>(number.value),
    {
        Ok(number.value)
    }

    /// Left operand first, then right, then the operator.
    pub fn visit_binary_expression(&self, binary: &AstBinaryExpression) -> (r: Result<
        i64,
        EvalError,
    >)
        ensures
            r == eval_expression(
                AstExpression { kind: AstExpressionKind::Binary(*binary) },
            ),
        decreases *binary,
    {
        let left = match self.visit_expression(&binary.left) {
            Ok(v) => v,
            Err(x) => return Err(x),
        };
        let right = match self.visit_expression(&binary.right) {
            Ok(v) => v,
            Err(x) => return Err(x),
        };
        let value = match binary.operator.kind {
            AstBinaryOperatorKind::Add => left.checked_add(right),
            AstBinaryOperatorKind::Subtract => left.checked_sub(right),
            AstBinaryOperatorKind::Multiply => left.checked_mul(right),
            AstBinaryOperatorKind::Divide => {
                if right == 0 {
                    return Err(EvalError::DivisionByZero);
                }
                left.checked_div(right)
            },
        };
        match value {
            Some(v) => Ok(v),
            None => Err(EvalError::Overflow),
        }
    }

    /// A group is transparent: its value is that of its inner expression.
    pub fn visit_parenthesized_expression(&self, p: &AstParenthesizedExpression) -> (r: Result<
        i64,
        EvalError,
    >)
        ensures
            r == eval_expression(*p.expression),
        decreases *p,
    {
        self.visit_expression(&p.expression)
    }
}

} // verus!
