use vstd::prelude::*;

use crate::ast::{
    Ast, AstBinaryExpression, AstBinaryOperatorKind, AstExpression, AstExpressionKind,
    AstNumberExpression, AstParenthesizedExpression, AstStatement, AstStatementKind,
};
use crate::lexer::push_char;

verus! {

/// Relies on `String::push_str`: appends the text.
#[verifier::external_body]
fn push_str(s: &mut String, t: &str)
    ensures
        final(s)@ == old(s)@ + t@,
{
    s.push_str(t);
}

pub open spec fn digit_char(d: int) -> char {
    ((d + 48) as u8) as char
}

/// Decimal digits of `n`, most significant first.
pub open spec fn digits_text(n: nat) -> Seq<char>
    decreases n,
{
    if n < 10 {
        seq![digit_char(n as int)]
    } else {
        digits_text(n / 10).push(digit_char((n % 10) as int))
    }
}

/// `v` written in decimal, with a leading `-` when negative.
pub open spec fn decimal_text(v: int) -> Seq<char> {
    if v < 0 {
        seq!['-'] + digits_text((-v) as nat)
    } else {
        digits_text(v as nat)
    }
}

pub open spec fn operator_name(kind: AstBinaryOperatorKind) -> Seq<char> {
    match kind {
        AstBinaryOperatorKind::Add => "Add"@,
        AstBinaryOperatorKind::Subtract => "Subtract"@,
        AstBinaryOperatorKind::Multiply => "Multiply"@,
        AstBinaryOperatorKind::Divide => "Divide"@,
    }
}

/// The indentation added at each level.
pub open spec fn step() -> Seq<char> {
    "  "@
}

pub open spec fn line(indent: Seq<char>, text: Seq<char>) -> Seq<char> {
    indent + text + seq!['\n']
}

/// The lines an expression prints as, under the given indentation.
pub open spec fn render_expression(e: AstExpression, indent: Seq<char>) -> Seq<char>
    decreases e,
{
    let inner = indent + step();
    line(indent, "Expression:"@) + match e.kind {
        AstExpressionKind::Number(v) => line(inner, "Number: "@ + decimal_text(v as int)),
        AstExpressionKind::Binary(b) => line(inner, "Binary Expression:"@) + line(
            inner + step(),
            "Operator: "@ + operator_name(b.operator.kind),
        ) + render_expression(*b.left, inner + step()) + render_expression(
            *b.right,
            inner + step(),
        ),
        AstExpressionKind::Parenthesized(p) => line(inner, "Parenthesized Expression:"@)
            + render_expression(*p.expression, inner + step()),
    }
}

pub open spec fn render_statement(s: AstStatement, indent: Seq<char>) -> Seq<char> {
    match s.kind {
        AstStatementKind::Expression(e) => line(indent, "Statement:"@) + render_expression(
            e,
            indent + step(),
        ),
    }
}

/// The text of a whole program: each statement in order, unindented.
pub open spec fn render_program(ss: Seq<AstStatement>) -> Seq<char>
    decreases ss.len(),
{
    if ss.len() == 0 {
        Seq::empty()
    } else {
        render_program(ss.drop_last()) + render_statement(ss.last(), Seq::empty())
    }
}

/// The rendering is a function of the statements alone: rendering the same
/// program twice, or two programs with the same statements, gives the same
/// text.
pub proof fn render_is_pure(a: &Ast, b: &Ast)
    requires
        a.statements@ == b.statements@,
    ensures
        render_program(a.statements@) == render_program(b.statements@),
{
}

fn push_digits(out: &mut String, n: u64)
    ensures
        final(out)@ == old(out)@ + digits_text(n as nat),
    decreases n,
{
    if n >= 10 {
        push_digits(out, n / 10);
    }
    let d: u8 = (n % 10) as u8;
    push_char(out, (d + 48) as char);
}

/// Writes the tree as indented lines of text.
pub struct AstPrinter {
    indent: String,
    out: String,
}

impl AstPrinter {
    pub closed spec fn indent_text(&self) -> Seq<char> {
        self.indent@
    }

    /// What has been written so far.
    pub closed spec fn text(&self) -> Seq<char> {
        self.out@
    }

    pub fn new() -> (r: Self)
        ensures
            r.indent_text() == Seq::<char>::empty(),
            r.text() == Seq::<char>::empty(),
    {
        AstPrinter { indent: String::new(), out: String::new() }
    }

    /// The text written so far.
    pub fn output(&self) -> (r: String)
        ensures
            r@ == self.text(),
    {
        self.out.clone()
    }

    fn print_with_indent(&mut self, text: &str)
        ensures
            final(self).indent_text() == old(self).indent_text(),
            final(self).text() == old(self).text() + line(old(self).indent_text(), text@),
    {
        push_str(&mut self.out, self.indent.as_str());
        push_str(&mut self.out, text);
        push_char(&mut self.out, '\n');
    }

    fn print_number_line(&mut self, value: i64)
        ensures
            final(self).indent_text() == old(self).indent_text(),
            final(self).text() == old(self).text() + line(
                old(self).indent_text(),
                "Number: "@ + decimal_text(value as int),
            ),
    {
        push_str(&mut self.out, self.indent.as_str());
        push_str(&mut self.out, "Number: ");
        if value < 0 {
            push_char(&mut self.out, '-');
            push_digits(&mut self.out, (0i128 - value as i128) as u64);
        } else {
            push_digits(&mut self.out, value as u64);
        }
        push_char(&mut self.out, '\n');
    }

    fn print_operator_line(&mut self, kind: AstBinaryOperatorKind)
        ensures
            final(self).indent_text() == old(self).indent_text(),
            final(self).text() == old(self).text() + line(
                old(self).indent_text(),
                "Operator: "@ + operator_name(kind),
            ),
    {
        let name = match kind {
            AstBinaryOperatorKind::Add => "Add",
            AstBinaryOperatorKind::Subtract => "Subtract",
            AstBinaryOperatorKind::Multiply => "Multiply",
            AstBinaryOperatorKind::Divide => "Divide",
        };
        push_str(&mut self.out, self.indent.as_str());
        push_str(&mut self.out, "Operator: ");
        push_str(&mut self.out, name);
        push_char(&mut self.out, '\n');
    }

    fn deeper(&mut self) -> (saved: String)
        ensures
            saved@ == old(self).indent_text(),
            final(self).indent_text() == old(self).indent_text() + step(),
            final(self).text() == old(self).text(),
    {
        let saved = self.indent.clone();
        push_str(&mut self.indent, "  ");
        saved
    }

    pub fn visit_statement(&mut self, statement: &AstStatement)
        ensures
            final(self).indent_text() == old(self).indent_text(),
            final(self).text() == old(self).text() + render_statement(
                *statement,
                old(self).indent_text(),
            ),
    {
        self.print_with_indent("Statement:");
        let saved = self.deeper();
        match &statement.kind {
            AstStatementKind::Expression(e) => self.visit_expression(e),
        }
        self.indent = saved;
    }

    pub fn visit_expression(&mut self, expression: &AstExpression)
        ensures
            final(self).indent_text() == old(self).indent_text(),
            final(self).text() == old(self).text() + render_expression(
                *expression,
                old(self).indent_text(),
            ),
        decreases expression,
    {
        self.print_with_indent("Expression:");
        let saved = self.deeper();
        match &expression.kind {
            AstExpressionKind::Number(value) => self.visit_number(
                &AstNumberExpression { value: *value },
            ),
            AstExpressionKind::Binary(binary) => self.visit_binary_expression(binary),
            AstExpressionKind::Parenthesized(p) => self.visit_parenthesized_expression(p),
        }
        self.indent = saved;
    }

    pub fn visit_number(&mut self, number: &AstNumberExpression)
        ensures
            final(self).indent_text() == old(self).indent_text(),
            final(self).text() == old(self).text() + line(
                old(self).indent_text(),
                "Number: "@ + decimal_text(number.value as int),
            ),
    {
        self.print_number_line(number.value);
    }

    pub fn visit_binary_expression(&mut self, binary: &AstBinaryExpression)
        ensures
            final(self).indent_text() == old(self).indent_text(),
            final(self).text() == old(self).text() + line(
                old(self).indent_text(),
                "Binary Expression:"@,
            ) + line(
                old(self).indent_text() + step(),
                "Operator: "@ + operator_name(binary.operator.kind),
            ) + render_expression(*binary.left, old(self).indent_text() + step())
                + render_expression(*binary.right, old(self).indent_text() + step()),
        decreases *binary,
    {
        self.print_with_indent("Binary Expression:");
        let saved = self.deeper();
        self.print_operator_line(binary.operator.kind);
        self.visit_expression(&binary.left);
        self.visit_expression(&binary.right);
        self.indent = saved;
    }

    pub fn visit_parenthesized_expression(&mut self, p: &AstParenthesizedExpression)
        ensures
            final(self).indent_text() == old(self).indent_text(),
            final(self).text() == old(self).text() + line(
                old(self).indent_text(),
                "Parenthesized Expression:"@,
            ) + render_expression(*p.expression, old(self).indent_text() + step()),
        decreases *p,
    {
        self.print_with_indent("Parenthesized Expression:");
        let saved = self.deeper();
        self.visit_expression(&p.expression);
        self.indent = saved;
    }
}

impl Ast {
    /// The program as indented text, one line per node.
    pub fn render(&self) -> (r: String)
        ensures
            r@ == render_program(self.statements@),
    {
        let mut printer = AstPrinter::new();
        let mut i: usize = 0;
        while i < self.statements.len()
            invariant
                i <= self.statements@.len(),
                printer.indent_text() == Seq::<char>::empty(),
                printer.text() == render_program(self.statements@.take(i as int)),
            decreases self.statements@.len() - i,
        {
            printer.visit_statement(&self.statements[i]);
            assert(self.statements@.take(i + 1).drop_last() == self.statements@.take(i as int));
            i = i + 1;
        }
        assert(self.statements@.take(i as int) == self.statements@);
        printer.output()
    }
}

} // verus!
