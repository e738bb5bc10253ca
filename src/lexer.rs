use vstd::prelude::*;
use vstd::std_specs::iter::IteratorSpec;

verus! {

/// The category of a lexical unit.
#[derive(Debug, Clone, PartialEq)]
pub enum AstTokenKind {
    /// Reserved for names; the lexer does not produce it yet.
    Identifier(String),
    Number(i64),
    Plus,
    Minus,
    Star,
    Slash,
    LParen,
    RParen,
    EOF,
    /// A character that starts no token, or a digit run too large for an `i64`.
    BAD,
}

/// Character range `[start, end)` of a token in the source, with its text.
#[derive(Debug, Clone, PartialEq)]
pub struct Span {
    pub start: usize,
    pub end: usize,
    pub literal: String,
}

#[derive(Debug, Clone, PartialEq)]
pub struct AstToken {
    pub kind: AstTokenKind,
    pub span: Span,
}

/// Failure to turn a text into tokens.
#[derive(Debug, Clone, PartialEq)]
pub enum LexError {
    /// A character that is neither a digit nor one of `+ - * / ( )`.
    UnrecognizedCharacter(Span),
    /// A run of digits whose value does not fit in an `i64`.
    IntegerTooLarge(Span),
}

/// Whether `c` is an ASCII decimal digit.
pub open spec fn is_digit(c: char) -> bool {
    '0' <= c && c <= '9'
}

pub open spec fn digit_value(c: char) -> int {
    c as int - '0' as int
}

/// The decimal number written by the digits `s[lo..hi]`.
pub open spec fn decimal_value(s: Seq<char>, lo: int, hi: int) -> int
    decreases hi - lo,
{
    if hi <= lo {
        0
    } else {
        decimal_value(s, lo, hi - 1) * 10 + digit_value(s[hi - 1])
    }
}

/// Where the maximal run of digits that starts at `p` ends.
pub open spec fn digit_run_end(s: Seq<char>, p: int) -> int
    decreases s.len() - p,
{
    if 0 <= p < s.len() && is_digit(s[p]) {
        digit_run_end(s, p + 1)
    } else {
        p
    }
}

pub open spec fn punctuation_kind(c: char) -> AstTokenKind {
    if c == '+' {
        AstTokenKind::Plus
    } else if c == '-' {
        AstTokenKind::Minus
    } else if c == '*' {
        AstTokenKind::Star
    } else if c == '/' {
        AstTokenKind::Slash
    } else if c == '(' {
        AstTokenKind::LParen
    } else if c == ')' {
        AstTokenKind::RParen
    } else {
        AstTokenKind::BAD
    }
}

/// End of the token that starts at `p < s.len()`.
pub open spec fn token_end(s: Seq<char>, p: int) -> int {
    if is_digit(s[p]) {
        digit_run_end(s, p)
    } else {
        p + 1
    }
}

/// Kind of the token that starts at `p < s.len()`.
pub open spec fn token_kind(s: Seq<char>, p: int) -> AstTokenKind {
    if is_digit(s[p]) {
        let v = decimal_value(s, p, digit_run_end(s, p));
        if v <= i64::MAX {
            AstTokenKind::Number(v as i64)
        } else {
            AstTokenKind::BAD
        }
    } else {
        punctuation_kind(s[p])
    }
}

/// A token as kind, start and end.
pub type TokenModel = (AstTokenKind, int, int);

pub open spec fn model_of(t: AstToken) -> TokenModel {
    (t.kind, t.span.start as int, t.span.end as int)
}

/// The tokens of `s` from position `p` on, ended by one end-of-input token
/// at `s.len()`; none from past the end.
pub open spec fn lex_from(s: Seq<char>, p: int) -> Seq<TokenModel>
    decreases s.len() - p,
{
    if p < 0 || p > s.len() {
        Seq::empty()
    } else if p == s.len() {
        seq![(AstTokenKind::EOF, p, p)]
    } else {
        let e = token_end(s, p);
        if e <= p || e > s.len() {
            Seq::empty()
        } else {
            seq![(token_kind(s, p), p, e)] + lex_from(s, e)
        }
    }
}

/// The token sequence of a whole text.
pub open spec fn lex(s: Seq<char>) -> Seq<TokenModel> {
    lex_from(s, 0)
}

/// A token agrees with a model and carries the source text of its range.
pub open spec fn token_matches(t: AstToken, m: TokenModel, s: Seq<char>) -> bool {
    &&& model_of(t) == m
    &&& 0 <= m.1 <= m.2 <= s.len()
    &&& t.span.literal@ == s.subrange(m.1, m.2)
}

proof fn lemma_run_end(s: Seq<char>, k: int, q: int)
    requires
        0 <= k <= q <= s.len(),
        forall|i: int| k <= i < q ==> is_digit(s[i]),
        q == s.len() || !is_digit(s[q]),
    ensures
        digit_run_end(s, k) == q,
    decreases q - k,
{
    if k < q {
        lemma_run_end(s, k + 1, q);
    }
}

proof fn lemma_run_end_bounds(s: Seq<char>, p: int)
    requires
        0 <= p <= s.len(),
    ensures
        p <= digit_run_end(s, p) <= s.len(),
        forall|i: int| p <= i < digit_run_end(s, p) ==> is_digit(s[i]),
    decreases s.len() - p,
{
    if p < s.len() && is_digit(s[p]) {
        lemma_run_end_bounds(s, p + 1);
    }
}

proof fn lemma_decimal_nonneg(s: Seq<char>, lo: int, hi: int)
    requires
        forall|i: int| lo <= i < hi ==> is_digit(s[i]),
    ensures
        decimal_value(s, lo, hi) >= 0,
    decreases hi - lo,
{
    if hi > lo {
        lemma_decimal_nonneg(s, lo, hi - 1);
    }
}

/// A character that the arithmetic language is written in.
pub open spec fn in_alphabet(c: char) -> bool {
    is_digit(c) || c == '+' || c == '-' || c == '*' || c == '/' || c == '(' || c == ')'
}

proof fn lemma_alphabet_from(s: Seq<char>, p: int)
    requires
        0 <= p <= s.len(),
        forall|i: int| 0 <= i < s.len() ==> in_alphabet(s[i]),
    ensures
        forall|i: int|
            0 <= i < lex_from(s, p).len() ==> p <= #[trigger] lex_from(s, p)[i].1 <= s.len(),
        forall|i: int|
            0 <= i < lex_from(s, p).len() && (#[trigger] lex_from(s, p)[i]).0 is BAD ==> {
                &&& lex_from(s, p)[i].1 < s.len()
                &&& is_digit(s[lex_from(s, p)[i].1])
            },
    decreases s.len() - p,
{
    if p < s.len() {
        lemma_run_end_bounds(s, p + 1);
        let e = token_end(s, p);
        lemma_alphabet_from(s, e);
        let tail = lex_from(s, e);
        let all = lex_from(s, p);
        assert(all == seq![(token_kind(s, p), p, e)] + tail);
        assert forall|i: int| 0 < i < all.len() implies all[i] == tail[i - 1] by {}
    }
}

/// In a text written only with digits and `+ - * / ( )`, the one token that
/// can be invalid is a run of digits too large for an `i64`.
pub proof fn only_large_literals_are_invalid(s: Seq<char>)
    requires
        forall|i: int| 0 <= i < s.len() ==> in_alphabet(s[i]),
    ensures
        forall|i: int|
            0 <= i < lex(s).len() && (#[trigger] lex(s)[i]).0 is BAD ==> {
                &&& 0 <= lex(s)[i].1 < s.len()
                &&& is_digit(s[lex(s)[i].1])
            },
{
    lemma_alphabet_from(s, 0);
}

fn char_is_digit(c: char) -> (r: bool)
    ensures
        r == is_digit(c),
{
    '0' <= c && c <= '9'
}

/// Relies on `String::push`: appends one character.
#[verifier::external_body]
pub(crate) fn push_char(s: &mut String, c: char)
    ensures
        final(s)@ == old(s)@.push(c),
{
    s.push(c);
}

/// The characters of a text, in order.
fn chars_of(text: &str) -> (r: Vec<char>)
    ensures
        r@ == text@,
{
    broadcast use vstd::string::group_string_axioms;

    let mut it = text.chars();
    let mut out: Vec<char> = Vec::new();
    loop
        invariant
            it.obeys_prophetic_iter_laws(),
            it.decrease() is Some,
            out@ + it.remaining() == text@,
        decreases it.decrease()->0,
    {
        match it.next() {
            Some(c) => {
                out.push(c);
            },
            None => {
                return out;
            },
        }
    }
}

impl Span {
    /// Number of characters the span covers.
    pub fn length(&self) -> (r: usize)
        requires
            self.start <= self.end,
        ensures
            r == self.end - self.start,
    {
        self.end - self.start
    }
}

/// The error that the first invalid token `m` of `s` gives.
pub open spec fn lex_error_for(e: LexError, m: TokenModel, s: Seq<char>) -> bool {
    match e {
        LexError::UnrecognizedCharacter(sp) => {
            &&& !is_digit(s[m.1])
            &&& sp.start == m.1 && sp.end == m.2
            &&& sp.literal@ == s.subrange(m.1, m.2)
        },
        LexError::IntegerTooLarge(sp) => {
            &&& is_digit(s[m.1])
            &&& sp.start == m.1 && sp.end == m.2
            &&& sp.literal@ == s.subrange(m.1, m.2)
        },
    }
}

/// Reads the whole text into tokens, ending with the end-of-input token.
/// Fails on the first invalid token.
pub fn tokenize(text: &str) -> (r: Result<Vec<AstToken>, LexError>)
    requires
        text@.len() < usize::MAX,
    ensures
        match r {
            Ok(v) => {
                &&& v@.len() == lex(text@).len()
                &&& forall|i: int|
                    0 <= i < v@.len() ==> token_matches(v@[i], lex(text@)[i], text@)
                &&& forall|i: int| 0 <= i < lex(text@).len() ==> !(lex(text@)[i].0 is BAD)
            },
            Err(e) => exists|i: int|
                {
                    &&& 0 <= i < lex(text@).len()
                    &&& lex(text@)[i].0 is BAD
                    &&& forall|j: int| 0 <= j < i ==> !(lex(text@)[j].0 is BAD)
                    &&& lex_error_for(e, lex(text@)[i], text@)
                },
        },
{
    let ghost s = text@;
    let mut lexer = Lexer::new(text);
    let mut tokens: Vec<AstToken> = Vec::new();
    loop
        invariant
            lexer.wf(),
            lexer.text() == s,
            s == text@,
            tokens@.len() <= lex(s).len(),
            lexer.remaining() == lex(s).skip(tokens@.len() as int),
            forall|i: int| 0 <= i < tokens@.len() ==> token_matches(tokens@[i], lex(s)[i], s),
            forall|i: int| 0 <= i < tokens@.len() ==> !(lex(s)[i].0 is BAD),
        decreases lexer.remaining().len(),
    {
        let ghost n = tokens@.len() as int;
        match lexer.next_token() {
            None => {
                assert(lex(s).skip(n).len() == 0);
                return Ok(tokens);
            },
            Some(tok) => {
                assert(lex(s).skip(n).drop_first() == lex(s).skip(n + 1));
                assert(lex(s).skip(n)[0] == lex(s)[n]);
                assert(token_matches(tok, lex(s)[n], s));
                if let AstTokenKind::BAD = tok.kind {
                    let span = tok.span;
                    if span.end - span.start > 1 {
                        proof {
                            let m = lex(s)[n];
                            assert(m.0 is BAD);
                            assert(lex_error_for(LexError::IntegerTooLarge(span), m, s));
                        }
                        return Err(LexError::IntegerTooLarge(span));
                    } else {
                        proof {
                            let m = lex(s)[n];
                            if is_digit(s[m.1]) {
                                assert(decimal_value(s, m.1, m.1) == 0);
                                assert(decimal_value(s, m.1, m.1 + 1) == digit_value(s[m.1]));
                            }
                        }
                        return Err(LexError::UnrecognizedCharacter(span));
                    }
                }
                tokens.push(tok);
            },
        }
    }
}

/// Produces tokens left to right, one per call. Whitespace is not skipped:
/// like any character outside the language it gives an invalid token.
pub struct Lexer {
    input: Vec<char>,
    position: usize,
}

impl Lexer {
    /// The text being read.
    pub closed spec fn text(&self) -> Seq<char> {
        self.input@
    }

    /// The cursor, as a character index.
    pub closed spec fn pos(&self) -> int {
        self.position as int
    }

    pub closed spec fn wf(&self) -> bool {
        &&& self.input@.len() < usize::MAX
        &&& self.position <= self.input@.len() + 1
    }

    /// The tokens still to come.
    pub open spec fn remaining(&self) -> Seq<TokenModel> {
        lex_from(self.text(), self.pos())
    }

    pub fn new(input: &str) -> (r: Self)
        requires
            input@.len() < usize::MAX,
        ensures
            r.wf(),
            r.text() == input@,
            r.pos() == 0,
            r.remaining() == lex(input@),
    {
        Lexer { input: chars_of(input), position: 0 }
    }

    /// The character under the cursor.
    pub fn peek(&self) -> (r: Option<char>)
        ensures
            r == (if 0 <= self.pos() < self.text().len() {
                Some(self.text()[self.pos()])
            } else {
                None::<char>
            }),
    {
        if self.position < self.input.len() {
            Some(self.input[self.position])
        } else {
            None
        }
    }

    fn is_number_start(&self) -> (r: bool)
        ensures
            r == (0 <= self.pos() < self.text().len() && is_digit(self.text()[self.pos()])),
    {
        match self.peek() {
            Some(c) => char_is_digit(c),
            None => false,
        }
    }

    fn consume(&mut self) -> (r: Option<char>)
        requires
            old(self).wf(),
        ensures
            final(self).wf(),
            final(self).text() == old(self).text(),
            r == (if old(self).pos() < old(self).text().len() {
                Some(old(self).text()[old(self).pos()])
            } else {
                None::<char>
            }),
            final(self).pos() == if r is Some {
                old(self).pos() + 1
            } else {
                old(self).pos()
            },
    {
        let ch = self.peek();
        if ch.is_some() {
            self.position = self.position + 1;
        }
        ch
    }

    fn consume_ponctuation(&mut self) -> (r: AstTokenKind)
        requires
            old(self).wf(),
            old(self).pos() < old(self).text().len(),
        ensures
            final(self).wf(),
            final(self).text() == old(self).text(),
            final(self).pos() == old(self).pos() + 1,
            r == punctuation_kind(old(self).text()[old(self).pos()]),
    {
        let ch = self.consume();
        match ch {
            Some('+') => AstTokenKind::Plus,
            Some('-') => AstTokenKind::Minus,
            Some('*') => AstTokenKind::Star,
            Some('/') => AstTokenKind::Slash,
            Some('(') => AstTokenKind::LParen,
            Some(')') => AstTokenKind::RParen,
            _ => AstTokenKind::BAD,
        }
    }

    /// Consumes the run of digits under the cursor and returns its value,
    /// or `None` where the value does not fit in an `i64`.
    pub fn consume_number(&mut self) -> (r: Option<i64>)
        requires
            old(self).wf(),
            old(self).pos() <= old(self).text().len(),
        ensures
            final(self).wf(),
            final(self).text() == old(self).text(),
            final(self).pos() == digit_run_end(old(self).text(), old(self).pos()),
            ({
                let v = decimal_value(
                    old(self).text(),
                    old(self).pos(),
                    digit_run_end(old(self).text(), old(self).pos()),
                );
                r == if v <= i64::MAX {
                    Some(v as i64)
                } else {
                    None::<i64>
                }
            }),
    {
        let ghost s = self.input@;
        let ghost start = self.position as int;
        let mut number: Option<i64> = Some(0);
        while self.position < self.input.len() && char_is_digit(self.input[self.position])
            invariant
                self.input@ == s,
                self.wf(),
                start <= self.position <= s.len(),
                forall|i: int| start <= i < self.position ==> is_digit(s[i]),
                ({
                    let v = decimal_value(s, start, self.position as int);
                    number == if v <= i64::MAX {
                        Some(v as i64)
                    } else {
                        None::<i64>
                    }
                }),
            decreases s.len() - self.position,
        {
            let c = self.input[self.position];
            let d: i64 = (c as u32 - '0' as u32) as i64;
            proof {
                lemma_decimal_nonneg(s, start, self.position as int);
            }
            let ghost prev = decimal_value(s, start, self.position as int);
            assert(decimal_value(s, start, self.position + 1) == prev * 10 + d);
            number = match number {
                Some(n) => match n.checked_mul(10) {
                    Some(m) => m.checked_add(d),
                    None => None,
                },
                None => None,
            };
            proof {
                if prev > i64::MAX {
                    assert(prev * 10 + d > i64::MAX) by (nonlinear_arith)
                        requires
                            prev > i64::MAX,
                            d >= 0,
                    ;
                }
            }
            self.position = self.position + 1;
        }
        proof {
            lemma_run_end(s, start, self.position as int);
        }
        number
    }

    /// Builds the span `[start, position)` with its text.
    fn span_from(&self, start: usize) -> (r: Span)
        requires
            start <= self.pos() <= self.text().len(),
        ensures
            r.start == start,
            r.end == self.pos(),
            r.literal@ == self.text().subrange(start as int, self.pos()),
    {
        let mut literal = String::new();
        let mut i: usize = start;
        while i < self.position
            invariant
                start <= i <= self.position <= self.input@.len(),
                literal@ == self.input@.subrange(start as int, i as int),
            decreases self.position - i,
        {
            push_char(&mut literal, self.input[i]);
            assert(self.input@.subrange(start as int, i + 1) == self.input@.subrange(
                start as int,
                i as int,
            ).push(self.input@[i as int]));
            i = i + 1;
        }
        Span { start, end: self.position, literal }
    }

    /// The next token, or `None` once the end-of-input token has been given.
    pub fn next_token(&mut self) -> (r: Option<AstToken>)
        requires
            old(self).wf(),
        ensures
            final(self).wf(),
            final(self).text() == old(self).text(),
            old(self).remaining().len() == 0 ==> r is None && final(self).pos() == old(self).pos(),
            old(self).remaining().len() > 0 ==> r is Some && token_matches(
                r->0,
                old(self).remaining()[0],
                old(self).text(),
            ) && final(self).remaining() == old(self).remaining().drop_first(),
    {
        let ghost s = self.input@;
        let ghost p = self.position as int;
        if self.position == self.input.len() {
            self.position = self.position + 1;
            let span = Span { start: self.input.len(), end: self.input.len(), literal: String::new() };
            assert(s.subrange(p, p) == Seq::<char>::empty());
            assert(self.remaining() == Seq::<TokenModel>::empty());
            assert(old(self).remaining()[0] == (AstTokenKind::EOF, p, p));
            assert(old(self).remaining().drop_first() == Seq::<TokenModel>::empty());
            return Some(AstToken { kind: AstTokenKind::EOF, span });
        }
        if self.position > self.input.len() {
            return None;
        }
        let start = self.position;
        let kind;
        if self.is_number_start() {
            proof {
                lemma_run_end_bounds(s, p + 1);
            }
            let number = self.consume_number();
            kind = match number {
                Some(n) => AstTokenKind::Number(n),
                None => AstTokenKind::BAD,
            };
        } else {
            kind = self.consume_ponctuation();
        }
        let span = self.span_from(start);
        assert(old(self).remaining() == seq![(token_kind(s, p), p, token_end(s, p))] + lex_from(
            s,
            token_end(s, p),
        ));
        Some(AstToken { kind, span })
    }
}

} // verus!
