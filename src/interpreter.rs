use vstd::prelude::*;

use crate::evaluator::{eval_expression, eval_statements, EvalError, Evaluator};
use crate::grammar::{grammar_expression, parser_follows_grammar};
use crate::lexer::{lex, tokenize, AstTokenKind, LexError, TokenModel};
use crate::ast::{spec_statement, AstStatement};
use crate::parser::{kinds_of, parse, parse_program, ParseError};

verus! {

/// Failure at any stage of running a text.
#[derive(Debug, Clone, PartialEq)]
pub enum InterpretError {
    Lex(LexError),
    Parse(ParseError),
    Eval(EvalError),
}

/// The token kinds of a text.
pub open spec fn lexed_kinds(s: Seq<char>) -> Seq<AstTokenKind> {
    lex(s).map_values(|m: TokenModel| m.0)
}

/// Every token of the text is valid.
pub open spec fn lexes_cleanly(s: Seq<char>) -> bool {
    forall|i: int| 0 <= i < lex(s).len() ==> !(lex(s)[i].0 is BAD)
}

/// Parsing and then evaluating a token sequence, from an evaluator that
/// starts at zero.
pub open spec fn interpret_kinds(ks: Seq<AstTokenKind>) -> Result<i64, InterpretError> {
    match parse_program(ks, 0) {
        Err(x) => Err(InterpretError::Parse(x)),
        Ok(ss) => match eval_statements(ss, 0) {
            Ok(v) => Ok(v),
            Err(e) => Err(InterpretError::Eval(e)),
        },
    }
}

/// Where the tokens form one grammar expression followed by the end of
/// input, running them gives the value of that expression's tree, computed
/// by ordinary integer arithmetic node by node, or its evaluation error.
pub proof fn single_expression_follows_grammar(ks: Seq<AstTokenKind>)
    requires
        grammar_expression(ks, 0) matches Ok((e, q)) && 0 <= q < ks.len() && ks[q] is EOF,
    ensures
        interpret_kinds(ks) == match eval_expression(grammar_expression(ks, 0)->Ok_0.0) {
            Ok(v) => Ok(v),
            Err(x) => Err(InterpretError::Eval(x)),
        },
{
    parser_follows_grammar(ks, 0);
    crate::grammar::lemma_binary_progress(ks, 0);
    let (e, q) = grammar_expression(ks, 0)->Ok_0;
    assert(parse_program(ks, q) == Ok::<Seq<AstStatement>, ParseError>(Seq::empty()));
    let ss = seq![spec_statement(e)];
    assert(seq![spec_statement(e)] + Seq::<AstStatement>::empty() == ss);
    assert(parse_program(ks, 0) == Ok::<Seq<AstStatement>, ParseError>(ss));
    assert(ss.drop_first() == Seq::<AstStatement>::empty());
    assert(ss[0] == spec_statement(e));
    if let Ok(v) = eval_expression(e) {
        assert(eval_statements(ss.drop_first(), v) == Ok::<i64, EvalError>(v));
    }
}

/// Tokenizes, parses and evaluates a text: the value of its last statement.
pub fn evaluate_source(text: &str) -> (r: Result<i64, InterpretError>)
    requires
        text@.len() < usize::MAX,
    ensures
        (r matches Err(InterpretError::Lex(_))) <==> !lexes_cleanly(text@),
        lexes_cleanly(text@) ==> r == interpret_kinds(lexed_kinds(text@)),
{
    let tokens = match tokenize(text) {
        Ok(tokens) => tokens,
        Err(e) => return Err(InterpretError::Lex(e)),
    };
    assert(kinds_of(tokens@) =~= lexed_kinds(text@));
    let ast = match parse(tokens) {
        Ok(ast) => ast,
        Err(x) => return Err(InterpretError::Parse(x)),
    };
    let mut evaluator = Evaluator::new();
    match evaluator.evaluate(&ast) {
        Ok(v) => Ok(v),
        Err(e) => Err(InterpretError::Eval(e)),
    }
}

} // verus!
