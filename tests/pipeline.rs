use arith_interp::ast::{
    Ast, AstBinaryOperator, AstBinaryOperatorKind, AstExpression, AstExpressionKind,
    AstStatement, AstStatementKind,
};
use arith_interp::evaluator::{EvalError, Evaluator};
use arith_interp::interpreter::{evaluate_source, InterpretError};
use arith_interp::lexer::{tokenize, AstToken, AstTokenKind, LexError, Lexer, Span};
use arith_interp::parser::{parse, ParseError, Parser};
use arith_interp::printer::AstPrinter;

fn kinds(text: &str) -> Vec<AstTokenKind> {
    let mut lexer = Lexer::new(text);
    let mut out = Vec::new();
    while let Some(token) = lexer.next_token() {
        out.push(token.kind);
    }
    out
}

fn program(text: &str) -> Ast {
    parse(tokenize(text).unwrap()).unwrap()
}

#[test]
fn empty_input_gives_one_end_token_then_nothing() {
    let mut lexer = Lexer::new("");
    let eof = lexer.next_token().unwrap();
    assert_eq!(eof.kind, AstTokenKind::EOF);
    assert_eq!(eof.span, Span { start: 0, end: 0, literal: String::new() });
    assert!(lexer.next_token().is_none());
    assert!(lexer.next_token().is_none());
}

#[test]
fn single_digit_lexes_to_number_and_end() {
    assert_eq!(kinds("7"), vec![AstTokenKind::Number(7), AstTokenKind::EOF]);
    let tokens = tokenize("7").unwrap();
    assert_eq!(
        tokens[0],
        AstToken {
            kind: AstTokenKind::Number(7),
            span: Span { start: 0, end: 1, literal: "7".to_string() },
        }
    );
    assert_eq!(tokens[1].span.start, 1);
}

#[test]
fn lexes_every_punctuation_and_multi_digit_numbers() {
    assert_eq!(
        kinds("(12+3)-4*5/6"),
        vec![
            AstTokenKind::LParen,
            AstTokenKind::Number(12),
            AstTokenKind::Plus,
            AstTokenKind::Number(3),
            AstTokenKind::RParen,
            AstTokenKind::Minus,
            AstTokenKind::Number(4),
            AstTokenKind::Star,
            AstTokenKind::Number(5),
            AstTokenKind::Slash,
            AstTokenKind::Number(6),
            AstTokenKind::EOF,
        ]
    );
    let tokens = tokenize("(12+3)").unwrap();
    assert_eq!(tokens[1].span, Span { start: 1, end: 3, literal: "12".to_string() });
    assert_eq!(tokens[1].span.length(), 2);
}

#[test]
fn unknown_character_is_an_invalid_token_and_a_lex_error() {
    assert_eq!(
        kinds("1 2"),
        vec![AstTokenKind::Number(1), AstTokenKind::BAD, AstTokenKind::Number(2), AstTokenKind::EOF]
    );
    assert_eq!(
        tokenize("1+x"),
        Err(LexError::UnrecognizedCharacter(Span { start: 2, end: 3, literal: "x".to_string() }))
    );
}

#[test]
fn largest_literal_fits_and_one_more_is_rejected() {
    assert_eq!(kinds("9223372036854775807")[0], AstTokenKind::Number(i64::MAX));
    match tokenize("9223372036854775808") {
        Err(LexError::IntegerTooLarge(span)) => {
            assert_eq!(span.start, 0);
            assert_eq!(span.end, 19);
        }
        other => panic!("unexpected {:?}", other),
    }
}

#[test]
fn consume_number_reads_the_digit_run() {
    let mut lexer = Lexer::new("123+4");
    assert_eq!(lexer.consume_number(), Some(123));
    assert_eq!(lexer.peek(), Some('+'));
}

#[test]
fn grouped_sum_evaluates_to_six() {
    assert_eq!(evaluate_source("(1+2)+3"), Ok(6));
}

#[test]
fn multiplication_binds_tighter_than_addition() {
    assert_eq!(evaluate_source("2+3*4"), Ok(14));
    assert_eq!(evaluate_source("(2+3)*4"), Ok(20));
    assert_eq!(evaluate_source("2*3+4"), Ok(10));
}

#[test]
fn division_truncates_toward_zero() {
    assert_eq!(evaluate_source("10/3"), Ok(3));
    assert_eq!(evaluate_source("(0-7)/2"), Ok(-3));
}

#[test]
fn division_by_zero_is_an_error() {
    assert_eq!(evaluate_source("1/0"), Err(InterpretError::Eval(EvalError::DivisionByZero)));
    assert_eq!(evaluate_source("1/(2-2)"), Err(InterpretError::Eval(EvalError::DivisionByZero)));
}

#[test]
fn overflow_is_an_error() {
    assert_eq!(
        evaluate_source("9223372036854775807+1"),
        Err(InterpretError::Eval(EvalError::Overflow))
    );
    assert_eq!(
        evaluate_source("4611686018427387904*2"),
        Err(InterpretError::Eval(EvalError::Overflow))
    );
}

#[test]
fn missing_close_paren_is_unterminated_group() {
    assert_eq!(tokenize("(1+2").map(parse), Ok(Err(ParseError::UnterminatedGroup(0))));
    assert_eq!(
        evaluate_source("(1+2"),
        Err(InterpretError::Parse(ParseError::UnterminatedGroup(0)))
    );
}

#[test]
fn operator_where_a_value_is_expected_is_unexpected_token() {
    assert_eq!(
        evaluate_source("1+*2"),
        Err(InterpretError::Parse(ParseError::UnexpectedToken(2)))
    );
    assert_eq!(evaluate_source(")"), Err(InterpretError::Parse(ParseError::UnexpectedToken(0))));
}

#[test]
fn equal_precedence_chains_group_to_the_right() {
    assert_eq!(evaluate_source("8-4-2"), Ok(6));
    assert_eq!(evaluate_source("64/8/2"), Ok(16));
    assert_eq!(evaluate_source("(8-4)-2"), Ok(2));
}

#[test]
fn tree_shape_of_mixed_precedence() {
    let ast = program("1+2*3");
    let add = AstBinaryOperator::new(AstBinaryOperatorKind::Add, 1);
    let mul = AstBinaryOperator::new(AstBinaryOperatorKind::Multiply, 2);
    let expected = AstExpression::binary(
        AstExpression::number(1),
        AstExpression::binary(AstExpression::number(2), AstExpression::number(3), mul),
        add,
    );
    assert_eq!(
        ast.statements,
        vec![AstStatement::new(AstStatementKind::Expression(expected))]
    );
}

#[test]
fn parser_yields_statements_one_by_one() {
    let mut parser = Parser::from_tokens(tokenize("(1)(2)").unwrap());
    let first = parser.next_statement().unwrap().unwrap();
    let AstStatementKind::Expression(e) = first.kind;
    assert_eq!(e, AstExpression::parenthesized(AstExpression::number(1)));
    assert!(parser.next_statement().unwrap().is_some());
    assert_eq!(parser.next_statement(), Ok(None));
    assert_eq!(evaluate_source("(1)(2)"), Ok(2));
}

#[test]
fn parser_peek_and_operator() {
    let parser = Parser::from_tokens(tokenize("1+2").unwrap());
    assert_eq!(parser.current().unwrap().kind, AstTokenKind::Number(1));
    assert_eq!(parser.peek(1).unwrap().kind, AstTokenKind::Plus);
    assert!(parser.peek(-1).is_none());
    assert_eq!(parser.peek(3).unwrap().kind, AstTokenKind::EOF);
    assert!(parser.peek(4).is_none());
    assert_eq!(parser.parse_binary_operator(), None);
    let empty = Parser::new();
    assert!(empty.current().is_none());
}

#[test]
fn evaluator_keeps_value_of_last_statement() {
    let mut evaluator = Evaluator::new();
    assert_eq!(evaluator.evaluate(&Ast::new()), Ok(0));
    assert_eq!(evaluator.evaluate(&program("2*(3+4)")), Ok(14));
    assert_eq!(evaluator.value, 14);
}

#[test]
fn program_built_by_hand_evaluates() {
    let mut ast = Ast::new();
    let sub = AstBinaryOperator::new(AstBinaryOperatorKind::Subtract, 1);
    ast.add_statement(AstStatement::new(AstStatementKind::Expression(AstExpression::new(
        AstExpressionKind::Number(5),
    ))));
    ast.add_statement(AstStatement::new(AstStatementKind::Expression(AstExpression::binary(
        AstExpression::number(5),
        AstExpression::number(9),
        sub,
    ))));
    assert_eq!(Evaluator::new().evaluate(&ast), Ok(-4));
}

#[test]
fn render_prints_indented_tree() {
    let ast = program("(1+2)*3");
    let text = ast.render();
    let expected = "Statement:\n  Expression:\n    Binary Expression:\n      Operator: Multiply\n      Expression:\n        Parenthesized Expression:\n          Expression:\n            Binary Expression:\n              Operator: Add\n              Expression:\n                Number: 1\n              Expression:\n                Number: 2\n      Expression:\n        Number: 3\n";
    assert_eq!(text, expected);
}

#[test]
fn render_twice_gives_the_same_text() {
    let ast = program("(1+2)+3");
    let first = ast.render();
    let second = ast.render();
    assert_eq!(first, second);
    assert!(first.starts_with("Statement:\n"));
}

#[test]
fn render_writes_negative_numbers() {
    let mut printer = AstPrinter::new();
    printer.visit_expression(&AstExpression::number(-105));
    assert_eq!(printer.output(), "Expression:\n  Number: -105\n");
}

#[test]
fn mixed_chains_follow_the_grammar() {
    assert_eq!(evaluate_source("1+2*3-4"), Ok(3));
    assert_eq!(evaluate_source("2*3*4+1-1"), Ok(24));
    assert_eq!(evaluate_source("(1+2)*(3+4)/7"), Ok(3));
    assert_eq!(evaluate_source("100/10/5"), Ok(50));
    assert_eq!(evaluate_source("20-10+5"), Ok(5));
    assert_eq!(evaluate_source("((7))"), Ok(7));
}
