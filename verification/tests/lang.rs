//! The lexical scanner and the parser: token sequences, keyword folding,
//! grammar shapes and parse errors.

use yoloxide::ast::{Expression, Operator, Statement, Value};
use yoloxide::number::YololNumber;
use yoloxide::parser;
use yoloxide::token::Token;
use yoloxide::tokenizer;

fn lex(text: &str) -> Vec<Token> {
    tokenizer::tokenize(String::from(text)).expect("the text should scan")
}

fn parse_line(text: &str) -> Vec<Statement> {
    parser::parse(lex(text)).expect("the text should parse")
}

fn num(whole: i64) -> YololNumber {
    YololNumber::from_whole(whole)
}

#[test]
fn tokenizing_an_assignment_line() {
    let tokens = lex("x = 1 + 2");
    assert_eq!(
        tokens,
        vec![
            Token::Identifier(String::from("x")),
            Token::Equal,
            Token::YololNum(num(1)),
            Token::Plus,
            Token::YololNum(num(2)),
        ]
    );
}

#[test]
fn keywords_fold_case_insensitively() {
    let tokens = lex("GoTo IF Then eLsE end AND or NOT abs SQRT sin cos tan arcsin arccos arctan");
    assert_eq!(
        tokens,
        vec![
            Token::Goto,
            Token::If,
            Token::Then,
            Token::Else,
            Token::End,
            Token::And,
            Token::Or,
            Token::Not,
            Token::Abs,
            Token::Sqrt,
            Token::Sin,
            Token::Cos,
            Token::Tan,
            Token::Arcsin,
            Token::Arccos,
            Token::Arctan,
        ]
    );
}

#[test]
fn identifiers_fold_and_keep_digits_and_underscores() {
    let tokens = lex("MyVar_2");
    assert_eq!(tokens, vec![Token::Identifier(String::from("myvar_2"))]);
}

#[test]
fn data_fields_keep_their_marker_and_fold() {
    let tokens = lex(":Pump_1");
    assert_eq!(tokens, vec![Token::DataField(String::from(":pump_1"))]);
}

#[test]
fn comments_run_to_the_end_of_line() {
    let tokens = lex("a = 1 // trailing words = fine");
    assert_eq!(tokens.len(), 4);
    assert_eq!(
        tokens[3],
        Token::Comment(String::from("// trailing words = fine"))
    );
}

#[test]
fn string_literals_take_printable_text() {
    let tokens = lex("\"hello world\"");
    assert_eq!(tokens, vec![Token::StringToken(String::from("hello world"))]);
}

#[test]
fn numeric_literals_cut_excess_fraction_digits() {
    let tokens = lex("1.23456");
    assert_eq!(tokens, vec![Token::YololNum(YololNumber::new(12345))]);
}

#[test]
fn unrecognized_characters_are_lexical_errors() {
    assert!(tokenizer::tokenize(String::from("a = #")).is_err());
    assert!(tokenizer::tokenize(String::from("a , b")).is_err());
}

#[test]
fn multi_character_operators_stay_separate_tokens() {
    let tokens = lex("a <= b");
    assert_eq!(
        tokens,
        vec![
            Token::Identifier(String::from("a")),
            Token::LAngleBrak,
            Token::Equal,
            Token::Identifier(String::from("b")),
        ]
    );
}

#[test]
fn parsing_a_conditional_with_an_else() {
    let statements = parse_line("if a > 0 then b = 1 else b = -1 end");
    assert_eq!(statements.len(), 1);
    let expected_cond = Expression::BinaryOp(
        Operator::Greater,
        Box::new(Expression::Value(Value::LocalVar(String::from("a")))),
        Box::new(Expression::Value(Value::NumberVal(num(0)))),
    );
    let expected_body = vec![Statement::Assignment(
        Value::LocalVar(String::from("b")),
        Operator::Assign,
        Box::new(Expression::Value(Value::NumberVal(num(1)))),
    )];
    let expected_else = vec![Statement::Assignment(
        Value::LocalVar(String::from("b")),
        Operator::Assign,
        Box::new(Expression::UnaryOp(
            Operator::Negate,
            Box::new(Expression::Value(Value::NumberVal(num(1)))),
        )),
    )];
    assert_eq!(
        statements[0],
        Statement::If(Box::new(expected_cond), expected_body, Some(expected_else))
    );
}

#[test]
fn multiplication_binds_tighter_than_addition() {
    let statements = parse_line("1 + 2 * 3");
    let expected = Expression::BinaryOp(
        Operator::Add,
        Box::new(Expression::Value(Value::NumberVal(num(1)))),
        Box::new(Expression::BinaryOp(
            Operator::Mul,
            Box::new(Expression::Value(Value::NumberVal(num(2)))),
            Box::new(Expression::Value(Value::NumberVal(num(3)))),
        )),
    );
    assert_eq!(statements, vec![Statement::Expression(Box::new(expected))]);
}

#[test]
fn exponent_associates_to_the_right() {
    let statements = parse_line("2 ^ 3 ^ 2");
    let expected = Expression::BinaryOp(
        Operator::Pow,
        Box::new(Expression::Value(Value::NumberVal(num(2)))),
        Box::new(Expression::BinaryOp(
            Operator::Pow,
            Box::new(Expression::Value(Value::NumberVal(num(3)))),
            Box::new(Expression::Value(Value::NumberVal(num(2)))),
        )),
    );
    assert_eq!(statements, vec![Statement::Expression(Box::new(expected))]);
}

#[test]
fn compound_assignment_reads_two_adjacent_tokens() {
    let statements = parse_line("a += 5");
    assert_eq!(
        statements,
        vec![Statement::Assignment(
            Value::LocalVar(String::from("a")),
            Operator::AddAssign,
            Box::new(Expression::Value(Value::NumberVal(num(5)))),
        )]
    );
}

#[test]
fn data_fields_assign_and_read() {
    let statements = parse_line(":x = 5 goto :x");
    assert_eq!(statements.len(), 2);
    assert_eq!(
        statements[0],
        Statement::Assignment(
            Value::DataField(String::from(":x")),
            Operator::Assign,
            Box::new(Expression::Value(Value::NumberVal(num(5)))),
        )
    );
    assert_eq!(
        statements[1],
        Statement::Goto(Box::new(Expression::Value(Value::DataField(String::from(
            ":x"
        )))))
    );
}

#[test]
fn postfix_increment_needs_three_tokens() {
    let statements = parse_line("b = a++");
    assert_eq!(
        statements,
        vec![Statement::Assignment(
            Value::LocalVar(String::from("b")),
            Operator::Assign,
            Box::new(Expression::UnaryOp(
                Operator::PostInc,
                Box::new(Expression::Value(Value::LocalVar(String::from("a")))),
            )),
        )]
    );
}

#[test]
fn keyword_operators_stack() {
    let statements = parse_line("not not x");
    let expected = Expression::UnaryOp(
        Operator::Not,
        Box::new(Expression::UnaryOp(
            Operator::Not,
            Box::new(Expression::Value(Value::LocalVar(String::from("x")))),
        )),
    );
    assert_eq!(statements, vec![Statement::Expression(Box::new(expected))]);
}

#[test]
fn a_missing_then_is_a_parse_error() {
    let tokens = lex("if a > 0 b = 1 end");
    let err = parser::parse(tokens).unwrap_err();
    assert_eq!(
        err.kind,
        yoloxide::errors::ParseErrorKind::NoExtensionAvailable
    );
}

#[test]
fn a_second_else_is_a_parse_error() {
    let tokens = lex("if a then b = 1 else b = 2 else b = 3 end");
    let err = parser::parse(tokens).unwrap_err();
    assert_eq!(
        err.kind,
        yoloxide::errors::ParseErrorKind::RepeatedElseTokens
    );
}

#[test]
fn an_open_group_is_a_parse_error() {
    let tokens = lex("a = (1 + 2");
    let err = parser::parse(tokens).unwrap_err();
    assert_eq!(
        err.kind,
        yoloxide::errors::ParseErrorKind::UnbalancedParenthesis
    );
}

#[test]
fn a_bare_newline_ends_the_line() {
    let statements = parse_line("a = 1\nb = 2");
    assert_eq!(statements.len(), 1);
}

#[test]
fn groups_parse_and_nest() {
    let statements = parse_line("a = (1 + 2) * 3");
    let expected = Expression::BinaryOp(
        Operator::Mul,
        Box::new(Expression::Value(Value::Group(Box::new(
            Expression::BinaryOp(
                Operator::Add,
                Box::new(Expression::Value(Value::NumberVal(num(1)))),
                Box::new(Expression::Value(Value::NumberVal(num(2)))),
            ),
        )))),
        Box::new(Expression::Value(Value::NumberVal(num(3)))),
    );
    assert_eq!(
        statements,
        vec![Statement::Assignment(
            Value::LocalVar(String::from("a")),
            Operator::Assign,
            Box::new(expected),
        )]
    );
}

#[test]
fn nothing_matching_any_rule_is_a_parse_error() {
    let tokens = lex("= 5");
    let err = parser::parse(tokens).unwrap_err();
    assert_eq!(err.kind, yoloxide::errors::ParseErrorKind::NoParseRuleMatch);
}

#[test]
fn and_binds_tighter_than_or() {
    let statements = parse_line("1 or 0 and 0");
    let expected = Expression::BinaryOp(
        Operator::Or,
        Box::new(Expression::Value(Value::NumberVal(num(1)))),
        Box::new(Expression::BinaryOp(
            Operator::And,
            Box::new(Expression::Value(Value::NumberVal(num(0)))),
            Box::new(Expression::Value(Value::NumberVal(num(0)))),
        )),
    );
    assert_eq!(statements, vec![Statement::Expression(Box::new(expected))]);
}
