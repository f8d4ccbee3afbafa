//! Tests of the lexer: token classification, comment and whitespace
//! skipping, and lexical errors.

use hjc::errors::LexError;
use hjc::lexer::{create_tokens, Token, TokenType};

fn kinds_and_values(tokens: &[Token]) -> Vec<(TokenType, String)> {
    tokens
        .iter()
        .map(|t| (t.kind, t.value.clone()))
        .collect()
}

#[test]
fn tokenizes_a_definition() {
    let toks = create_tokens("let int x = 42;".to_string()).expect("must tokenize");
    assert_eq!(
        kinds_and_values(&toks),
        vec![
            (TokenType::Keyword, "let".to_string()),
            (TokenType::InbuiltType, "int".to_string()),
            (TokenType::Name, "x".to_string()),
            (TokenType::AssignmentOperator, "=".to_string()),
            (TokenType::NumberLiteral, "42".to_string()),
            (TokenType::Semicolon, ";".to_string()),
        ]
    );
}

#[test]
fn comment_is_skipped() {
    let with_comment = create_tokens("// comment\nlet x = 1;".to_string()).unwrap();
    let without = create_tokens("let x = 1;".to_string()).unwrap();
    assert_eq!(kinds_and_values(&with_comment), kinds_and_values(&without));
}

#[test]
fn comment_at_end_of_input() {
    let toks = create_tokens("let x = 1; // trailing".to_string()).unwrap();
    assert_eq!(toks.len(), 5);
}

#[test]
fn whitespace_only_yields_no_tokens() {
    let toks = create_tokens(" \n\t ".to_string()).unwrap();
    assert!(toks.is_empty());
}

#[test]
fn compound_assignment_operators() {
    let toks = create_tokens("x += 1; y *= 2; z %= 3;".to_string()).unwrap();
    assert_eq!(toks[1].kind, TokenType::AssignmentOperator);
    assert_eq!(toks[1].value, "+=");
    assert_eq!(toks[5].kind, TokenType::AssignmentOperator);
    assert_eq!(toks[5].value, "*=");
    assert_eq!(toks[9].kind, TokenType::AssignmentOperator);
    assert_eq!(toks[9].value, "%=");
}

#[test]
fn operators_and_punctuation() {
    let toks = create_tokens("( ) [ ] { } , ; + - * / %".to_string()).unwrap();
    let kinds: Vec<TokenType> = toks.iter().map(|t| t.kind).collect();
    assert_eq!(
        kinds,
        vec![
            TokenType::OpenParen,
            TokenType::CloseParen,
            TokenType::OpenBracket,
            TokenType::CloseBracket,
            TokenType::OpenBrace,
            TokenType::CloseBrace,
            TokenType::Comma,
            TokenType::Semicolon,
            TokenType::Operator,
            TokenType::Operator,
            TokenType::Operator,
            TokenType::Operator,
            TokenType::Operator,
        ]
    );
}

#[test]
fn keywords_types_and_literals_are_classified() {
    let toks = create_tokens("if else while let uint ufloat float bool char str true false foo".to_string())
        .unwrap();
    let kinds: Vec<TokenType> = toks.iter().map(|t| t.kind).collect();
    assert_eq!(
        kinds,
        vec![
            TokenType::Keyword,
            TokenType::Keyword,
            TokenType::Keyword,
            TokenType::Keyword,
            TokenType::InbuiltType,
            TokenType::InbuiltType,
            TokenType::InbuiltType,
            TokenType::InbuiltType,
            TokenType::InbuiltType,
            TokenType::InbuiltType,
            TokenType::BoolLiteral,
            TokenType::BoolLiteral,
            TokenType::Name,
        ]
    );
}

#[test]
fn string_and_char_literals_keep_their_quotes() {
    let toks = create_tokens("\"hello\" 'c'".to_string()).unwrap();
    assert_eq!(toks[0].kind, TokenType::StringLiteral);
    assert_eq!(toks[0].value, "\"hello\"");
    assert_eq!(toks[1].kind, TokenType::CharLiteral);
    assert_eq!(toks[1].value, "'c'");
}

#[test]
fn float_literal_is_one_token() {
    let toks = create_tokens("3.25".to_string()).unwrap();
    assert_eq!(toks.len(), 1);
    assert_eq!(toks[0].kind, TokenType::NumberLiteral);
    assert_eq!(toks[0].value, "3.25");
}

#[test]
fn unterminated_char_literal_fails() {
    let e = create_tokens("let c = 'x".to_string()).unwrap_err();
    assert_eq!(e, LexError::UnterminatedCharLiteral);
}

#[test]
fn unterminated_string_literal_fails() {
    let e = create_tokens("let s = \"abc".to_string()).unwrap_err();
    assert_eq!(e, LexError::UnterminatedStringLiteral);
}

#[test]
fn number_with_two_dots_fails() {
    let e = create_tokens("1.2.3".to_string()).unwrap_err();
    assert_eq!(e, LexError::InvalidNumber);
}

#[test]
fn number_ending_with_dot_fails() {
    let e = create_tokens("7.".to_string()).unwrap_err();
    assert_eq!(e, LexError::InvalidNumber);
}

#[test]
fn unexpected_character_fails() {
    let e = create_tokens("let x @ 1;".to_string()).unwrap_err();
    assert_eq!(e, LexError::UnexpectedChar { found: '@' });
}

#[test]
fn first_lexical_error_aborts() {
    // the unterminated string comes first and wins over the later bad char
    let e = create_tokens("\"abc @".to_string()).unwrap_err();
    assert_eq!(e, LexError::UnterminatedStringLiteral);
}

#[test]
fn token_debug_str_renders_kind_and_text() {
    let toks = create_tokens("let".to_string()).unwrap();
    assert_eq!(toks[0].debug_str(), "Keyword (\"let\")");
    assert_eq!(TokenType::OpenParen.debug_str(), "Opening parenthesis");
}

#[test]
fn lexical_error_messages() {
    assert_eq!(
        LexError::UnexpectedChar { found: '@' }.message(),
        "Unexpected character '@'!"
    );
    assert_eq!(LexError::InvalidNumber.message(), "Invalid number syntax!");
}

#[test]
fn non_ascii_text_inside_string_literal() {
    let toks = create_tokens("let s = \"héllo\"; let y = 1;".to_string()).unwrap();
    assert_eq!(toks[3].kind, TokenType::StringLiteral);
    assert_eq!(toks[3].value, "\"héllo\"");
    // the characters after the literal are consumed exactly
    assert_eq!(toks[5].value, "let");
    assert_eq!(toks.last().unwrap().value, ";");
}

#[test]
fn dot_cannot_start_a_number() {
    let e = create_tokens(".5".to_string()).unwrap_err();
    assert_eq!(e, LexError::UnexpectedChar { found: '.' });
}
