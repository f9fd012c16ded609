use scy::lexer::Lexer;
use scy::token::{Token, TokenType};

#[test]
fn lexer_read() {
    let input = "24568 + 97248-12340 * 10 / 2".to_string();
    let mut lexer = Lexer::new(&input);
    assert_eq!(
        lexer.read(),
        Token::new(0, 0, TokenType::Int("24568".to_string()))
    );
    assert_eq!(lexer.read(), Token::new(0, 6, TokenType::Plus));
    assert_eq!(
        lexer.read(),
        Token::new(0, 8, TokenType::Int("97248".to_string()))
    );
    assert_eq!(lexer.read(), Token::new(0, 13, TokenType::Minus));
    assert_eq!(
        lexer.read(),
        Token::new(0, 14, TokenType::Int("12340".to_string()))
    );
    assert_eq!(lexer.read(), Token::new(0, 20, TokenType::Star));
    assert_eq!(
        lexer.read(),
        Token::new(0, 22, TokenType::Int("10".to_string()))
    );
    assert_eq!(lexer.read(), Token::new(0, 25, TokenType::Slash));
    assert_eq!(
        lexer.read(),
        Token::new(0, 27, TokenType::Int("2".to_string()))
    );
}

#[test]
fn lexer_read_multiline() {
    let input = "2\n+ 30 -\n    400".to_string();
    let mut lexer = Lexer::new(&input);
    assert_eq!(
        lexer.read(),
        Token::new(0, 0, TokenType::Int("2".to_string()))
    );
    assert_eq!(lexer.read(), Token::new(1, 0, TokenType::Plus));
    assert_eq!(
        lexer.read(),
        Token::new(1, 2, TokenType::Int("30".to_string()))
    );
    assert_eq!(lexer.read(), Token::new(1, 5, TokenType::Minus));
    assert_eq!(
        lexer.read(),
        Token::new(2, 4, TokenType::Int("400".to_string()))
    );
}

#[test]
fn lexer_read_float() {
    let input = "100.0 * 3.14".to_string();
    let mut lexer = Lexer::new(&input);
    assert_eq!(
        lexer.read(),
        Token::new(0, 0, TokenType::Float("100.0".to_string()))
    );
    assert_eq!(lexer.read(), Token::new(0, 6, TokenType::Star));
    assert_eq!(
        lexer.read(),
        Token::new(0, 8, TokenType::Float("3.14".to_string()))
    );
}

#[test]
fn all_digits_single_int_then_eof() {
    let input = "4097".to_string();
    let mut lexer = Lexer::new(&input);
    assert_eq!(
        lexer.read(),
        Token::new(0, 0, TokenType::Int("4097".to_string()))
    );
    assert_eq!(lexer.read(), Token::new(0, 4, TokenType::EOF));
}

#[test]
fn one_dot_single_float_then_eof() {
    let input = "12.5".to_string();
    let mut lexer = Lexer::new(&input);
    assert_eq!(
        lexer.read(),
        Token::new(0, 0, TokenType::Float("12.5".to_string()))
    );
    assert_eq!(lexer.read(), Token::new(0, 4, TokenType::EOF));
}

#[test]
fn trailing_dot_is_part_of_float() {
    let input = "3.".to_string();
    let mut lexer = Lexer::new(&input);
    assert_eq!(
        lexer.read(),
        Token::new(0, 0, TokenType::Float("3.".to_string()))
    );
    assert_eq!(lexer.read(), Token::new(0, 2, TokenType::EOF));
}

#[test]
fn many_dots_still_one_float() {
    let input = "1.2.3".to_string();
    let mut lexer = Lexer::new(&input);
    assert_eq!(
        lexer.read(),
        Token::new(0, 0, TokenType::Float("1.2.3".to_string()))
    );
    assert_eq!(lexer.read(), Token::new(0, 5, TokenType::EOF));
}

#[test]
fn blanks_only_single_eof() {
    let input = " \t  ".to_string();
    let mut lexer = Lexer::new(&input);
    assert_eq!(lexer.read(), Token::new(0, 4, TokenType::EOF));
    assert_eq!(lexer.read(), Token::new(0, 4, TokenType::EOF));
}

#[test]
fn empty_input_single_eof() {
    let input = String::new();
    let mut lexer = Lexer::new(&input);
    assert_eq!(lexer.read(), Token::new(0, 0, TokenType::EOF));
}

#[test]
fn line_terminators_advance_row_and_reset_col() {
    let input = "1\r2\r\n 3".to_string();
    let mut lexer = Lexer::new(&input);
    assert_eq!(
        lexer.read(),
        Token::new(0, 0, TokenType::Int("1".to_string()))
    );
    assert_eq!(
        lexer.read(),
        Token::new(1, 0, TokenType::Int("2".to_string()))
    );
    assert_eq!(
        lexer.read(),
        Token::new(3, 1, TokenType::Int("3".to_string()))
    );
    assert_eq!(lexer.read(), Token::new(3, 2, TokenType::EOF));
}

#[test]
fn eof_is_idempotent() {
    let input = "7".to_string();
    let mut lexer = Lexer::new(&input);
    assert_eq!(
        lexer.read(),
        Token::new(0, 0, TokenType::Int("7".to_string()))
    );
    let first_eof = lexer.read();
    assert_eq!(first_eof, Token::new(0, 1, TokenType::EOF));
    assert_eq!(lexer.read(), first_eof);
    assert_eq!(lexer.read(), first_eof);
}

#[test]
fn illegal_recovers_one_character() {
    let input = "1$2".to_string();
    let mut lexer = Lexer::new(&input);
    assert_eq!(
        lexer.read(),
        Token::new(0, 0, TokenType::Int("1".to_string()))
    );
    assert_eq!(lexer.read(), Token::new(0, 1, TokenType::ILLEGAL));
    assert_eq!(
        lexer.read(),
        Token::new(0, 2, TokenType::Int("2".to_string()))
    );
    assert_eq!(lexer.read(), Token::new(0, 3, TokenType::EOF));
}

#[test]
fn semicolon_is_an_operator() {
    let input = "1;2".to_string();
    let mut lexer = Lexer::new(&input);
    assert_eq!(
        lexer.read(),
        Token::new(0, 0, TokenType::Int("1".to_string()))
    );
    assert_eq!(lexer.read(), Token::new(0, 1, TokenType::SemiColon));
    assert_eq!(
        lexer.read(),
        Token::new(0, 2, TokenType::Int("2".to_string()))
    );
    assert_eq!(lexer.read(), Token::new(0, 3, TokenType::EOF));
}

#[test]
fn leading_dot_is_illegal_not_a_number() {
    let input = ".5".to_string();
    let mut lexer = Lexer::new(&input);
    assert_eq!(lexer.read(), Token::new(0, 0, TokenType::ILLEGAL));
    assert_eq!(
        lexer.read(),
        Token::new(0, 1, TokenType::Int("5".to_string()))
    );
    assert_eq!(lexer.read(), Token::new(0, 2, TokenType::EOF));
}
