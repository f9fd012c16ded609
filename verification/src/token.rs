//! The token model: the immutable result values the lexer produces.
//!
//! A token is a classified lexeme together with the zero-based row and column
//! of its first character in the source text.

use vstd::prelude::*;

verus! {

/// The closed set of token categories.
///
/// `Int` and `Float` carry the exact source substring that forms the literal,
/// verbatim and unparsed. `EOF` marks exhausted input; `ILLEGAL` marks one
/// unrecognized character that was skipped.
#[derive(Debug)]
pub enum TokenType {
    Plus,
    Minus,
    Star,
    Slash,
    SemiColon,
    Int(String),
    Float(String),
    EOF,
    ILLEGAL,
}

/// The mathematical image of a `TokenType`: literal payloads become
/// sequences of characters.
pub enum TokenTypeView {
    Plus,
    Minus,
    Star,
    Slash,
    SemiColon,
    Int(Seq<char>),
    Float(Seq<char>),
    EOF,
    ILLEGAL,
}

impl View for TokenType {
    type V = TokenTypeView;

    open spec fn view(&self) -> TokenTypeView {
        match self {
            TokenType::Plus => TokenTypeView::Plus,
            TokenType::Minus => TokenTypeView::Minus,
            TokenType::Star => TokenTypeView::Star,
            TokenType::Slash => TokenTypeView::Slash,
            TokenType::SemiColon => TokenTypeView::SemiColon,
            TokenType::Int(s) => TokenTypeView::Int(s@),
            TokenType::Float(s) => TokenTypeView::Float(s@),
            TokenType::EOF => TokenTypeView::EOF,
            TokenType::ILLEGAL => TokenTypeView::ILLEGAL,
        }
    }
}

impl PartialEq for TokenType {
    fn eq(&self, other: &TokenType) -> bool {
        match (self, other) {
            (TokenType::Plus, TokenType::Plus) => true,
            (TokenType::Minus, TokenType::Minus) => true,
            (TokenType::Star, TokenType::Star) => true,
            (TokenType::Slash, TokenType::Slash) => true,
            (TokenType::SemiColon, TokenType::SemiColon) => true,
            (TokenType::Int(a), TokenType::Int(b)) => *a == *b,
            (TokenType::Float(a), TokenType::Float(b)) => *a == *b,
            (TokenType::EOF, TokenType::EOF) => true,
            (TokenType::ILLEGAL, TokenType::ILLEGAL) => true,
            _ => false,
        }
    }
}

impl vstd::std_specs::cmp::PartialEqSpecImpl for TokenType {
    open spec fn obeys_eq_spec() -> bool {
        true
    }

    open spec fn eq_spec(&self, other: &TokenType) -> bool {
        self@ == other@
    }
}

/// One classified, positioned unit of source text.
#[derive(Debug)]
pub struct Token {
    pub row: usize,
    pub col: usize,
    pub token_type: TokenType,
}

/// The mathematical image of a `Token`.
pub struct TokenView {
    pub row: nat,
    pub col: nat,
    pub token_type: TokenTypeView,
}

impl View for Token {
    type V = TokenView;

    open spec fn view(&self) -> TokenView {
        TokenView { row: self.row as nat, col: self.col as nat, token_type: self.token_type@ }
    }
}

impl PartialEq for Token {
    fn eq(&self, other: &Token) -> bool {
        self.row == other.row && self.col == other.col && self.token_type == other.token_type
    }
}

impl vstd::std_specs::cmp::PartialEqSpecImpl for Token {
    open spec fn obeys_eq_spec() -> bool {
        true
    }

    open spec fn eq_spec(&self, other: &Token) -> bool {
        self@ == other@
    }
}

impl Token {
    /// Builds a token from its location and kind.
    pub fn new(row: usize, col: usize, token_type: TokenType) -> (t: Token)
        ensures
            t == (Token { row, col, token_type }),
    {
        Token { row, col, token_type }
    }
}

} // verus!
