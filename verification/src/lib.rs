pub mod lexer;
pub mod token;
