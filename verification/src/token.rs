//! The tokens of the Whisp language.
use vstd::prelude::*;

verus! {

/// A lexical token of Whisp source text.
#[derive(Debug, PartialEq)]
pub enum Token {
    // Keywords
    Array,
    Let,
    If,
    Elif,
    Else,
    While,
    For,
    In,
    Def,
    Return,
    Import,
    // Literals and Identifiers
    Identifier(String),
    Int(i32),
    Bool(bool),
    String(String),
    // Arithmetic Operators
    Add,
    Sub,
    Mul,
    Div,
    Mod,
    // Assignment & Comparison
    Assign,
    Equal,
    GreaterThan,
    LessThan,
    GreaterEqual,
    LessEqual,
    // Logical Operators
    And,
    Or,
    // Punctuation
    LParen,
    RParen,
    LBrace,
    RBrace,
    LBracket,
    RBracket,
    Comma,
    Semicolon,
    DoubleColon,
    // End of file/input
    Eof,
}

/// The mathematical model of a [`Token`]: strings are sequences of characters.
pub enum SpecToken {
    Array,
    Let,
    If,
    Elif,
    Else,
    While,
    For,
    In,
    Def,
    Return,
    Import,
    Identifier(Seq<char>),
    Int(i32),
    Bool(bool),
    String(Seq<char>),
    Add,
    Sub,
    Mul,
    Div,
    Mod,
    Assign,
    Equal,
    GreaterThan,
    LessThan,
    GreaterEqual,
    LessEqual,
    And,
    Or,
    LParen,
    RParen,
    LBrace,
    RBrace,
    LBracket,
    RBracket,
    Comma,
    Semicolon,
    DoubleColon,
    Eof,
}

impl View for Token {
    type V = SpecToken;

    open spec fn view(&self) -> SpecToken {
        match self {
            Token::Array => SpecToken::Array,
            Token::Let => SpecToken::Let,
            Token::If => SpecToken::If,
            Token::Elif => SpecToken::Elif,
            Token::Else => SpecToken::Else,
            Token::While => SpecToken::While,
            Token::For => SpecToken::For,
            Token::In => SpecToken::In,
            Token::Def => SpecToken::Def,
            Token::Return => SpecToken::Return,
            Token::Import => SpecToken::Import,
            Token::Identifier(s) => SpecToken::Identifier(s@),
            Token::Int(n) => SpecToken::Int(*n),
            Token::Bool(b) => SpecToken::Bool(*b),
            Token::String(s) => SpecToken::String(s@),
            Token::Add => SpecToken::Add,
            Token::Sub => SpecToken::Sub,
            Token::Mul => SpecToken::Mul,
            Token::Div => SpecToken::Div,
            Token::Mod => SpecToken::Mod,
            Token::Assign => SpecToken::Assign,
            Token::Equal => SpecToken::Equal,
            Token::GreaterThan => SpecToken::GreaterThan,
            Token::LessThan => SpecToken::LessThan,
            Token::GreaterEqual => SpecToken::GreaterEqual,
            Token::LessEqual => SpecToken::LessEqual,
            Token::And => SpecToken::And,
            Token::Or => SpecToken::Or,
            Token::LParen => SpecToken::LParen,
            Token::RParen => SpecToken::RParen,
            Token::LBrace => SpecToken::LBrace,
            Token::RBrace => SpecToken::RBrace,
            Token::LBracket => SpecToken::LBracket,
            Token::RBracket => SpecToken::RBracket,
            Token::Comma => SpecToken::Comma,
            Token::Semicolon => SpecToken::Semicolon,
            Token::DoubleColon => SpecToken::DoubleColon,
            Token::Eof => SpecToken::Eof,
        }
    }
}

impl Clone for Token {
    fn clone(&self) -> (r: Self)
        ensures
            r == *self,
    {
        match self {
            Token::Array => Token::Array,
            Token::Let => Token::Let,
            Token::If => Token::If,
            Token::Elif => Token::Elif,
            Token::Else => Token::Else,
            Token::While => Token::While,
            Token::For => Token::For,
            Token::In => Token::In,
            Token::Def => Token::Def,
            Token::Return => Token::Return,
            Token::Import => Token::Import,
            Token::Identifier(s) => Token::Identifier(s.clone()),
            Token::Int(n) => Token::Int(*n),
            Token::Bool(b) => Token::Bool(*b),
            Token::String(s) => Token::String(s.clone()),
            Token::Add => Token::Add,
            Token::Sub => Token::Sub,
            Token::Mul => Token::Mul,
            Token::Div => Token::Div,
            Token::Mod => Token::Mod,
            Token::Assign => Token::Assign,
            Token::Equal => Token::Equal,
            Token::GreaterThan => Token::GreaterThan,
            Token::LessThan => Token::LessThan,
            Token::GreaterEqual => Token::GreaterEqual,
            Token::LessEqual => Token::LessEqual,
            Token::And => Token::And,
            Token::Or => Token::Or,
            Token::LParen => Token::LParen,
            Token::RParen => Token::RParen,
            Token::LBrace => Token::LBrace,
            Token::RBrace => Token::RBrace,
            Token::LBracket => Token::LBracket,
            Token::RBracket => Token::RBracket,
            Token::Comma => Token::Comma,
            Token::Semicolon => Token::Semicolon,
            Token::DoubleColon => Token::DoubleColon,
            Token::Eof => Token::Eof,
        }
    }
}

/// Compares two tokens: same kind and equal payloads.
pub fn token_eq(a: &Token, b: &Token) -> (r: bool)
    ensures
        r == (a@ == b@),
{
    match (a, b) {
        (Token::Identifier(x), Token::Identifier(y)) => *x == *y,
        (Token::String(x), Token::String(y)) => *x == *y,
        (Token::Int(x), Token::Int(y)) => *x == *y,
        (Token::Bool(x), Token::Bool(y)) => *x == *y,
        (Token::Identifier(_), _) | (Token::Int(_), _) | (Token::Bool(_), _) | (Token::String(_), _) => false,
        (Token::Array, Token::Array) => true,
        (Token::Let, Token::Let) => true,
        (Token::If, Token::If) => true,
        (Token::Elif, Token::Elif) => true,
        (Token::Else, Token::Else) => true,
        (Token::While, Token::While) => true,
        (Token::For, Token::For) => true,
        (Token::In, Token::In) => true,
        (Token::Def, Token::Def) => true,
        (Token::Return, Token::Return) => true,
        (Token::Import, Token::Import) => true,
        (Token::Add, Token::Add) => true,
        (Token::Sub, Token::Sub) => true,
        (Token::Mul, Token::Mul) => true,
        (Token::Div, Token::Div) => true,
        (Token::Mod, Token::Mod) => true,
        (Token::Assign, Token::Assign) => true,
        (Token::Equal, Token::Equal) => true,
        (Token::GreaterThan, Token::GreaterThan) => true,
        (Token::LessThan, Token::LessThan) => true,
        (Token::GreaterEqual, Token::GreaterEqual) => true,
        (Token::LessEqual, Token::LessEqual) => true,
        (Token::And, Token::And) => true,
        (Token::Or, Token::Or) => true,
        (Token::LParen, Token::LParen) => true,
        (Token::RParen, Token::RParen) => true,
        (Token::LBrace, Token::LBrace) => true,
        (Token::RBrace, Token::RBrace) => true,
        (Token::LBracket, Token::LBracket) => true,
        (Token::RBracket, Token::RBracket) => true,
        (Token::Comma, Token::Comma) => true,
        (Token::Semicolon, Token::Semicolon) => true,
        (Token::DoubleColon, Token::DoubleColon) => true,
        (Token::Eof, Token::Eof) => true,
        _ => false,
    }
}

} // verus!
