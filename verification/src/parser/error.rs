//! Errors that the parser reports.
use vstd::prelude::*;

use crate::text::{decimal, push_decimal, push_str};
use crate::token::{SpecToken, Token};

verus! {

/// An error found while parsing.
#[derive(Debug, PartialEq)]
pub enum ParseError {
    /// `expect` found another token than the one it needed.
    Expected { expected: Token, found: Token },
    /// A token that starts no statement or expression.
    UnexpectedToken(Token),
    ExpectedIdentifier(Token),
    ExpectedLiteral(Token),
    ExpectedBoolean(Token),
    ExpectedComparison(Token),
    ExpectedOperand(Token),
    ExpectedArrayIndex(Token),
    ExpectedArgument(Token),
    /// A variable that is assigned to before it is declared.
    UndeclaredVariable(String),
    /// A variable that is passed as an argument before it is declared.
    UndeclaredArgument(String),
    /// A call of a function that is not declared.
    UndefinedFunction(String),
    /// The source text holds something that is no token; the lexer's message.
    Lexer(String),
}

/// The model of a [`ParseError`].
pub enum SpecParseError {
    Expected { expected: SpecToken, found: SpecToken },
    UnexpectedToken(SpecToken),
    ExpectedIdentifier(SpecToken),
    ExpectedLiteral(SpecToken),
    ExpectedBoolean(SpecToken),
    ExpectedComparison(SpecToken),
    ExpectedOperand(SpecToken),
    ExpectedArrayIndex(SpecToken),
    ExpectedArgument(SpecToken),
    UndeclaredVariable(Seq<char>),
    UndeclaredArgument(Seq<char>),
    UndefinedFunction(Seq<char>),
    Lexer(Seq<char>),
}

impl View for ParseError {
    type V = SpecParseError;

    open spec fn view(&self) -> SpecParseError {
        match self {
            ParseError::Expected { expected, found } => SpecParseError::Expected {
                expected: expected@,
                found: found@,
            },
            ParseError::UnexpectedToken(t) => SpecParseError::UnexpectedToken(t@),
            ParseError::ExpectedIdentifier(t) => SpecParseError::ExpectedIdentifier(t@),
            ParseError::ExpectedLiteral(t) => SpecParseError::ExpectedLiteral(t@),
            ParseError::ExpectedBoolean(t) => SpecParseError::ExpectedBoolean(t@),
            ParseError::ExpectedComparison(t) => SpecParseError::ExpectedComparison(t@),
            ParseError::ExpectedOperand(t) => SpecParseError::ExpectedOperand(t@),
            ParseError::ExpectedArrayIndex(t) => SpecParseError::ExpectedArrayIndex(t@),
            ParseError::ExpectedArgument(t) => SpecParseError::ExpectedArgument(t@),
            ParseError::UndeclaredVariable(n) => SpecParseError::UndeclaredVariable(n@),
            ParseError::UndeclaredArgument(n) => SpecParseError::UndeclaredArgument(n@),
            ParseError::UndefinedFunction(n) => SpecParseError::UndefinedFunction(n@),
            ParseError::Lexer(m) => SpecParseError::Lexer(m@),
        }
    }
}

/// What `Debug` writes for a string: the string in double quotes, with the
/// characters escaped that std's rules (which consult Unicode tables) escape.
pub uninterp spec fn str_debug(s: Seq<char>) -> Seq<char>;

/// `<str as Debug>::fmt`, called through `format!("{:?}", ..)`. The contract
/// names its result, a function of the string alone, and says nothing more
/// of it.
#[verifier::external_body]
fn debug_str(t: &str) -> (r: String)
    ensures
        r@ == str_debug(t@),
{
    format!("{:?}", t)
}

/// The name of a token's variant.
pub open spec fn token_name(t: SpecToken) -> Seq<char> {
    match t {
        SpecToken::Array => "Array"@,
        SpecToken::Let => "Let"@,
        SpecToken::If => "If"@,
        SpecToken::Elif => "Elif"@,
        SpecToken::Else => "Else"@,
        SpecToken::While => "While"@,
        SpecToken::For => "For"@,
        SpecToken::In => "In"@,
        SpecToken::Def => "Def"@,
        SpecToken::Return => "Return"@,
        SpecToken::Import => "Import"@,
        SpecToken::Add => "Add"@,
        SpecToken::Sub => "Sub"@,
        SpecToken::Mul => "Mul"@,
        SpecToken::Div => "Div"@,
        SpecToken::Mod => "Mod"@,
        SpecToken::Assign => "Assign"@,
        SpecToken::Equal => "Equal"@,
        SpecToken::GreaterThan => "GreaterThan"@,
        SpecToken::LessThan => "LessThan"@,
        SpecToken::GreaterEqual => "GreaterEqual"@,
        SpecToken::LessEqual => "LessEqual"@,
        SpecToken::And => "And"@,
        SpecToken::Or => "Or"@,
        SpecToken::LParen => "LParen"@,
        SpecToken::RParen => "RParen"@,
        SpecToken::LBrace => "LBrace"@,
        SpecToken::RBrace => "RBrace"@,
        SpecToken::LBracket => "LBracket"@,
        SpecToken::RBracket => "RBracket"@,
        SpecToken::Comma => "Comma"@,
        SpecToken::Semicolon => "Semicolon"@,
        SpecToken::DoubleColon => "DoubleColon"@,
        SpecToken::Eof => "Eof"@,
        SpecToken::Identifier(_) => "Identifier"@,
        SpecToken::String(_) => "String"@,
        SpecToken::Int(_) => "Int"@,
        SpecToken::Bool(_) => "Bool"@,
    }
}

/// The value a token carries, as `Debug` writes it; `None` for a token
/// without one.
pub open spec fn token_field(t: SpecToken) -> Option<Seq<char>> {
    match t {
        SpecToken::Identifier(n) => Some(str_debug(n)),
        SpecToken::String(v) => Some(str_debug(v)),
        SpecToken::Int(n) => Some(decimal(n as int)),
        SpecToken::Bool(b) => Some(if b { "true"@ } else { "false"@ }),
        _ => None,
    }
}

/// A token written from its variant's name and the value it carries: in the
/// plain form (`{:?}`) as `Name(value)`; in the pretty form (`{:#?}`) with the
/// value on a line of its own, indented by four spaces.
pub open spec fn token_form(name: Seq<char>, field: Option<Seq<char>>, pretty: bool) -> Seq<char> {
    match field {
        None => name,
        Some(f) => if pretty {
            name + "(\n    "@ + f + ",\n)"@
        } else {
            name + "("@ + f + ")"@
        },
    }
}

/// How a token is written in messages (`{:?}`).
pub open spec fn token_text(t: SpecToken) -> Seq<char> {
    token_form(token_name(t), token_field(t), false)
}

/// How a token is written in its pretty form (`{:#?}`).
pub open spec fn token_pretty(t: SpecToken) -> Seq<char> {
    token_form(token_name(t), token_field(t), true)
}

/// Appends the name of a token's variant.
fn push_token_name(s: &mut String, t: &Token)
    ensures
        final(s)@ == old(s)@ + token_name(t@),
{
    match t {
        Token::Array => push_str(s, "Array"),
        Token::Let => push_str(s, "Let"),
        Token::If => push_str(s, "If"),
        Token::Elif => push_str(s, "Elif"),
        Token::Else => push_str(s, "Else"),
        Token::While => push_str(s, "While"),
        Token::For => push_str(s, "For"),
        Token::In => push_str(s, "In"),
        Token::Def => push_str(s, "Def"),
        Token::Return => push_str(s, "Return"),
        Token::Import => push_str(s, "Import"),
        Token::Add => push_str(s, "Add"),
        Token::Sub => push_str(s, "Sub"),
        Token::Mul => push_str(s, "Mul"),
        Token::Div => push_str(s, "Div"),
        Token::Mod => push_str(s, "Mod"),
        Token::Assign => push_str(s, "Assign"),
        Token::Equal => push_str(s, "Equal"),
        Token::GreaterThan => push_str(s, "GreaterThan"),
        Token::LessThan => push_str(s, "LessThan"),
        Token::GreaterEqual => push_str(s, "GreaterEqual"),
        Token::LessEqual => push_str(s, "LessEqual"),
        Token::And => push_str(s, "And"),
        Token::Or => push_str(s, "Or"),
        Token::LParen => push_str(s, "LParen"),
        Token::RParen => push_str(s, "RParen"),
        Token::LBrace => push_str(s, "LBrace"),
        Token::RBrace => push_str(s, "RBrace"),
        Token::LBracket => push_str(s, "LBracket"),
        Token::RBracket => push_str(s, "RBracket"),
        Token::Comma => push_str(s, "Comma"),
        Token::Semicolon => push_str(s, "Semicolon"),
        Token::DoubleColon => push_str(s, "DoubleColon"),
        Token::Eof => push_str(s, "Eof"),
        Token::Identifier(_) => push_str(s, "Identifier"),
        Token::String(_) => push_str(s, "String"),
        Token::Int(_) => push_str(s, "Int"),
        Token::Bool(_) => push_str(s, "Bool"),
    }
}

/// The value a token carries, as `Debug` writes it; `None` for a token
/// without one.
pub fn token_field_text(t: &Token) -> (r: Option<String>)
    ensures
        match r {
            Some(f) => token_field(t@) == Some(f@),
            None => token_field(t@) is None,
        },
{
    match t {
        Token::Identifier(n) => Some(debug_str(n.as_str())),
        Token::String(v) => Some(debug_str(v.as_str())),
        Token::Int(n) => {
            let mut f = String::new();
            push_decimal(&mut f, *n as i64);
            Some(f)
        },
        Token::Bool(b) => Some(String::from_str(if *b { "true" } else { "false" })),
        _ => None,
    }
}

/// Appends `t` written with `field`, the value it carries, in the plain or
/// the pretty form.
pub fn push_token_form(s: &mut String, t: &Token, field: &Option<String>, pretty: bool)
    ensures
        final(s)@ == old(s)@ + token_form(
            token_name(t@),
            match field {
                Some(f) => Some(f@),
                None => None,
            },
            pretty,
        ),
{
    push_token_name(s, t);
    match field {
        Some(f) => {
            if pretty {
                push_str(s, "(\n    ");
                push_str(s, f.as_str());
                push_str(s, ",\n)");
            } else {
                push_str(s, "(");
                push_str(s, f.as_str());
                push_str(s, ")");
            }
        },
        None => {},
    }
    assert(final(s)@ =~= old(s)@ + token_form(
        token_name(t@),
        match field {
            Some(f) => Some(f@),
            None => None,
        },
        pretty,
    ));
}

/// Appends how `t` is written in messages.
pub fn push_token_text(s: &mut String, t: &Token)
    ensures
        final(s)@ == old(s)@ + token_text(t@),
{
    let f = token_field_text(t);
    push_token_form(s, t, &f, false);
}

/// Appends the pretty form of `t`.
pub fn push_token_pretty(s: &mut String, t: &Token)
    ensures
        final(s)@ == old(s)@ + token_pretty(t@),
{
    let f = token_field_text(t);
    push_token_form(s, t, &f, true);
}

/// The message text of a parse error.
pub open spec fn parse_error_message(e: SpecParseError) -> Seq<char> {
    match e {
        SpecParseError::Expected { expected, found } => "expected "@ + token_pretty(expected)
            + ", but found "@ + token_pretty(found),
        SpecParseError::UnexpectedToken(t) => "Unexpected token: "@ + token_text(t),
        SpecParseError::ExpectedIdentifier(t) => "Expected identifier, found "@ + token_text(t),
        SpecParseError::ExpectedLiteral(t) => "Expected literal, found "@ + token_text(t),
        SpecParseError::ExpectedBoolean(t) => "Expected boolean value, found "@ + token_text(t),
        SpecParseError::ExpectedComparison(t) => "Expected comparison operator, found "@ + token_text(t),
        SpecParseError::ExpectedOperand(t) => "Expected operand, found "@ + token_text(t),
        SpecParseError::ExpectedArrayIndex(t) => "Expected Int or Identifier for array index, found "@
            + token_text(t),
        SpecParseError::ExpectedArgument(t) => "Expected argument term, found "@ + token_text(t),
        SpecParseError::UndeclaredVariable(n) => "Undeclared variable '"@ + n + "'."@,
        SpecParseError::UndeclaredArgument(n) => "Undeclared variable '"@ + n + "'"@,
        SpecParseError::UndefinedFunction(n) => "Undefined function name found '"@ + n + "'"@,
        SpecParseError::Lexer(m) => m,
    }
}

impl ParseError {
    /// The human-readable message of this error.
    pub fn message(&self) -> (r: String)
        ensures
            r@ == parse_error_message(self@),
    {
        let mut s = String::new();
        match self {
            ParseError::Expected { expected, found } => {
                push_str(&mut s, "expected ");
                push_token_pretty(&mut s, expected);
                push_str(&mut s, ", but found ");
                push_token_pretty(&mut s, found);
            },
            ParseError::UnexpectedToken(t) => {
                push_str(&mut s, "Unexpected token: ");
                push_token_text(&mut s, t);
            },
            ParseError::ExpectedIdentifier(t) => {
                push_str(&mut s, "Expected identifier, found ");
                push_token_text(&mut s, t);
            },
            ParseError::ExpectedLiteral(t) => {
                push_str(&mut s, "Expected literal, found ");
                push_token_text(&mut s, t);
            },
            ParseError::ExpectedBoolean(t) => {
                push_str(&mut s, "Expected boolean value, found ");
                push_token_text(&mut s, t);
            },
            ParseError::ExpectedComparison(t) => {
                push_str(&mut s, "Expected comparison operator, found ");
                push_token_text(&mut s, t);
            },
            ParseError::ExpectedOperand(t) => {
                push_str(&mut s, "Expected operand, found ");
                push_token_text(&mut s, t);
            },
            ParseError::ExpectedArrayIndex(t) => {
                push_str(&mut s, "Expected Int or Identifier for array index, found ");
                push_token_text(&mut s, t);
            },
            ParseError::ExpectedArgument(t) => {
                push_str(&mut s, "Expected argument term, found ");
                push_token_text(&mut s, t);
            },
            ParseError::UndeclaredVariable(n) => {
                push_str(&mut s, "Undeclared variable '");
                push_str(&mut s, n.as_str());
                push_str(&mut s, "'.");
            },
            ParseError::UndeclaredArgument(n) => {
                push_str(&mut s, "Undeclared variable '");
                push_str(&mut s, n.as_str());
                push_str(&mut s, "'");
            },
            ParseError::UndefinedFunction(n) => {
                push_str(&mut s, "Undefined function name found '");
                push_str(&mut s, n.as_str());
                push_str(&mut s, "'");
            },
            ParseError::Lexer(m) => push_str(&mut s, m.as_str()),
        }
        s
    }
}

} // verus!
