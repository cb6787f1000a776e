//! The lexer: turns Whisp source text into a stream of tokens.
//!
//! The behaviour of the lexer is specified by [`lex_step`], which says what
//! token (or error) starts at a position of the input and where the next
//! token starts, and by [`lex_results`], the whole sequence of results that a
//! stream hands out before it is exhausted.
use vstd::prelude::*;

use crate::text::{digit_char, natural_digits, push_char, push_str, string_from_chars};
use crate::token::{SpecToken, Token};

verus! {

// ---------------------------------------------------------------------------
// Character classes
// ---------------------------------------------------------------------------

/// Unicode `White_Space`, the property that `char::is_whitespace` tests.
pub open spec fn is_whitespace(c: char) -> bool {
    ||| c == '\t' || c == '\n' || c == '\u{0B}' || c == '\u{0C}' || c == '\r' || c == ' '
    ||| c == '\u{85}' || c == '\u{A0}' || c == '\u{1680}'
    ||| ('\u{2000}' <= c && c <= '\u{200A}')
    ||| c == '\u{2028}' || c == '\u{2029}' || c == '\u{202F}' || c == '\u{205F}' || c == '\u{3000}'
}

pub open spec fn is_digit(c: char) -> bool {
    '0' <= c && c <= '9'
}

pub open spec fn is_alpha(c: char) -> bool {
    ('a' <= c && c <= 'z') || ('A' <= c && c <= 'Z')
}

/// A character that may continue an identifier.
pub open spec fn is_word_char(c: char) -> bool {
    is_alpha(c) || is_digit(c) || c == '_'
}

fn whitespace(c: char) -> (r: bool)
    ensures
        r == is_whitespace(c),
{
    c == '\t' || c == '\n' || c == '\u{0B}' || c == '\u{0C}' || c == '\r' || c == ' '
        || c == '\u{85}' || c == '\u{A0}' || c == '\u{1680}' || ('\u{2000}' <= c && c <= '\u{200A}')
        || c == '\u{2028}' || c == '\u{2029}' || c == '\u{202F}' || c == '\u{205F}' || c == '\u{3000}'
}

fn digit(c: char) -> (r: bool)
    ensures
        r == is_digit(c),
{
    '0' <= c && c <= '9'
}

fn word_char(c: char) -> (r: bool)
    ensures
        r == is_word_char(c),
{
    ('a' <= c && c <= 'z') || ('A' <= c && c <= 'Z') || ('0' <= c && c <= '9') || c == '_'
}

// ---------------------------------------------------------------------------
// Specification of a lexing step
// ---------------------------------------------------------------------------

/// Errors that the lexer reports.
#[derive(Debug, PartialEq, Eq, Clone, Copy)]
pub enum LexError {
    /// A character that starts no token.
    UnrecognizedChar(char),
    /// A backslash in a string literal followed by an unknown character.
    InvalidEscape(char),
    /// A backslash at the very end of the input, inside a string literal.
    UnterminatedEscape,
    /// A run of digits whose value does not fit in an `i32`.
    NumberOutOfRange,
    /// A `:` that is not followed by a second `:`.
    SingleColon,
}

/// The message text of a lexer error.
pub open spec fn lex_error_message(e: LexError) -> Seq<char> {
    match e {
        LexError::UnrecognizedChar(c) => "unrecognized character '"@ + seq![c] + "' found."@,
        LexError::InvalidEscape(c) => "Invalid escape character: \\"@ + seq![c],
        LexError::UnterminatedEscape => "Unterminated escape sequence."@,
        LexError::NumberOutOfRange => "unrecognozed numeric literal."@,
        LexError::SingleColon => "Unexpected single ':'."@,
    }
}

impl LexError {
    /// The human-readable message of this error.
    pub fn message(&self) -> (r: String)
        ensures
            r@ == lex_error_message(*self),
    {
        let mut s = String::new();
        match self {
            LexError::UnrecognizedChar(c) => {
                push_str(&mut s, "unrecognized character '");
                push_char(&mut s, *c);
                push_str(&mut s, "' found.");
            },
            LexError::InvalidEscape(c) => {
                push_str(&mut s, "Invalid escape character: \\");
                push_char(&mut s, *c);
            },
            LexError::UnterminatedEscape => push_str(&mut s, "Unterminated escape sequence."),
            LexError::NumberOutOfRange => push_str(&mut s, "unrecognozed numeric literal."),
            LexError::SingleColon => push_str(&mut s, "Unexpected single ':'."),
        }
        s
    }
}

/// Where the whitespace and `#` comments that start at `p` end. Inside a
/// comment (`in_comment`) everything up to and including the next newline is
/// skipped.
pub open spec fn trivia_end(s: Seq<char>, p: int, in_comment: bool) -> int
    decreases s.len() - p,
{
    if p < 0 || p >= s.len() {
        p
    } else if in_comment {
        trivia_end(s, p + 1, s[p] != '\n')
    } else if is_whitespace(s[p]) {
        trivia_end(s, p + 1, false)
    } else if s[p] == '#' {
        trivia_end(s, p + 1, true)
    } else {
        p
    }
}

/// Scans the body of a string literal from `p` (after the opening quote),
/// with `acc` the characters read so far. A literal that reaches the end of
/// the input without a closing quote ends there.
pub open spec fn scan_string(s: Seq<char>, p: int, acc: Seq<char>) -> (Result<Seq<char>, LexError>, int)
    decreases s.len() - p,
{
    if p < 0 || p >= s.len() {
        (Ok(acc), p)
    } else if s[p] == '"' {
        (Ok(acc), p + 1)
    } else if s[p] == '\\' {
        if p + 1 >= s.len() {
            (Err(LexError::UnterminatedEscape), p + 1)
        } else {
            let e = s[p + 1];
            if e == 'n' {
                scan_string(s, p + 2, acc.push('\n'))
            } else if e == 't' {
                scan_string(s, p + 2, acc.push('\t'))
            } else if e == '"' {
                scan_string(s, p + 2, acc.push('"'))
            } else if e == '\\' {
                scan_string(s, p + 2, acc.push('\\'))
            } else {
                (Err(LexError::InvalidEscape(e)), p + 2)
            }
        }
    } else {
        scan_string(s, p + 1, acc.push(s[p]))
    }
}

/// The end of the run of digits that starts at `p`.
pub open spec fn digits_end(s: Seq<char>, p: int) -> int
    decreases s.len() - p,
{
    if 0 <= p < s.len() && is_digit(s[p]) {
        digits_end(s, p + 1)
    } else {
        p
    }
}

/// The end of the run of identifier characters that starts at `p`.
pub open spec fn word_end(s: Seq<char>, p: int) -> int
    decreases s.len() - p,
{
    if 0 <= p < s.len() && is_word_char(s[p]) {
        word_end(s, p + 1)
    } else {
        p
    }
}

/// The value of a sequence of decimal digits.
pub open spec fn digits_value(ds: Seq<char>) -> int
    decreases ds.len(),
{
    if ds.len() == 0 {
        0
    } else {
        digits_value(ds.drop_last()) * 10 + (ds.last() as int - '0' as int)
    }
}

/// The token for a word: a keyword, a boolean literal or an identifier.
pub open spec fn word_token(w: Seq<char>) -> SpecToken {
    if w == "import"@ {
        SpecToken::Import
    } else if w == "let"@ {
        SpecToken::Let
    } else if w == "if"@ {
        SpecToken::If
    } else if w == "elif"@ {
        SpecToken::Elif
    } else if w == "else"@ {
        SpecToken::Else
    } else if w == "while"@ {
        SpecToken::While
    } else if w == "for"@ {
        SpecToken::For
    } else if w == "in"@ {
        SpecToken::In
    } else if w == "def"@ {
        SpecToken::Def
    } else if w == "return"@ {
        SpecToken::Return
    } else if w == "array"@ {
        SpecToken::Array
    } else if w == "and"@ {
        SpecToken::And
    } else if w == "or"@ {
        SpecToken::Or
    } else if w == "true"@ {
        SpecToken::Bool(true)
    } else if w == "false"@ {
        SpecToken::Bool(false)
    } else {
        SpecToken::Identifier(w)
    }
}

/// The token made of the single character `c`, if there is one.
pub open spec fn single_char_token(c: char) -> Option<SpecToken> {
    if c == '(' {
        Some(SpecToken::LParen)
    } else if c == ')' {
        Some(SpecToken::RParen)
    } else if c == '{' {
        Some(SpecToken::LBrace)
    } else if c == '}' {
        Some(SpecToken::RBrace)
    } else if c == '[' {
        Some(SpecToken::LBracket)
    } else if c == ']' {
        Some(SpecToken::RBracket)
    } else if c == ',' {
        Some(SpecToken::Comma)
    } else if c == ';' {
        Some(SpecToken::Semicolon)
    } else if c == '+' {
        Some(SpecToken::Add)
    } else if c == '-' {
        Some(SpecToken::Sub)
    } else if c == '*' {
        Some(SpecToken::Mul)
    } else if c == '/' {
        Some(SpecToken::Div)
    } else if c == '%' {
        Some(SpecToken::Mod)
    } else {
        None
    }
}

/// One lexing step from position `p`: the token (or error) found after the
/// whitespace and comments at `p`, and the position just after it. At the end
/// of the input the token is `Eof` and the position is the input's length.
pub open spec fn lex_step(s: Seq<char>, p: int) -> (Result<SpecToken, LexError>, int) {
    let q = trivia_end(s, p, false);
    if q >= s.len() {
        (Ok(SpecToken::Eof), q)
    } else {
        let c = s[q];
        let has_next = q + 1 < s.len();
        if single_char_token(c) is Some {
            (Ok(single_char_token(c)->Some_0), q + 1)
        } else if c == '=' {
            if has_next && s[q + 1] == '=' { (Ok(SpecToken::Equal), q + 2) }
            else { (Ok(SpecToken::Assign), q + 1) }
        } else if c == '>' {
            if has_next && s[q + 1] == '=' { (Ok(SpecToken::GreaterEqual), q + 2) }
            else { (Ok(SpecToken::GreaterThan), q + 1) }
        } else if c == '<' {
            if has_next && s[q + 1] == '=' { (Ok(SpecToken::LessEqual), q + 2) }
            else { (Ok(SpecToken::LessThan), q + 1) }
        } else if c == '"' {
            let (r, e) = scan_string(s, q + 1, seq![]);
            match r {
                Ok(body) => (Ok(SpecToken::String(body)), e),
                Err(err) => (Err(err), e),
            }
        } else if c == ':' {
            if has_next && s[q + 1] == ':' { (Ok(SpecToken::DoubleColon), q + 2) }
            else if has_next { (Err(LexError::SingleColon), q + 2) }
            else { (Err(LexError::SingleColon), q + 1) }
        } else if is_digit(c) {
            let e = digits_end(s, q);
            let v = digits_value(s.subrange(q, e));
            if v <= i32::MAX { (Ok(SpecToken::Int(v as i32)), e) }
            else { (Err(LexError::NumberOutOfRange), e) }
        } else if is_alpha(c) || c == '_' {
            let e = word_end(s, q);
            (Ok(word_token(s.subrange(q, e))), e)
        } else {
            (Err(LexError::UnrecognizedChar(c)), q + 1)
        }
    }
}

/// The result a token stream hands out for a lexing result: errors are
/// reported by their message.
pub open spec fn reported(r: Result<SpecToken, LexError>) -> Result<SpecToken, Seq<char>> {
    match r {
        Ok(t) => Ok(t),
        Err(e) => Err(lex_error_message(e)),
    }
}

pub proof fn lemma_trivia_end_bounds(s: Seq<char>, p: int, in_comment: bool)
    requires
        0 <= p <= s.len(),
    ensures
        p <= trivia_end(s, p, in_comment) <= s.len(),
    decreases s.len() - p,
{
    if p < s.len() {
        if in_comment {
            lemma_trivia_end_bounds(s, p + 1, s[p] != '\n');
        } else if is_whitespace(s[p]) {
            lemma_trivia_end_bounds(s, p + 1, false);
        } else if s[p] == '#' {
            lemma_trivia_end_bounds(s, p + 1, true);
        }
    }
}

pub proof fn lemma_scan_string_bounds(s: Seq<char>, p: int, acc: Seq<char>)
    requires
        0 <= p <= s.len(),
    ensures
        p <= scan_string(s, p, acc).1 <= s.len(),
    decreases s.len() - p,
{
    if p < s.len() && s[p] != '"' {
        if s[p] == '\\' {
            if p + 1 < s.len() {
                let e = s[p + 1];
                if e == 'n' {
                    lemma_scan_string_bounds(s, p + 2, acc.push('\n'));
                } else if e == 't' {
                    lemma_scan_string_bounds(s, p + 2, acc.push('\t'));
                } else if e == '"' {
                    lemma_scan_string_bounds(s, p + 2, acc.push('"'));
                } else if e == '\\' {
                    lemma_scan_string_bounds(s, p + 2, acc.push('\\'));
                }
            }
        } else {
            lemma_scan_string_bounds(s, p + 1, acc.push(s[p]));
        }
    }
}

pub proof fn lemma_digits_end_bounds(s: Seq<char>, p: int)
    requires
        0 <= p <= s.len(),
    ensures
        p <= digits_end(s, p) <= s.len(),
        forall|k: int| p <= k < digits_end(s, p) ==> is_digit(#[trigger] s[k]),
    decreases s.len() - p,
{
    if p < s.len() && is_digit(s[p]) {
        lemma_digits_end_bounds(s, p + 1);
    }
}

pub proof fn lemma_word_end_bounds(s: Seq<char>, p: int)
    requires
        0 <= p <= s.len(),
    ensures
        p <= word_end(s, p) <= s.len(),
    decreases s.len() - p,
{
    if p < s.len() && is_word_char(s[p]) {
        lemma_word_end_bounds(s, p + 1);
    }
}

/// A lexing step ends within the input, and, unless only whitespace and
/// comments are left, strictly after its starting position.
pub proof fn lemma_lex_step_advances(s: Seq<char>, p: int)
    requires
        0 <= p <= s.len(),
    ensures
        p <= lex_step(s, p).1 <= s.len(),
        trivia_end(s, p, false) < s.len() ==> p < lex_step(s, p).1,
{
    lemma_trivia_end_bounds(s, p, false);
    let q = trivia_end(s, p, false);
    if q < s.len() {
        lemma_scan_string_bounds(s, q + 1, seq![]);
        lemma_digits_end_bounds(s, q);
        lemma_word_end_bounds(s, q);
        let c = s[q];
        if is_digit(c) {
            lemma_digits_end_bounds(s, q + 1);
        }
        if is_alpha(c) || c == '_' {
            lemma_word_end_bounds(s, q + 1);
        }
    }
}

/// Every result that a token stream over `s` hands out from position `p`
/// until only whitespace and comments are left; after that it hands out `Eof`.
pub open spec fn lex_results(s: Seq<char>, p: int) -> Seq<Result<SpecToken, Seq<char>>>
    decreases s.len() - p,
{
    if p < 0 || p > s.len() || trivia_end(s, p, false) >= s.len() {
        seq![]
    } else {
        let (r, q) = lex_step(s, p);
        proof {
            lemma_lex_step_advances(s, p);
        }
        seq![reported(r)] + lex_results(s, q)
    }
}


// ---------------------------------------------------------------------------
// Token streams
// ---------------------------------------------------------------------------

/// A source of tokens. `pending` is the sequence of results the stream still
/// hands out; once it is empty, the stream hands out `Eof` for ever.
pub trait TokenIterator {
    /// The results still to come, in order.
    spec fn pending(&self) -> Seq<Result<SpecToken, Seq<char>>>;

    /// The stream's internal invariant.
    spec fn valid(&self) -> bool;

    fn next(&mut self) -> (r: Result<Token, String>)
        requires
            old(self).valid(),
        ensures
            final(self).valid(),
            old(self).pending().len() == 0 ==> {
                &&& r is Ok
                &&& r->Ok_0@ == SpecToken::Eof
                &&& final(self).pending().len() == 0
            },
            old(self).pending().len() > 0 ==> {
                &&& final(self).pending() == old(self).pending().drop_first()
                &&& match r {
                    Ok(t) => old(self).pending()[0] == Ok::<SpecToken, Seq<char>>(t@),
                    Err(m) => old(self).pending()[0] == Err::<SpecToken, Seq<char>>(m@),
                }
            };
}

/// Something that can be turned into a token stream.
pub trait Collection {
    type Iter;

    fn stream(&self) -> Self::Iter;
}

/// A token stream over the characters of a source text.
pub struct Stream {
    chars: Vec<char>,
    pos: usize,
}

/// The lexer of a source text.
pub struct Lexer<'a> {
    input: &'a str,
}

impl<'a> Lexer<'a> {
    pub fn new(input: &'a str) -> (r: Self)
        ensures
            r.input() == input@,
    {
        Self { input }
    }

    /// The source text.
    pub closed spec fn input(&self) -> Seq<char> {
        self.input@
    }
}

fn chars_are(w: &Vec<char>, k: &[char]) -> (r: bool)
    ensures
        r == (w@ == k@),
{
    if w.len() != k.len() {
        return false;
    }
    let mut i: usize = 0;
    while i < w.len()
        invariant
            i <= w.len(),
            w.len() == k.len(),
            forall|j: int| 0 <= j < i ==> w@[j] == k@[j],
        decreases w.len() - i,
    {
        if w[i] != k[i] {
            return false;
        }
        i += 1;
    }
    assert(w@ =~= k@);
    true
}

fn word_to_token(w: &Vec<char>) -> (t: Token)
    ensures
        t@ == word_token(w@),
{
    proof {
        reveal_strlit("import");
        reveal_strlit("let");
        reveal_strlit("if");
        reveal_strlit("elif");
        reveal_strlit("else");
        reveal_strlit("while");
        reveal_strlit("for");
        reveal_strlit("in");
        reveal_strlit("def");
        reveal_strlit("return");
        reveal_strlit("array");
        reveal_strlit("and");
        reveal_strlit("or");
        reveal_strlit("true");
        reveal_strlit("false");
        assert("import"@ =~= seq!['i', 'm', 'p', 'o', 'r', 't']);
        assert("let"@ =~= seq!['l', 'e', 't']);
        assert("if"@ =~= seq!['i', 'f']);
        assert("elif"@ =~= seq!['e', 'l', 'i', 'f']);
        assert("else"@ =~= seq!['e', 'l', 's', 'e']);
        assert("while"@ =~= seq!['w', 'h', 'i', 'l', 'e']);
        assert("for"@ =~= seq!['f', 'o', 'r']);
        assert("in"@ =~= seq!['i', 'n']);
        assert("def"@ =~= seq!['d', 'e', 'f']);
        assert("return"@ =~= seq!['r', 'e', 't', 'u', 'r', 'n']);
        assert("array"@ =~= seq!['a', 'r', 'r', 'a', 'y']);
        assert("and"@ =~= seq!['a', 'n', 'd']);
        assert("or"@ =~= seq!['o', 'r']);
        assert("true"@ =~= seq!['t', 'r', 'u', 'e']);
        assert("false"@ =~= seq!['f', 'a', 'l', 's', 'e']);
    }
    if chars_are(w, &['i', 'm', 'p', 'o', 'r', 't']) {
        Token::Import
    } else if chars_are(w, &['l', 'e', 't']) {
        Token::Let
    } else if chars_are(w, &['i', 'f']) {
        Token::If
    } else if chars_are(w, &['e', 'l', 'i', 'f']) {
        Token::Elif
    } else if chars_are(w, &['e', 'l', 's', 'e']) {
        Token::Else
    } else if chars_are(w, &['w', 'h', 'i', 'l', 'e']) {
        Token::While
    } else if chars_are(w, &['f', 'o', 'r']) {
        Token::For
    } else if chars_are(w, &['i', 'n']) {
        Token::In
    } else if chars_are(w, &['d', 'e', 'f']) {
        Token::Def
    } else if chars_are(w, &['r', 'e', 't', 'u', 'r', 'n']) {
        Token::Return
    } else if chars_are(w, &['a', 'r', 'r', 'a', 'y']) {
        Token::Array
    } else if chars_are(w, &['a', 'n', 'd']) {
        Token::And
    } else if chars_are(w, &['o', 'r']) {
        Token::Or
    } else if chars_are(w, &['t', 'r', 'u', 'e']) {
        Token::Bool(true)
    } else if chars_are(w, &['f', 'a', 'l', 's', 'e']) {
        Token::Bool(false)
    } else {
        Token::Identifier(string_from_chars(w))
    }
}

fn single_char(c: char) -> (r: Option<Token>)
    ensures
        match r {
            Some(t) => single_char_token(c) == Some(t@),
            None => single_char_token(c) is None,
        },
{
    if c == '(' {
        Some(Token::LParen)
    } else if c == ')' {
        Some(Token::RParen)
    } else if c == '{' {
        Some(Token::LBrace)
    } else if c == '}' {
        Some(Token::RBrace)
    } else if c == '[' {
        Some(Token::LBracket)
    } else if c == ']' {
        Some(Token::RBracket)
    } else if c == ',' {
        Some(Token::Comma)
    } else if c == ';' {
        Some(Token::Semicolon)
    } else if c == '+' {
        Some(Token::Add)
    } else if c == '-' {
        Some(Token::Sub)
    } else if c == '*' {
        Some(Token::Mul)
    } else if c == '/' {
        Some(Token::Div)
    } else if c == '%' {
        Some(Token::Mod)
    } else {
        None
    }
}

/// The view of a lexing result.
pub open spec fn lexed(r: Result<Token, LexError>) -> Result<SpecToken, LexError> {
    match r {
        Ok(t) => Ok(t@),
        Err(e) => Err(e),
    }
}

impl Stream {
    /// The characters the stream reads.
    pub closed spec fn source(&self) -> Seq<char> {
        self.chars@
    }

    /// The position of the next character to read.
    pub closed spec fn position(&self) -> int {
        self.pos as int
    }

    pub closed spec fn wf(&self) -> bool {
        self.pos <= self.chars.len()
    }

    fn skip_trivia(&mut self)
        requires
            old(self).wf(),
        ensures
            final(self).wf(),
            final(self).chars@ == old(self).chars@,
            final(self).pos == trivia_end(old(self).chars@, old(self).pos as int, false),
    {
        let ghost s = self.chars@;
        let mut in_comment = false;
        while self.pos < self.chars.len()
            invariant
                self.wf(),
                self.chars@ == s,
                s == old(self).chars@,
                trivia_end(s, self.pos as int, in_comment) == trivia_end(
                    s,
                    old(self).pos as int,
                    false,
                ),
            decreases self.chars.len() - self.pos,
        {
            let c = self.chars[self.pos];
            if in_comment {
                in_comment = c != '\n';
            } else if whitespace(c) {
            } else if c == '#' {
                in_comment = true;
            } else {
                return;
            }
            self.pos = self.pos + 1;
        }
    }

    /// Reads the body of a string literal; the opening quote has been read.
    fn scan_string_literal(&mut self) -> (r: Result<String, LexError>)
        requires
            old(self).wf(),
        ensures
            final(self).wf(),
            final(self).chars@ == old(self).chars@,
            ({
                let (res, e) = scan_string(old(self).chars@, old(self).pos as int, seq![]);
                &&& final(self).pos == e
                &&& match r {
                    Ok(body) => res == Ok::<Seq<char>, LexError>(body@),
                    Err(err) => res == Err::<Seq<char>, LexError>(err),
                }
            }),
    {
        let ghost s = self.chars@;
        let mut lit = String::new();
        while self.pos < self.chars.len()
            invariant
                self.wf(),
                self.chars@ == s,
                s == old(self).chars@,
                scan_string(s, self.pos as int, lit@) == scan_string(
                    s,
                    old(self).pos as int,
                    seq![],
                ),
            decreases self.chars.len() - self.pos,
        {
            let c = self.chars[self.pos];
            self.pos = self.pos + 1;
            if c == '"' {
                return Ok(lit);
            } else if c == '\\' {
                if self.pos < self.chars.len() {
                    let e = self.chars[self.pos];
                    self.pos = self.pos + 1;
                    if e == 'n' {
                        push_char(&mut lit, '\n');
                    } else if e == 't' {
                        push_char(&mut lit, '\t');
                    } else if e == '"' {
                        push_char(&mut lit, '"');
                    } else if e == '\\' {
                        push_char(&mut lit, '\\');
                    } else {
                        return Err(LexError::InvalidEscape(e));
                    }
                } else {
                    return Err(LexError::UnterminatedEscape);
                }
            } else {
                push_char(&mut lit, c);
            }
        }
        Ok(lit)
    }

    /// Reads a run of digits starting at the current position.
    fn scan_number(&mut self) -> (r: Result<i32, LexError>)
        requires
            old(self).wf(),
        ensures
            final(self).wf(),
            final(self).chars@ == old(self).chars@,
            final(self).pos == digits_end(old(self).chars@, old(self).pos as int),
            ({
                let v = digits_value(old(self).chars@.subrange(old(self).pos as int, final(self).pos as int));
                match r {
                    Ok(n) => v <= i32::MAX && n == v,
                    Err(e) => v > i32::MAX && e == LexError::NumberOutOfRange,
                }
            }),
    {
        let ghost s = self.chars@;
        let start = self.pos;
        let mut value: i32 = 0;
        let mut overflow = false;
        while self.pos < self.chars.len() && digit(self.chars[self.pos])
            invariant
                self.wf(),
                self.chars@ == s,
                s == old(self).chars@,
                start <= self.pos,
                digits_end(s, self.pos as int) == digits_end(s, start as int),
                overflow ==> digits_value(s.subrange(start as int, self.pos as int)) > i32::MAX,
                !overflow ==> value == digits_value(s.subrange(start as int, self.pos as int)),
                !overflow ==> value >= 0,
            decreases self.chars.len() - self.pos,
        {
            let c = self.chars[self.pos];
            let d = (c as u32 - '0' as u32) as i64;
            let ghost old_pos = self.pos;
            proof {
                assert(s.subrange(start as int, old_pos + 1).drop_last() =~= s.subrange(
                    start as int,
                    old_pos as int,
                ));
            }
            if !overflow {
                let next = value as i64 * 10 + d;
                if next > i32::MAX as i64 {
                    overflow = true;
                } else {
                    value = next as i32;
                }
            }
            self.pos = self.pos + 1;
        }
        if overflow {
            Err(LexError::NumberOutOfRange)
        } else {
            Ok(value)
        }
    }

    /// Reads a run of identifier characters starting at the current position.
    fn scan_word(&mut self) -> (w: Vec<char>)
        requires
            old(self).wf(),
        ensures
            final(self).wf(),
            final(self).chars@ == old(self).chars@,
            final(self).pos == word_end(old(self).chars@, old(self).pos as int),
            w@ == old(self).chars@.subrange(old(self).pos as int, final(self).pos as int),
    {
        let ghost s = self.chars@;
        let start = self.pos;
        let mut w: Vec<char> = Vec::new();
        while self.pos < self.chars.len() && word_char(self.chars[self.pos])
            invariant
                self.wf(),
                self.chars@ == s,
                s == old(self).chars@,
                start <= self.pos,
                word_end(s, self.pos as int) == word_end(s, start as int),
                w@ == s.subrange(start as int, self.pos as int),
            decreases self.chars.len() - self.pos,
        {
            w.push(self.chars[self.pos]);
            self.pos = self.pos + 1;
            assert(w@ =~= s.subrange(start as int, self.pos as int));
        }
        w
    }

    /// Reads the next token, as [`lex_step`] specifies.
    pub fn next_token(&mut self) -> (r: Result<Token, LexError>)
        requires
            old(self).wf(),
        ensures
            final(self).wf(),
            final(self).source() == old(self).source(),
            lex_step(old(self).source(), old(self).position()) == (lexed(r), final(self).position()),
    {
        self.skip_trivia();
        if self.pos >= self.chars.len() {
            return Ok(Token::Eof);
        }
        let c = self.chars[self.pos];
        let has_next = self.pos + 1 < self.chars.len();
        if let Some(t) = single_char(c) {
            self.pos = self.pos + 1;
            return Ok(t);
        }
        if c == '=' || c == '>' || c == '<' {
            let eq_follows = has_next && self.chars[self.pos + 1] == '=';
            if eq_follows {
                self.pos = self.pos + 2;
            } else {
                self.pos = self.pos + 1;
            }
            return Ok(
                if c == '=' {
                    if eq_follows { Token::Equal } else { Token::Assign }
                } else if c == '>' {
                    if eq_follows { Token::GreaterEqual } else { Token::GreaterThan }
                } else {
                    if eq_follows { Token::LessEqual } else { Token::LessThan }
                },
            );
        }
        if c == '"' {
            self.pos = self.pos + 1;
            return match self.scan_string_literal() {
                Ok(body) => Ok(Token::String(body)),
                Err(e) => Err(e),
            };
        }
        if c == ':' {
            if has_next && self.chars[self.pos + 1] == ':' {
                self.pos = self.pos + 2;
                return Ok(Token::DoubleColon);
            } else if has_next {
                self.pos = self.pos + 2;
            } else {
                self.pos = self.pos + 1;
            }
            return Err(LexError::SingleColon);
        }
        if digit(c) {
            return match self.scan_number() {
                Ok(n) => Ok(Token::Int(n)),
                Err(e) => Err(e),
            };
        }
        if ('a' <= c && c <= 'z') || ('A' <= c && c <= 'Z') || c == '_' {
            let w = self.scan_word();
            return Ok(word_to_token(&w));
        }
        self.pos = self.pos + 1;
        Err(LexError::UnrecognizedChar(c))
    }
}

impl TokenIterator for Stream {
    open spec fn pending(&self) -> Seq<Result<SpecToken, Seq<char>>> {
        lex_results(self.source(), self.position())
    }

    open spec fn valid(&self) -> bool {
        self.wf()
    }

    fn next(&mut self) -> (r: Result<Token, String>) {
        proof {
            lemma_trivia_end_bounds(self.chars@, self.pos as int, false);
            lemma_lex_step_advances(self.chars@, self.pos as int);
        }
        let ghost s = self.chars@;
        let ghost p = self.pos as int;
        let r = self.next_token();
        proof {
            if trivia_end(s, p, false) >= s.len() {
                lemma_lex_results_exhausted(s, self.pos as int);
            }
        }
        match r {
            Ok(t) => Ok(t),
            Err(e) => Err(e.message()),
        }
    }
}

/// Where skipping whitespace and comments stops, nothing more is skipped.
proof fn lemma_trivia_end_stops(s: Seq<char>, p: int, in_comment: bool)
    requires
        0 <= p <= s.len(),
    ensures
        trivia_end(s, trivia_end(s, p, in_comment), false) == trivia_end(s, p, in_comment),
    decreases s.len() - p,
{
    if p < s.len() {
        if in_comment {
            lemma_trivia_end_stops(s, p + 1, s[p] != '\n');
        } else if is_whitespace(s[p]) {
            lemma_trivia_end_stops(s, p + 1, false);
        } else if s[p] == '#' {
            lemma_trivia_end_stops(s, p + 1, true);
        }
    }
}

/// Whitespace and comments read as nothing: a token stream from `p` hands
/// out what it hands out from the end of the whitespace and comments there.
pub proof fn lemma_trivia_skipped(s: Seq<char>, p: int)
    requires
        0 <= p <= s.len(),
    ensures
        lex_results(s, p) == lex_results(s, trivia_end(s, p, false)),
{
    lemma_trivia_end_bounds(s, p, false);
    lemma_trivia_end_stops(s, p, false);
}

/// Once only whitespace and comments are left, the stream stays exhausted.
proof fn lemma_lex_results_exhausted(s: Seq<char>, p: int)
    requires
        0 <= p <= s.len(),
        trivia_end(s, p, false) >= s.len() || p == s.len(),
    ensures
        lex_results(s, p).len() == 0,
{
    lemma_trivia_end_bounds(s, p, false);
}

impl<'a> Collection for Lexer<'a> {
    type Iter = Stream;

    fn stream(&self) -> (r: Stream)
        ensures
            r.valid(),
            r.source() == self.input(),
            r.position() == 0,
    {
        let mut chars: Vec<char> = Vec::new();
        for c in it: self.input.chars()
            invariant
                chars@ == it.seq().take(it.index() as int),
        {
            chars.push(c);
        }
        Stream { chars, pos: 0 }
    }
}

/// The message of the first error among a stream's results, if there is one.
pub open spec fn first_lex_error(p: Seq<Result<SpecToken, Seq<char>>>) -> Option<Seq<char>>
    decreases p.len(),
{
    if p.len() == 0 {
        None
    } else {
        match p[0] {
            Err(m) => Some(m),
            Ok(_) => first_lex_error(p.drop_first()),
        }
    }
}

/// Where something other than whitespace and comments is left, a lexing
/// step finds a token other than `Eof`, or an error.
proof fn lemma_lex_step_not_eof(s: Seq<char>, p: int)
    requires
        0 <= p <= s.len(),
        trivia_end(s, p, false) < s.len(),
    ensures
        lex_step(s, p).0 != Ok::<SpecToken, LexError>(SpecToken::Eof),
{
    let q = trivia_end(s, p, false);
    let c = s[q];
    if c == '"' {
        let (r, e) = scan_string(s, q + 1, seq![]);
    }
}

/// A token stream over a source text hands out `Eof` only once it is exhausted.
pub proof fn lemma_lex_results_no_eof(s: Seq<char>, p: int)
    requires
        0 <= p <= s.len(),
    ensures
        forall|i: int|
            0 <= i < lex_results(s, p).len() ==> #[trigger] lex_results(s, p)[i] != Ok::<SpecToken, Seq<char>>(
                SpecToken::Eof,
            ),
    decreases s.len() - p,
{
    if trivia_end(s, p, false) < s.len() {
        lemma_lex_step_advances(s, p);
        lemma_lex_step_not_eof(s, p);
        let q = lex_step(s, p).1;
        lemma_lex_results_no_eof(s, q);
        let l = lex_results(s, p);
        assert(l == seq![reported(lex_step(s, p).0)] + lex_results(s, q));
        assert forall|i: int| 0 <= i < l.len() implies #[trigger] l[i] != Ok::<SpecToken, Seq<char>>(
            SpecToken::Eof,
        ) by {
            if i > 0 {
                assert(l[i] == lex_results(s, q)[i - 1]);
            }
        }
    }
}

impl<'a> Lexer<'a> {
    /// The message of the first error in the source text, if it has one.
    pub fn first_error(&self) -> (r: Option<String>)
        ensures
            match r {
                Some(m) => first_lex_error(lex_results(self.input(), 0)) == Some(m@),
                None => first_lex_error(lex_results(self.input(), 0)) is None,
            },
    {
        let mut stream = self.stream();
        loop
            invariant
                stream.valid(),
                first_lex_error(stream.pending()) == first_lex_error(lex_results(self.input(), 0)),
                stream.pending() == lex_results(stream.source(), stream.position()),
                0 <= stream.position() <= stream.source().len(),
            decreases stream.pending().len(),
        {
            let ghost before = stream.pending();
            proof {
                lemma_lex_results_no_eof(stream.source(), stream.position());
            }
            match stream.next() {
                Ok(Token::Eof) => {
                    return None;
                },
                Ok(_) => {},
                Err(m) => {
                    return Some(m);
                },
            }
        }
    }
}

/// The token a lexing step finds for each operator and punctuation mark at
/// the start of a token: `==`, `>=`, `<=` and `::` are read as one token when
/// their second character follows, and `=`, `>`, `<` alone otherwise; a lone
/// `:` is an error.
pub proof fn lemma_operator_tokens(s: Seq<char>, p: int)
    requires
        0 <= p <= s.len(),
        trivia_end(s, p, false) < s.len(),
    ensures
        ({
            let q = trivia_end(s, p, false);
            let two = q + 1 < s.len();
            &&& s[q] == '(' ==> lex_step(s, p) == (Ok::<SpecToken, LexError>(SpecToken::LParen), q + 1)
            &&& s[q] == ')' ==> lex_step(s, p) == (Ok::<SpecToken, LexError>(SpecToken::RParen), q + 1)
            &&& s[q] == '{' ==> lex_step(s, p) == (Ok::<SpecToken, LexError>(SpecToken::LBrace), q + 1)
            &&& s[q] == '}' ==> lex_step(s, p) == (Ok::<SpecToken, LexError>(SpecToken::RBrace), q + 1)
            &&& s[q] == '[' ==> lex_step(s, p) == (Ok::<SpecToken, LexError>(SpecToken::LBracket), q + 1)
            &&& s[q] == ']' ==> lex_step(s, p) == (Ok::<SpecToken, LexError>(SpecToken::RBracket), q + 1)
            &&& s[q] == ',' ==> lex_step(s, p) == (Ok::<SpecToken, LexError>(SpecToken::Comma), q + 1)
            &&& s[q] == ';' ==> lex_step(s, p) == (Ok::<SpecToken, LexError>(SpecToken::Semicolon), q + 1)
            &&& s[q] == '+' ==> lex_step(s, p) == (Ok::<SpecToken, LexError>(SpecToken::Add), q + 1)
            &&& s[q] == '-' ==> lex_step(s, p) == (Ok::<SpecToken, LexError>(SpecToken::Sub), q + 1)
            &&& s[q] == '*' ==> lex_step(s, p) == (Ok::<SpecToken, LexError>(SpecToken::Mul), q + 1)
            &&& s[q] == '/' ==> lex_step(s, p) == (Ok::<SpecToken, LexError>(SpecToken::Div), q + 1)
            &&& s[q] == '%' ==> lex_step(s, p) == (Ok::<SpecToken, LexError>(SpecToken::Mod), q + 1)
            &&& s[q] == '=' && two && s[q + 1] == '=' ==> lex_step(s, p) == (
                Ok::<SpecToken, LexError>(SpecToken::Equal),
                q + 2,
            )
            &&& s[q] == '=' && !(two && s[q + 1] == '=') ==> lex_step(s, p) == (
                Ok::<SpecToken, LexError>(SpecToken::Assign),
                q + 1,
            )
            &&& s[q] == '>' && two && s[q + 1] == '=' ==> lex_step(s, p) == (
                Ok::<SpecToken, LexError>(SpecToken::GreaterEqual),
                q + 2,
            )
            &&& s[q] == '>' && !(two && s[q + 1] == '=') ==> lex_step(s, p) == (
                Ok::<SpecToken, LexError>(SpecToken::GreaterThan),
                q + 1,
            )
            &&& s[q] == '<' && two && s[q + 1] == '=' ==> lex_step(s, p) == (
                Ok::<SpecToken, LexError>(SpecToken::LessEqual),
                q + 2,
            )
            &&& s[q] == '<' && !(two && s[q + 1] == '=') ==> lex_step(s, p) == (
                Ok::<SpecToken, LexError>(SpecToken::LessThan),
                q + 1,
            )
            &&& s[q] == ':' && two && s[q + 1] == ':' ==> lex_step(s, p) == (
                Ok::<SpecToken, LexError>(SpecToken::DoubleColon),
                q + 2,
            )
            &&& s[q] == ':' && !(two && s[q + 1] == ':') ==> lex_step(s, p).0 == Err::<SpecToken, LexError>(
                LexError::SingleColon,
            )
        }),
{
}

/// The token a lexing step finds for a word: each keyword and boolean
/// literal has its own token, and any other word is an identifier.
pub proof fn lemma_word_tokens(s: Seq<char>, p: int)
    requires
        0 <= p <= s.len(),
        trivia_end(s, p, false) < s.len(),
        is_alpha(s[trivia_end(s, p, false)]) || s[trivia_end(s, p, false)] == '_',
    ensures
        ({
            let q = trivia_end(s, p, false);
            let e = word_end(s, q);
            let w = s.subrange(q, e);
            let t = lex_step(s, p);
            &&& t.1 == e
            &&& w == "import"@ ==> t.0 == Ok::<SpecToken, LexError>(SpecToken::Import)
            &&& w == "let"@ ==> t.0 == Ok::<SpecToken, LexError>(SpecToken::Let)
            &&& w == "if"@ ==> t.0 == Ok::<SpecToken, LexError>(SpecToken::If)
            &&& w == "elif"@ ==> t.0 == Ok::<SpecToken, LexError>(SpecToken::Elif)
            &&& w == "else"@ ==> t.0 == Ok::<SpecToken, LexError>(SpecToken::Else)
            &&& w == "while"@ ==> t.0 == Ok::<SpecToken, LexError>(SpecToken::While)
            &&& w == "for"@ ==> t.0 == Ok::<SpecToken, LexError>(SpecToken::For)
            &&& w == "in"@ ==> t.0 == Ok::<SpecToken, LexError>(SpecToken::In)
            &&& w == "def"@ ==> t.0 == Ok::<SpecToken, LexError>(SpecToken::Def)
            &&& w == "return"@ ==> t.0 == Ok::<SpecToken, LexError>(SpecToken::Return)
            &&& w == "array"@ ==> t.0 == Ok::<SpecToken, LexError>(SpecToken::Array)
            &&& w == "and"@ ==> t.0 == Ok::<SpecToken, LexError>(SpecToken::And)
            &&& w == "or"@ ==> t.0 == Ok::<SpecToken, LexError>(SpecToken::Or)
            &&& w == "true"@ ==> t.0 == Ok::<SpecToken, LexError>(SpecToken::Bool(true))
            &&& w == "false"@ ==> t.0 == Ok::<SpecToken, LexError>(SpecToken::Bool(false))
            &&& t.0 matches Ok(SpecToken::Identifier(n)) ==> n == w
            &&& (w != "import"@ && w != "let"@ && w != "if"@ && w != "elif"@ && w != "else"@ && w != "while"@
                && w != "for"@ && w != "in"@ && w != "def"@ && w != "return"@ && w != "array"@ && w != "and"@
                && w != "or"@ && w != "true"@ && w != "false"@) ==> t.0 == Ok::<SpecToken, LexError>(
                SpecToken::Identifier(w),
            )
        }),
{
    lemma_trivia_end_bounds(s, p, false);
    let q = trivia_end(s, p, false);
    lemma_word_end_bounds(s, q);
    let c = s[q];
    assert(!is_digit(c));
    assert(single_char_token(c) is None);
    assert(lex_step(s, p) == (Ok::<SpecToken, LexError>(word_token(s.subrange(q, word_end(s, q)))), word_end(s, q)));
    reveal_strlit("import");
    reveal_strlit("let");
    reveal_strlit("if");
    reveal_strlit("elif");
    reveal_strlit("else");
    reveal_strlit("while");
    reveal_strlit("for");
    reveal_strlit("in");
    reveal_strlit("def");
    reveal_strlit("return");
    reveal_strlit("array");
    reveal_strlit("and");
    reveal_strlit("or");
    reveal_strlit("true");
    reveal_strlit("false");
    assert("import"@ =~= seq!['i', 'm', 'p', 'o', 'r', 't']);
    assert("let"@ =~= seq!['l', 'e', 't']);
    assert("if"@ =~= seq!['i', 'f']);
    assert("elif"@ =~= seq!['e', 'l', 'i', 'f']);
    assert("else"@ =~= seq!['e', 'l', 's', 'e']);
    assert("while"@ =~= seq!['w', 'h', 'i', 'l', 'e']);
    assert("for"@ =~= seq!['f', 'o', 'r']);
    assert("in"@ =~= seq!['i', 'n']);
    assert("def"@ =~= seq!['d', 'e', 'f']);
    assert("return"@ =~= seq!['r', 'e', 't', 'u', 'r', 'n']);
    assert("array"@ =~= seq!['a', 'r', 'r', 'a', 'y']);
    assert("and"@ =~= seq!['a', 'n', 'd']);
    assert("or"@ =~= seq!['o', 'r']);
    assert("true"@ =~= seq!['t', 'r', 'u', 'e']);
    assert("false"@ =~= seq!['f', 'a', 'l', 's', 'e']);
}

/// A string literal without escapes reads as the characters between its
/// quotes.
pub proof fn lemma_plain_string_token(s: Seq<char>, p: int, c: int)
    requires
        0 <= p <= s.len(),
        trivia_end(s, p, false) < c < s.len(),
        s[trivia_end(s, p, false)] == '"',
        s[c] == '"',
        forall|k: int| trivia_end(s, p, false) < k < c ==> #[trigger] s[k] != '"' && s[k] != '\\',
    ensures
        lex_step(s, p) == (
            Ok::<SpecToken, LexError>(SpecToken::String(s.subrange(trivia_end(s, p, false) + 1, c))),
            c + 1,
        ),
{
    lemma_trivia_end_bounds(s, p, false);
    let q = trivia_end(s, p, false);
    lemma_scan_plain(s, q + 1, c, seq![]);
    assert(seq![] + s.subrange(q + 1, c) =~= s.subrange(q + 1, c));
}

proof fn lemma_scan_plain(s: Seq<char>, k: int, c: int, acc: Seq<char>)
    requires
        0 <= k <= c < s.len(),
        s[c] == '"',
        forall|j: int| k <= j < c ==> #[trigger] s[j] != '"' && s[j] != '\\',
    ensures
        scan_string(s, k, acc) == (Ok::<Seq<char>, LexError>(acc + s.subrange(k, c)), c + 1),
    decreases c - k,
{
    if k == c {
        assert(acc + s.subrange(k, c) =~= acc);
    } else {
        lemma_scan_plain(s, k + 1, c, acc.push(s[k]));
        assert(acc.push(s[k]) + s.subrange(k + 1, c) =~= acc + s.subrange(k, c));
    }
}

/// The decimal digits of a number are digits, and read back as that number.
proof fn lemma_natural_digits_value(n: nat)
    ensures
        natural_digits(n).len() > 0,
        forall|k: int| 0 <= k < natural_digits(n).len() ==> is_digit(#[trigger] natural_digits(n)[k]),
        digits_value(natural_digits(n)) == n,
    decreases n,
{
    if n >= 10 {
        lemma_natural_digits_value((n / 10) as nat);
        let w = natural_digits((n / 10) as nat);
        let d = (n % 10) as int;
        assert(natural_digits(n) == w.push(digit_char(d)));
        assert(w.push(digit_char(d)).drop_last() =~= w);
        assert(digit_char(d) as int - '0' as int == d);
        assert(digits_value(w.push(digit_char(d))) == digits_value(w) * 10 + d);
        assert((n / 10) as int * 10 + d == n as int) by {
            vstd::arithmetic::div_mod::lemma_fundamental_div_mod(n as int, 10);
        }
        assert forall|k: int| 0 <= k < natural_digits(n).len() implies is_digit(#[trigger] natural_digits(n)[k]) by {
            if k < w.len() {
                assert(natural_digits(n)[k] == w[k]);
            }
        }
    } else {
        assert(seq![digit_char(n as int)].drop_last() =~= Seq::<char>::empty());
        assert(digit_char(n as int) as int - '0' as int == n);
        assert(digits_value(Seq::<char>::empty()) == 0);
        assert(natural_digits(n) == seq![digit_char(n as int)]);
        assert(digits_value(seq![digit_char(n as int)]) == digits_value(Seq::<char>::empty()) * 10 + (digit_char(
            n as int,
        ) as int - '0' as int));
    }
}

/// A run of digits from `p` to the end of the input ends there.
proof fn lemma_digits_to_end(s: Seq<char>, p: int)
    requires
        0 <= p <= s.len(),
        forall|k: int| p <= k < s.len() ==> is_digit(#[trigger] s[k]),
    ensures
        digits_end(s, p) == s.len(),
    decreases s.len() - p,
{
    if p < s.len() {
        lemma_digits_to_end(s, p + 1);
    }
}

/// A number as `Display` writes it reads back as that number: the source
/// text made of the decimal digits of `0 <= n <= i32::MAX` is one `Int`
/// token of value `n`.
pub proof fn lemma_number_round_trip(n: nat)
    requires
        n <= i32::MAX,
    ensures
        lex_results(natural_digits(n), 0) == seq![Ok::<SpecToken, Seq<char>>(SpecToken::Int(n as i32))],
{
    let s = natural_digits(n);
    lemma_natural_digits_value(n);
    lemma_digits_to_end(s, 0);
    assert(is_digit(s[0]));
    assert(trivia_end(s, 0, false) == 0);
    assert(s.subrange(0, s.len() as int) =~= s);
    assert(lex_step(s, 0) == (Ok::<SpecToken, LexError>(SpecToken::Int(n as i32)), s.len() as int));
    lemma_lex_results_exhausted(s, s.len() as int);
    assert(lex_results(s, 0) =~= seq![Ok::<SpecToken, Seq<char>>(SpecToken::Int(n as i32))]);
}

/// Each escape in a string literal stands for its character: `\n` a line
/// break, `\t` a tab, `\"` a quote and `\\` a backslash; any other
/// character after a backslash is an error.
pub proof fn lemma_escape_token(s: Seq<char>, p: int)
    requires
        0 <= p <= s.len(),
        trivia_end(s, p, false) + 3 < s.len(),
        s[trivia_end(s, p, false)] == '"',
        s[trivia_end(s, p, false) + 1] == '\\',
        s[trivia_end(s, p, false) + 3] == '"',
    ensures
        ({
            let q = trivia_end(s, p, false);
            let e = s[q + 2];
            &&& e == 'n' ==> lex_step(s, p) == (Ok::<SpecToken, LexError>(SpecToken::String(seq!['\n'])), q + 4)
            &&& e == 't' ==> lex_step(s, p) == (Ok::<SpecToken, LexError>(SpecToken::String(seq!['\t'])), q + 4)
            &&& e == '"' ==> lex_step(s, p) == (Ok::<SpecToken, LexError>(SpecToken::String(seq!['"'])), q + 4)
            &&& e == '\\' ==> lex_step(s, p) == (Ok::<SpecToken, LexError>(SpecToken::String(seq!['\\'])), q + 4)
            &&& !(e == 'n' || e == 't' || e == '"' || e == '\\') ==> lex_step(s, p).0 == Err::<SpecToken, LexError>(
                LexError::InvalidEscape(e),
            )
        }),
{
    lemma_trivia_end_bounds(s, p, false);
    let q = trivia_end(s, p, false);
    let e = s[q + 2];
    if e == 'n' || e == 't' || e == '"' || e == '\\' {
        let c = if e == 'n' { '\n' } else if e == 't' { '\t' } else { e };
        assert(seq![].push(c) =~= seq![c]);
        assert(scan_string(s, q + 3, seq![c]) == (Ok::<Seq<char>, LexError>(seq![c]), q + 4));
        assert(scan_string(s, q + 1, seq![]) == scan_string(s, q + 3, seq![c]));
    }
}

} // verus!
