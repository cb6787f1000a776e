//! The LL parser's state: a token stream read with two tokens of lookahead,
//! and the table of declared names.
use vstd::prelude::*;

use crate::lexer::TokenIterator;
use crate::parser::error::ParseError;
use crate::parser::grammar::{expect_at, expect_result, moved, p_statements, tok, Parsed};
use crate::symbol::SymbolTable;
use crate::token::{token_eq, SpecToken, Token};
use crate::tree::{views, ASTNode, SpecAst};

verus! {

/// The operations every parser offers.
pub trait Parser {
    /// The parser's internal invariant.
    spec fn ready(&self) -> bool;

    /// The current token.
    fn peek(&self) -> &Token
        requires
            self.ready(),
    ;

    /// The token after the current one.
    fn lookahead(&self) -> &Token
        requires
            self.ready(),
    ;

    /// Moves past the current token if it is `expected`; fails otherwise.
    fn expect(&mut self, expected: Token) -> (r: Result<(), ParseError>)
        requires
            old(self).ready(),
        ensures
            final(self).ready(),
    ;

    /// Moves to the next token.
    fn advance(&mut self)
        requires
            old(self).ready(),
        ensures
            final(self).ready(),
    ;

    /// Parses a whole program.
    fn parse(&mut self) -> (r: Result<ASTNode, ParseError>)
        requires
            old(self).ready(),
        ensures
            final(self).ready(),
    ;
}

/// An LL(2) recursive-descent parser over a token stream.
pub struct LLParser<T: TokenIterator> {
    pub stream: T,
    pub lookahead: Option<Token>,
    pub next_token: Option<Token>,
    pub symbols: SymbolTable,
    tokens: Ghost<Seq<SpecToken>>,
    at: Ghost<int>,
}

/// The tokens a parser sees from the results of a stream: an error reads as
/// `Eof`, where the parser stops. A session reports such an error before it
/// parses (see `Whisp::parse`).
pub open spec fn stream_tokens(p: Seq<Result<SpecToken, Seq<char>>>) -> Seq<SpecToken> {
    p.map_values(
        |r: Result<SpecToken, Seq<char>>|
            match r {
                Ok(t) => t,
                Err(_) => SpecToken::Eof,
            },
    )
}

/// The tokens from position `n` on.
pub open spec fn rest(ts: Seq<SpecToken>, n: int) -> Seq<SpecToken> {
    if 0 <= n <= ts.len() {
        ts.skip(n)
    } else {
        seq![]
    }
}

/// `r` and the state `p` are the outcome `x` of a parse.
pub open spec fn yields<T: TokenIterator>(r: Result<ASTNode, ParseError>, p: LLParser<T>, x: Parsed<SpecAst>) -> bool {
    &&& p.pos() == x.pos
    &&& p.scopes() == x.sym
    &&& match r {
        Ok(n) => x.res == Ok::<SpecAst, crate::parser::error::SpecParseError>(n@),
        Err(e) => x.res == Err::<SpecAst, crate::parser::error::SpecParseError>(e@),
    }
}

/// `r` and the state `p` are the outcome `x` of parsing a list.
pub open spec fn yields_list<T: TokenIterator>(
    r: Result<Vec<ASTNode>, ParseError>,
    p: LLParser<T>,
    x: Parsed<Seq<SpecAst>>,
) -> bool {
    &&& p.pos() == x.pos
    &&& p.scopes() == x.sym
    &&& match r {
        Ok(v) => x.res == Ok::<Seq<SpecAst>, crate::parser::error::SpecParseError>(views(v@)),
        Err(e) => x.res == Err::<Seq<SpecAst>, crate::parser::error::SpecParseError>(e@),
    }
}

/// From `a` to `b` the parser stayed well formed on the same tokens and only
/// moved forward (never past the end if it started within the tokens).
pub open spec fn steps<T: TokenIterator>(a: LLParser<T>, b: LLParser<T>) -> bool {
    &&& b.wf()
    &&& b.tokens() == a.tokens()
    &&& a.pos() <= b.pos()
    &&& a.pos() <= a.tokens().len() ==> b.pos() <= b.tokens().len()
}

/// From `a` to `b` the parser read at least one token.
pub open spec fn consumed<T: TokenIterator>(a: LLParser<T>, b: LLParser<T>) -> bool {
    moved(a.tokens(), a.pos(), b.pos())
}

pub proof fn lemma_stream_tokens_drop_first(p: Seq<Result<SpecToken, Seq<char>>>)
    requires
        p.len() > 0,
    ensures
        stream_tokens(p.drop_first()) == stream_tokens(p).drop_first(),
        stream_tokens(p).len() == p.len(),
        stream_tokens(p)[0] == match p[0] {
            Ok(t) => t,
            Err(_) => SpecToken::Eof,
        },
{
    assert(stream_tokens(p.drop_first()) =~= stream_tokens(p).drop_first());
}

impl<T: TokenIterator> LLParser<T> {
    /// Every token the parser reads, in order, from its creation on.
    pub closed spec fn tokens(&self) -> Seq<SpecToken> {
        self.tokens@
    }

    /// The declared names, as the table holds them.
    pub closed spec fn scopes(&self) -> Seq<Set<Seq<char>>> {
        self.symbols@
    }

    /// The position of the current token in [`Self::tokens`].
    pub closed spec fn pos(&self) -> int {
        self.at@
    }

    pub closed spec fn wf(&self) -> bool {
        &&& self.stream.valid()
        &&& self.lookahead is Some
        &&& self.lookahead->Some_0@ == tok(self.tokens@, self.at@)
        &&& self.next_token is Some
        &&& self.next_token->Some_0@ == tok(self.tokens@, self.at@ + 1)
        &&& stream_tokens(self.stream.pending()) == rest(self.tokens@, self.at@ + 2)
        &&& 0 <= self.at@
    }

    fn read(stream: &mut T) -> (t: Token)
        requires
            old(stream).valid(),
        ensures
            final(stream).valid(),
            old(stream).pending().len() == 0 ==> t@ == SpecToken::Eof && final(stream).pending().len() == 0,
            old(stream).pending().len() > 0 ==> {
                &&& t@ == stream_tokens(old(stream).pending())[0]
                &&& final(stream).pending() == old(stream).pending().drop_first()
            },
    {
        proof {
            if old(stream).pending().len() > 0 {
                lemma_stream_tokens_drop_first(old(stream).pending());
            }
        }
        match stream.next() {
            Ok(t) => t,
            Err(_) => Token::Eof,
        }
    }

    /// A parser over `stream` that uses and updates `symbols`.
    pub fn new(mut stream: T, symbols: SymbolTable) -> (r: Self)
        requires
            stream.valid(),
        ensures
            r.wf(),
            r.tokens() == stream_tokens(stream.pending()),
            r.pos() == 0,
            r.scopes() == symbols@,
    {
        let ghost ts = stream_tokens(stream.pending());
        let ghost p0 = stream.pending();
        let first = Self::read(&mut stream);
        proof {
            if p0.len() > 0 {
                lemma_stream_tokens_drop_first(p0);
                assert(stream_tokens(stream.pending()) =~= rest(ts, 1));
            } else {
                assert(stream_tokens(stream.pending()) =~= rest(ts, 1));
            }
        }
        let ghost p1 = stream.pending();
        let second = Self::read(&mut stream);
        proof {
            if p1.len() > 0 {
                lemma_stream_tokens_drop_first(p1);
                assert(stream_tokens(stream.pending()) =~= rest(ts, 2));
            } else {
                assert(stream_tokens(stream.pending()) =~= rest(ts, 2));
            }
        }
        Self {
            stream,
            lookahead: Some(first),
            next_token: Some(second),
            symbols,
            tokens: Ghost(ts),
            at: Ghost(0),
        }
    }

    /// The parser's table of declared names, once parsing is over.
    pub fn into_symbols(self) -> (r: SymbolTable)
        ensures
            r@ == self.scopes(),
    {
        self.symbols
    }

    /// Whether `name` is declared in the parser's table.
    pub fn is_declared(&self, name: &str) -> (r: bool)
        ensures
            r == crate::symbol::declared(self.scopes(), name@),
    {
        self.symbols.resolve(name).is_some()
    }

    /// Declares `name` in the innermost scope of the parser's table.
    pub fn declare_name(&mut self, name: String)
        requires
            old(self).wf(),
        ensures
            final(self).wf(),
            final(self).tokens() == old(self).tokens(),
            final(self).pos() == old(self).pos(),
            final(self).scopes() == crate::symbol::declare(old(self).scopes(), name@),
    {
        self.symbols.define(name, crate::symbol::SymbolInfo);
    }

    fn shift(&mut self)
        requires
            old(self).wf(),
        ensures
            final(self).wf(),
            final(self).tokens() == old(self).tokens(),
            final(self).pos() == old(self).pos() + 1,
            final(self).scopes() == old(self).scopes(),
    {
        let ghost ts = self.tokens@;
        let ghost n = self.at@ + 3;
        let ghost p0 = self.stream.pending();
        self.lookahead = self.next_token.take();
        let t = Self::read(&mut self.stream);
        self.next_token = Some(t);
        self.at = Ghost(self.at@ + 1);
        proof {
            if p0.len() > 0 {
                lemma_stream_tokens_drop_first(p0);
                assert(stream_tokens(self.stream.pending()) =~= rest(ts, n));
            } else {
                assert(stream_tokens(p0).len() == 0);
                assert(rest(ts, n - 1).len() == 0);
                assert(stream_tokens(self.stream.pending()) =~= rest(ts, n));
            }
        }
    }
}

impl<T: TokenIterator> Parser for LLParser<T> {
    open spec fn ready(&self) -> bool {
        self.wf()
    }

    fn peek(&self) -> (r: &Token)
        ensures
            r@ == tok(self.tokens(), self.pos()),
    {
        match &self.lookahead {
            Some(t) => t,
            None => &Token::Eof,
        }
    }

    fn lookahead(&self) -> (r: &Token)
        ensures
            r@ == tok(self.tokens(), self.pos() + 1),
    {
        match &self.next_token {
            Some(t) => t,
            None => &Token::Eof,
        }
    }

    fn advance(&mut self)
        ensures
            final(self).tokens() == old(self).tokens(),
            final(self).pos() == old(self).pos() + 1,
            final(self).scopes() == old(self).scopes(),
    {
        self.shift();
    }

    fn expect(&mut self, expected: Token) -> (r: Result<(), ParseError>)
        ensures
            final(self).tokens() == old(self).tokens(),
            final(self).pos() == expect_at(old(self).tokens(), old(self).pos(), expected@),
            final(self).scopes() == old(self).scopes(),
            match r {
                Ok(()) => expect_result(old(self).tokens(), old(self).pos(), expected@) == Ok::<
                    (),
                    crate::parser::error::SpecParseError,
                >(()),
                Err(e) => expect_result(old(self).tokens(), old(self).pos(), expected@) == Err::<
                    (),
                    crate::parser::error::SpecParseError,
                >(e@),
            },
    {
        if token_eq(self.peek(), &expected) {
            self.advance();
            Ok(())
        } else {
            Err(ParseError::Expected { expected, found: self.peek().clone() })
        }
    }

    fn parse(&mut self) -> (r: Result<ASTNode, ParseError>)
        ensures
            steps(*old(self), *final(self)),
            yields(r, *final(self), p_statements(old(self).tokens(), old(self).pos(), old(self).scopes())),
    {
        self.parse_statements()
    }
}

} // verus!
