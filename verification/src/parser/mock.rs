//! A token stream that hands out a fixed list of tokens, for driving the
//! parser without the lexer.
use vstd::prelude::*;

use crate::lexer::TokenIterator;
use crate::token::{SpecToken, Token};

verus! {

/// Hands out `tokens` in order from `cursor` on, then `Eof` forever.
pub struct MockStream {
    pub tokens: Vec<Token>,
    pub cursor: usize,
}

impl MockStream {
    /// A stream at the start of `tokens`.
    pub fn new(tokens: Vec<Token>) -> (r: Self)
        ensures
            r.tokens@ == tokens@,
            r.cursor == 0,
            r.valid(),
            r.pending() == tokens@.map_values(|t: Token| Ok::<SpecToken, Seq<char>>(t@)),
    {
        let r = Self { tokens, cursor: 0 };
        assert(r.tokens@.skip(0) =~= r.tokens@);
        r
    }
}

impl TokenIterator for MockStream {
    open spec fn pending(&self) -> Seq<Result<SpecToken, Seq<char>>> {
        self.tokens@.skip(self.cursor as int).map_values(|t: Token| Ok::<SpecToken, Seq<char>>(t@))
    }

    open spec fn valid(&self) -> bool {
        self.cursor <= self.tokens.len()
    }

    fn next(&mut self) -> (r: Result<Token, String>) {
        if self.cursor < self.tokens.len() {
            let token = self.tokens[self.cursor].clone();
            self.cursor += 1;
            proof {
                assert(self.pending() =~= old(self).pending().drop_first());
            }
            Ok(token)
        } else {
            Ok(Token::Eof)
        }
    }
}

} // verus!
