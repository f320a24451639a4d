//! Line-oriented driving of the lexer: tokenize one line of input in full.

use crate::lexer::{LexError, Lexer};
use crate::scan::tokens_of;
use crate::token::{token_fits, token_views, Token};
use vstd::prelude::*;

verus! {

/// Tokenizes one line of source text at a time, for an interactive shell to
/// print.  It holds no state of its own.
pub struct Repl {}

impl Repl {
    pub fn new() -> (repl: Repl) {
        Repl {}
    }

    /// Drains every token of `line`, in order.
    ///
    /// Returns the whole token sequence of the line, or the overflow error
    /// exactly when some integer literal in the line is too wide for
    /// `usize`.
    pub fn line(&self, line: &str) -> (r: Result<Vec<Token>, LexError>)
        ensures
            match r {
                Ok(tokens) => token_views(tokens@) == tokens_of(line@) && (forall|k: int|
                    0 <= k < tokens_of(line@).len() ==> token_fits(#[trigger] tokens_of(line@)[k])),
                Err(_) => exists|k: int|
                    0 <= k < tokens_of(line@).len() && !token_fits(#[trigger] tokens_of(line@)[k]),
            },
    {
        let mut lexer = Lexer::new(line);
        let mut tokens: Vec<Token> = Vec::new();
        loop
            invariant
                lexer.wf(),
                lexer.src() == line@,
                token_views(tokens@) + lexer.remaining() == tokens_of(line@),
            decreases lexer.remaining().len(),
        {
            let ghost produced = token_views(tokens@);
            let ghost left = lexer.remaining();
            match lexer.next() {
                Ok(Some(t)) => {
                    proof {
                        assert(tokens@.push(t).map_values(|x: Token| x@) =~= produced.push(t@));
                        assert(produced.push(t@) + left.drop_first() =~= produced + left);
                    }
                    tokens.push(t);
                },
                Ok(None) => {
                    proof {
                        assert(produced + left =~= produced);
                        assert forall|k: int|
                            0 <= k < tokens_of(line@).len() implies token_fits(
                            #[trigger] tokens_of(line@)[k],
                        ) by {
                            crate::token::lemma_token_view_fits(tokens@[k]);
                        }
                    }
                    return Ok(tokens);
                },
                Err(e) => {
                    proof {
                        assert(!token_fits(tokens_of(line@)[produced.len() as int]));
                    }
                    return Err(e);
                },
            }
        }
    }
}

} // verus!
