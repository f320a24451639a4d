//! The lexer: a single-pass, forward-only scanner over a borrowed source
//! text, proved to produce exactly the token sequence that the scanning
//! specification in [`crate::scan`] assigns to the text.

use crate::scan::{
    char_is_digit, char_is_letter, char_is_whitespace, digit_value, digits_value,
    lemma_token_end_in_range, lemma_whitespace_end, run_end_digits, run_end_letters, token_at,
    token_end, tokens_from, whitespace_end,
};
use crate::token::{as_keyword, token_fits, word_token, SpecToken, Token};
use vstd::prelude::*;
use vstd::string::StrSliceExecFns;

verus! {

/// The failure a token-production step can report.  The only failure the
/// lexer models is an integer literal too wide for `usize`; an unrecognized
/// character is not a failure but an ordinary [`Token::Illegal`] token, and
/// end of input is the normal terminal state.
#[derive(Debug, Clone, PartialEq, Eq)]
pub enum LexError {
    IntegerOverflow,
}

/// Decides [`char_is_whitespace`] executably.
fn is_whitespace_char(c: char) -> (r: bool)
    ensures
        r == char_is_whitespace(c),
{
    c == ' ' || c == '\t' || c == '\n' || c == '\r'
}

/// Decides [`char_is_digit`] executably.
fn is_digit_char(c: char) -> (r: bool)
    ensures
        r == char_is_digit(c),
{
    let u: u32 = c as u32;
    '0' as u32 <= u && u <= '9' as u32
}

/// Decides [`char_is_letter`] executably.
fn is_letter_char(c: char) -> (r: bool)
    ensures
        r == char_is_letter(c),
{
    let u: u32 = c as u32;
    ('a' as u32 <= u && u <= 'z' as u32) || ('A' as u32 <= u && u <= 'Z' as u32)
}

/// The numeric value of a decimal digit character.
fn digit_to_usize(c: char) -> (d: usize)
    requires
        char_is_digit(c),
    ensures
        d == digit_value(c),
{
    let u: u32 = c as u32;
    (u - '0' as u32) as usize
}

/// A lexer over a borrowed source text.  It owns a cursor with one
/// character of lookahead and no other state; tokens are pulled one at a
/// time until the text is exhausted.
pub struct Lexer<'a> {
    src: &'a str,
    len: usize,
    pos: usize,
}

impl<'a> Lexer<'a> {
    /// The source text under scan, as a sequence of characters.
    pub closed spec fn src(&self) -> Seq<char> {
        self.src@
    }

    /// The cursor position, in characters consumed from the front.
    pub closed spec fn pos(&self) -> int {
        self.pos as int
    }

    /// Well-formedness: the cached character count is the text's, and the
    /// cursor never leaves the text.
    pub closed spec fn wf(&self) -> bool {
        self.len == self.src@.len() && self.pos <= self.len
    }

    /// The tokens this lexer has not produced yet.
    pub open spec fn remaining(&self) -> Seq<SpecToken> {
        tokens_from(self.src(), self.pos())
    }

    /// Creates a lexer at the start of `code`.  The text is borrowed, not
    /// copied.
    pub fn new(code: &'a str) -> (lexer: Lexer<'a>)
        ensures
            lexer.wf(),
            lexer.src() == code@,
            lexer.pos() == 0,
    {
        let len: usize = code.unicode_len();
        Lexer { src: code, len, pos: 0 }
    }

    /// The next character, without consuming it.
    fn peek(&self) -> (r: Option<char>)
        requires
            self.wf(),
        ensures
            self.pos() < self.src().len() ==> r == Some(self.src()[self.pos()]),
            self.pos() == self.src().len() ==> r is None,
    {
        if self.pos < self.len {
            Some(self.src.get_char(self.pos))
        } else {
            None
        }
    }

    /// Consumes and returns the next character, or reports exhaustion.
    fn read_char(&mut self) -> (r: Option<char>)
        requires
            old(self).wf(),
        ensures
            final(self).wf(),
            final(self).src() == old(self).src(),
            match r {
                Some(c) => old(self).pos() < old(self).src().len()
                    && c == old(self).src()[old(self).pos()]
                    && final(self).pos() == old(self).pos() + 1,
                None => old(self).pos() == old(self).src().len()
                    && final(self).pos() == old(self).pos(),
            },
    {
        if self.pos < self.len {
            let c = self.src.get_char(self.pos);
            self.pos = self.pos + 1;
            Some(c)
        } else {
            None
        }
    }

    /// Consumes the run of whitespace at the cursor, producing no token.
    fn skip_whitespace(&mut self)
        requires
            old(self).wf(),
        ensures
            final(self).wf(),
            final(self).src() == old(self).src(),
            old(self).pos() <= final(self).pos(),
            final(self).pos() == whitespace_end(old(self).src(), old(self).pos()),
    {
        let ghost s = self.src@;
        let ghost start = self.pos as int;
        loop
            invariant
                self.wf(),
                self.src@ == s,
                start <= self.pos(),
                whitespace_end(s, self.pos()) == whitespace_end(s, start),
            ensures
                self.wf(),
                self.src@ == s,
                start <= self.pos(),
                self.pos() == whitespace_end(s, start),
            decreases s.len() - self.pos(),
        {
            if self.pos < self.len {
                let c = self.src.get_char(self.pos);
                if is_whitespace_char(c) {
                    self.pos = self.pos + 1;
                } else {
                    break;
                }
            } else {
                break;
            }
        }
    }

    /// Scans the maximal digit run whose first character, already consumed,
    /// is `first`, and interprets the whole run as a base-10 integer
    /// literal.  Reports the overflow error exactly when the run's value
    /// does not fit in `usize`; either way the run is consumed in full.
    fn lex_number(&mut self, first: char) -> (r: Result<Token, LexError>)
        requires
            old(self).wf(),
            0 < old(self).pos(),
            char_is_digit(first),
            old(self).src()[old(self).pos() - 1] == first,
        ensures
            final(self).wf(),
            final(self).src() == old(self).src(),
            final(self).pos() == run_end_digits(old(self).src(), old(self).pos() - 1),
            ({
                let value = digits_value(
                    old(self).src().subrange(
                        old(self).pos() - 1,
                        run_end_digits(old(self).src(), old(self).pos() - 1),
                    ),
                );
                match r {
                    Ok(t) => t@ == SpecToken::IntegerLiteral(value),
                    Err(_) => value > usize::MAX,
                }
            }),
    {
        let ghost s = self.src@;
        let start: usize = self.pos - 1;
        let ghost start_i = start as int;
        let mut value: usize = digit_to_usize(first);
        let mut overflowed = false;
        proof {
            assert(s.subrange(start_i, start_i + 1).drop_last() =~= Seq::<char>::empty());
            assert(s.subrange(start_i, start_i + 1).last() == first);
            assert(digits_value(Seq::<char>::empty()) == 0);
            assert(digits_value(s.subrange(start_i, start_i + 1)) == digit_value(first));
        }
        loop
            invariant
                self.wf(),
                self.src@ == s,
                0 <= start_i,
                start_i + 1 <= self.pos() <= s.len(),
                run_end_digits(s, self.pos()) == run_end_digits(s, start_i),
                !overflowed ==> value == digits_value(s.subrange(start_i, self.pos())),
                overflowed ==> digits_value(s.subrange(start_i, self.pos())) > usize::MAX,
            ensures
                self.wf(),
                self.src@ == s,
                0 <= start_i,
                start_i + 1 <= self.pos() <= s.len(),
                self.pos() == run_end_digits(s, start_i),
                !overflowed ==> value == digits_value(s.subrange(start_i, self.pos())),
                overflowed ==> digits_value(s.subrange(start_i, self.pos())) > usize::MAX,
            decreases s.len() - self.pos(),
        {
            if self.pos < self.len {
                let c = self.src.get_char(self.pos);
                if is_digit_char(c) {
                    let d: usize = digit_to_usize(c);
                    proof {
                        assert(s.subrange(start_i, self.pos() + 1).drop_last() =~= s.subrange(
                            start_i,
                            self.pos(),
                        ));
                        assert(s.subrange(start_i, self.pos() + 1).last() == s[self.pos()]);
                    }
                    if !overflowed {
                        match value.checked_mul(10) {
                            Some(times_ten) => match times_ten.checked_add(d) {
                                Some(extended) => {
                                    value = extended;
                                },
                                None => {
                                    overflowed = true;
                                },
                            },
                            None => {
                                overflowed = true;
                            },
                        }
                    }
                    self.pos = self.pos + 1;
                } else {
                    break;
                }
            } else {
                break;
            }
        }
        if overflowed {
            Err(LexError::IntegerOverflow)
        } else {
            Ok(Token::IntegerLiteral(value))
        }
    }

    /// Scans the maximal letter run whose first character has already been
    /// consumed, and classifies the whole run: the matching reserved-word
    /// token when the run is a keyword, an identifier token otherwise.
    fn lex_word(&mut self) -> (t: Token)
        requires
            old(self).wf(),
            0 < old(self).pos(),
            char_is_letter(old(self).src()[old(self).pos() - 1]),
        ensures
            final(self).wf(),
            final(self).src() == old(self).src(),
            final(self).pos() == run_end_letters(old(self).src(), old(self).pos() - 1),
            t@ == word_token(
                old(self).src().subrange(
                    old(self).pos() - 1,
                    run_end_letters(old(self).src(), old(self).pos() - 1),
                ),
            ),
    {
        let ghost s = self.src@;
        let start: usize = self.pos - 1;
        let ghost start_i = start as int;
        loop
            invariant
                self.wf(),
                self.src@ == s,
                0 <= start_i,
                start_i + 1 <= self.pos() <= s.len(),
                run_end_letters(s, self.pos()) == run_end_letters(s, start_i),
            ensures
                self.wf(),
                self.src@ == s,
                0 <= start_i,
                start_i + 1 <= self.pos() <= s.len(),
                self.pos() == run_end_letters(s, start_i),
            decreases s.len() - self.pos(),
        {
            if self.pos < self.len {
                let c = self.src.get_char(self.pos);
                if is_letter_char(c) {
                    self.pos = self.pos + 1;
                } else {
                    break;
                }
            } else {
                break;
            }
        }
        let word: &str = self.src.substring_char(start, self.pos);
        match as_keyword(word) {
            Some(t) => t,
            None => Token::Identifier(word.to_owned()),
        }
    }

    /// Produces the next token.
    ///
    /// `Ok(Some(t))` carries the head of the remaining token sequence and
    /// leaves its tail; `Ok(None)` reports that no tokens remain and the
    /// text is exhausted; `Err(..)` reports that the head is an integer
    /// literal too wide for `usize`, and skips it, so that scanning always
    /// makes forward progress.
    pub fn next(&mut self) -> (r: Result<Option<Token>, LexError>)
        requires
            old(self).wf(),
        ensures
            final(self).wf(),
            final(self).src() == old(self).src(),
            old(self).pos() <= final(self).pos(),
            match r {
                Ok(Some(t)) => old(self).remaining().len() > 0 && t@ == old(self).remaining()[0]
                    && token_fits(old(self).remaining()[0])
                    && final(self).remaining() == old(self).remaining().drop_first()
                    && old(self).pos() < final(self).pos(),
                Ok(None) => old(self).remaining().len() == 0
                    && final(self).pos() == final(self).src().len(),
                Err(_) => old(self).remaining().len() > 0 && !token_fits(old(self).remaining()[0])
                    && final(self).remaining() == old(self).remaining().drop_first()
                    && old(self).pos() < final(self).pos(),
            },
    {
        let ghost s = self.src@;
        let ghost p0 = self.pos as int;
        proof {
            lemma_whitespace_end(s, p0);
        }
        self.skip_whitespace();
        let ghost j = self.pos as int;
        match self.read_char() {
            None => Ok(None),
            Some(c) => {
                proof {
                    lemma_token_end_in_range(s, j);
                    assert(tokens_from(s, j) == seq![token_at(s, j)] + tokens_from(
                        s,
                        token_end(s, j),
                    ));
                    assert((seq![token_at(s, j)] + tokens_from(s, token_end(s, j))).drop_first()
                        =~= tokens_from(s, token_end(s, j)));
                }
                if c == '*' {
                    Ok(Some(Token::Asterisk))
                } else if c == '!' {
                    let combines = match self.peek() {
                        Some(c2) => c2 == '=',
                        None => false,
                    };
                    if combines {
                        self.read_char();
                        Ok(Some(Token::NotEqual))
                    } else {
                        Ok(Some(Token::Bang))
                    }
                } else if c == '/' {
                    Ok(Some(Token::Slash))
                } else if c == '>' {
                    Ok(Some(Token::GreaterThan))
                } else if c == '<' {
                    Ok(Some(Token::LessThan))
                } else if c == '-' {
                    Ok(Some(Token::Minus))
                } else if c == '+' {
                    Ok(Some(Token::Plus))
                } else if c == ',' {
                    Ok(Some(Token::Comma))
                } else if c == '=' {
                    let combines = match self.peek() {
                        Some(c2) => c2 == '=',
                        None => false,
                    };
                    if combines {
                        self.read_char();
                        Ok(Some(Token::Equal))
                    } else {
                        Ok(Some(Token::Assign))
                    }
                } else if c == ';' {
                    Ok(Some(Token::Semicolon))
                } else if c == '(' {
                    Ok(Some(Token::LeftParen))
                } else if c == ')' {
                    Ok(Some(Token::RightParen))
                } else if c == '{' {
                    Ok(Some(Token::LeftBrace))
                } else if c == '}' {
                    Ok(Some(Token::RightBrace))
                } else if is_digit_char(c) {
                    match self.lex_number(c) {
                        Ok(t) => Ok(Some(t)),
                        Err(e) => Err(e),
                    }
                } else if is_letter_char(c) {
                    Ok(Some(self.lex_word()))
                } else {
                    Ok(Some(Token::Illegal))
                }
            },
        }
    }
}

} // verus!
