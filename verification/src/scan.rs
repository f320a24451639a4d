//! The scanning specification: what sequence of tokens a given source text
//! denotes.
//!
//! Scanning is specified over a `Seq<char>` and a cursor position.  At each
//! step the scanner skips whitespace, then classifies the next character and
//! consumes the longest lexeme it begins (maximal munch for digit and letter
//! runs, one character of lookahead for `==` and `!=`).  Every step consumes
//! at least one character, so the token sequence of a text is never longer
//! than the text itself.

use crate::token::{word_token, SpecToken};
use vstd::prelude::*;

verus! {

/// The whitespace characters the scanner discards: space, tab, newline and
/// carriage return.
pub open spec fn char_is_whitespace(c: char) -> bool {
    c == ' ' || c == '\t' || c == '\n' || c == '\r'
}

/// A decimal digit.
pub open spec fn char_is_digit(c: char) -> bool {
    '0' as u32 <= c as u32 && c as u32 <= '9' as u32
}

/// An ASCII letter.  Identifiers consist of letters alone: no digits or
/// underscores are permitted mid-identifier in this grammar.
pub open spec fn char_is_letter(c: char) -> bool {
    ('a' as u32 <= c as u32 && c as u32 <= 'z' as u32) || ('A' as u32 <= c as u32 && c as u32
        <= 'Z' as u32)
}

/// The numeric value of a decimal digit character.
pub open spec fn digit_value(c: char) -> nat {
    (c as u32 - '0' as u32) as nat
}

/// The base-10 value of a run of decimal digit characters.
pub open spec fn digits_value(digits: Seq<char>) -> nat
    decreases digits.len(),
{
    if digits.len() == 0 {
        0
    } else {
        digits_value(digits.drop_last()) * 10 + digit_value(digits.last())
    }
}

/// The first position at or after `i` that does not hold whitespace.
pub open spec fn whitespace_end(s: Seq<char>, i: int) -> int
    decreases s.len() - i,
{
    if 0 <= i < s.len() && char_is_whitespace(s[i]) {
        whitespace_end(s, i + 1)
    } else {
        i
    }
}

/// The first position at or after `i` that does not hold a decimal digit:
/// the exclusive end of the maximal digit run starting at `i`.
pub open spec fn run_end_digits(s: Seq<char>, i: int) -> int
    decreases s.len() - i,
{
    if 0 <= i < s.len() && char_is_digit(s[i]) {
        run_end_digits(s, i + 1)
    } else {
        i
    }
}

/// The first position at or after `i` that does not hold an ASCII letter:
/// the exclusive end of the maximal letter run starting at `i`.
pub open spec fn run_end_letters(s: Seq<char>, i: int) -> int
    decreases s.len() - i,
{
    if 0 <= i < s.len() && char_is_letter(s[i]) {
        run_end_letters(s, i + 1)
    } else {
        i
    }
}

/// The exclusive end of the lexeme that starts at position `i` of `s`.
/// `=` and `!` extend by one character when followed by `=`; digit and
/// letter runs extend to their maximal end; every other character forms a
/// lexeme of exactly one character.
pub open spec fn token_end(s: Seq<char>, i: int) -> int {
    let c = s[i];
    if c == '=' || c == '!' {
        if i + 1 < s.len() && s[i + 1] == '=' {
            i + 2
        } else {
            i + 1
        }
    } else if char_is_digit(c) {
        run_end_digits(s, i)
    } else if char_is_letter(c) {
        run_end_letters(s, i)
    } else {
        i + 1
    }
}

/// The token denoted by the lexeme that starts at position `i` of `s`,
/// assuming `s[i]` is not whitespace.  A digit run denotes an integer
/// literal carrying the value of the whole run; a letter run denotes the
/// matching reserved word if the whole run is one, an identifier otherwise;
/// a character that starts no known lexeme denotes the illegal-token
/// marker.
pub open spec fn token_at(s: Seq<char>, i: int) -> SpecToken {
    let c = s[i];
    if c == '*' {
        SpecToken::Asterisk
    } else if c == '!' {
        if i + 1 < s.len() && s[i + 1] == '=' {
            SpecToken::NotEqual
        } else {
            SpecToken::Bang
        }
    } else if c == '/' {
        SpecToken::Slash
    } else if c == '>' {
        SpecToken::GreaterThan
    } else if c == '<' {
        SpecToken::LessThan
    } else if c == '-' {
        SpecToken::Minus
    } else if c == '+' {
        SpecToken::Plus
    } else if c == ',' {
        SpecToken::Comma
    } else if c == '=' {
        if i + 1 < s.len() && s[i + 1] == '=' {
            SpecToken::Equal
        } else {
            SpecToken::Assign
        }
    } else if c == ';' {
        SpecToken::Semicolon
    } else if c == '(' {
        SpecToken::LeftParen
    } else if c == ')' {
        SpecToken::RightParen
    } else if c == '{' {
        SpecToken::LeftBrace
    } else if c == '}' {
        SpecToken::RightBrace
    } else if char_is_digit(c) {
        SpecToken::IntegerLiteral(digits_value(s.subrange(i, run_end_digits(s, i))))
    } else if char_is_letter(c) {
        word_token(s.subrange(i, run_end_letters(s, i)))
    } else {
        SpecToken::Illegal
    }
}

/// The sequence of tokens denoted by `s` from position `i` on.
pub open spec fn tokens_from(s: Seq<char>, i: int) -> Seq<SpecToken>
    decreases s.len() - i,
        via tokens_from_decreases
{
    if !(0 <= i < s.len()) {
        Seq::empty()
    } else if char_is_whitespace(s[i]) {
        tokens_from(s, i + 1)
    } else {
        seq![token_at(s, i)] + tokens_from(s, token_end(s, i))
    }
}

#[via_fn]
proof fn tokens_from_decreases(s: Seq<char>, i: int) {
    if 0 <= i < s.len() && !char_is_whitespace(s[i]) {
        lemma_token_end_in_range(s, i);
    }
}

/// The sequence of tokens denoted by the whole of `s`.
pub open spec fn tokens_of(s: Seq<char>) -> Seq<SpecToken> {
    tokens_from(s, 0)
}

/// `whitespace_end` stays within the text, lands on the first
/// non-whitespace position, and discarding the skipped characters does not
/// change the token sequence.
pub proof fn lemma_whitespace_end(s: Seq<char>, i: int)
    requires
        0 <= i <= s.len(),
    ensures
        i <= whitespace_end(s, i) <= s.len(),
        whitespace_end(s, i) == s.len() || !char_is_whitespace(s[whitespace_end(s, i)]),
        tokens_from(s, whitespace_end(s, i)) == tokens_from(s, i),
    decreases s.len() - i,
{
    if i < s.len() && char_is_whitespace(s[i]) {
        lemma_whitespace_end(s, i + 1);
    }
}

/// `run_end_digits` marks the maximal digit run: it stays within the text,
/// everything before it from `i` on is a digit, and it ends at the end of
/// the text or at a non-digit.
pub proof fn lemma_run_end_digits(s: Seq<char>, i: int)
    requires
        0 <= i <= s.len(),
    ensures
        i <= run_end_digits(s, i) <= s.len(),
        forall|k: int| i <= k < run_end_digits(s, i) ==> char_is_digit(s[k]),
        run_end_digits(s, i) == s.len() || !char_is_digit(s[run_end_digits(s, i)]),
    decreases s.len() - i,
{
    if i < s.len() && char_is_digit(s[i]) {
        lemma_run_end_digits(s, i + 1);
    }
}

/// `run_end_letters` marks the maximal letter run: it stays within the
/// text, everything before it from `i` on is a letter, and it ends at the
/// end of the text or at a non-letter.
pub proof fn lemma_run_end_letters(s: Seq<char>, i: int)
    requires
        0 <= i <= s.len(),
    ensures
        i <= run_end_letters(s, i) <= s.len(),
        forall|k: int| i <= k < run_end_letters(s, i) ==> char_is_letter(s[k]),
        run_end_letters(s, i) == s.len() || !char_is_letter(s[run_end_letters(s, i)]),
    decreases s.len() - i,
{
    if i < s.len() && char_is_letter(s[i]) {
        lemma_run_end_letters(s, i + 1);
    }
}

/// Every lexeme consumes at least one character and stays within the text.
pub proof fn lemma_token_end_in_range(s: Seq<char>, i: int)
    requires
        0 <= i < s.len(),
    ensures
        i < token_end(s, i) <= s.len(),
{
    if char_is_digit(s[i]) {
        lemma_run_end_digits(s, i + 1);
    } else if char_is_letter(s[i]) {
        lemma_run_end_letters(s, i + 1);
    }
}

} // verus!
