//! General laws of the scanner, proved once and for all inputs: whitespace
//! produces nothing, single-character operators never merge, digit and
//! letter runs are consumed maximally as one token each, reserved words take
//! precedence over identifiers, classification is deterministic, and
//! scanning always makes forward progress.

use crate::lexer::Lexer;
use crate::scan::{
    char_is_digit, char_is_letter, char_is_whitespace, digits_value, lemma_run_end_digits,
    lemma_run_end_letters, lemma_token_end_in_range, run_end_digits, run_end_letters, token_end,
    tokens_from, tokens_of,
};
use crate::token::{keyword_lookup, word_token, SpecToken};
use vstd::prelude::*;

verus! {

/// Input consisting solely of whitespace denotes the empty token sequence.
pub proof fn lemma_whitespace_only(s: Seq<char>)
    requires
        forall|k: int| 0 <= k < s.len() ==> char_is_whitespace(s[k]),
    ensures
        tokens_of(s) == Seq::<SpecToken>::empty(),
{
    lemma_whitespace_only_from(s, 0);
}

proof fn lemma_whitespace_only_from(s: Seq<char>, i: int)
    requires
        0 <= i <= s.len(),
        forall|k: int| 0 <= k < s.len() ==> char_is_whitespace(s[k]),
    ensures
        tokens_from(s, i) == Seq::<SpecToken>::empty(),
    decreases s.len() - i,
{
    if i < s.len() {
        lemma_whitespace_only_from(s, i + 1);
    }
}

/// The token denoted by a character that forms a one-character lexeme on its
/// own, with no two-character combination: every single-character operator
/// and punctuation mark except `=` and `!`.
pub open spec fn single_char_token(c: char) -> Option<SpecToken> {
    if c == '*' {
        Some(SpecToken::Asterisk)
    } else if c == '/' {
        Some(SpecToken::Slash)
    } else if c == '>' {
        Some(SpecToken::GreaterThan)
    } else if c == '<' {
        Some(SpecToken::LessThan)
    } else if c == '-' {
        Some(SpecToken::Minus)
    } else if c == '+' {
        Some(SpecToken::Plus)
    } else if c == ',' {
        Some(SpecToken::Comma)
    } else if c == ';' {
        Some(SpecToken::Semicolon)
    } else if c == '(' {
        Some(SpecToken::LeftParen)
    } else if c == ')' {
        Some(SpecToken::RightParen)
    } else if c == '{' {
        Some(SpecToken::LeftBrace)
    } else if c == '}' {
        Some(SpecToken::RightBrace)
    } else {
        None
    }
}

/// A character that forms a one-character lexeme yields exactly its own
/// token, whatever character follows it: such operators are never merged
/// with their neighbour.
pub proof fn lemma_single_char_never_combines(s: Seq<char>, i: int, t: SpecToken)
    requires
        0 <= i < s.len(),
        single_char_token(s[i]) == Some(t),
    ensures
        tokens_from(s, i) == seq![t] + tokens_from(s, i + 1),
{
}

/// Maximal munch for integers: a maximal run of decimal digits is consumed
/// whole, as exactly one integer-literal token carrying the base-10 value
/// of the entire run, and scanning resumes right after the run.
pub proof fn lemma_integer_maximal_munch(s: Seq<char>, i: int)
    requires
        0 <= i < s.len(),
        char_is_digit(s[i]),
    ensures
        ({
            let e = run_end_digits(s, i);
            &&& i < e <= s.len()
            &&& forall|k: int| i <= k < e ==> char_is_digit(s[k])
            &&& e == s.len() || !char_is_digit(s[e])
            &&& tokens_from(s, i) == seq![SpecToken::IntegerLiteral(digits_value(s.subrange(i, e)))]
                + tokens_from(s, e)
        }),
{
    lemma_run_end_digits(s, i);
}

/// Maximal munch for words: a maximal run of ASCII letters is consumed
/// whole, as exactly one identifier-or-keyword token for the entire run,
/// and scanning resumes right after the run.
pub proof fn lemma_word_maximal_munch(s: Seq<char>, i: int)
    requires
        0 <= i < s.len(),
        char_is_letter(s[i]),
    ensures
        ({
            let e = run_end_letters(s, i);
            &&& i < e <= s.len()
            &&& forall|k: int| i <= k < e ==> char_is_letter(s[k])
            &&& e == s.len() || !char_is_letter(s[e])
            &&& tokens_from(s, i) == seq![word_token(s.subrange(i, e))] + tokens_from(s, e)
        }),
{
    lemma_run_end_letters(s, i);
}

/// A whole input that is one run of letters denotes exactly one token: its
/// word token.
pub proof fn lemma_word_alone(word: Seq<char>)
    requires
        word.len() > 0,
        forall|k: int| 0 <= k < word.len() ==> char_is_letter(word[k]),
    ensures
        tokens_of(word) == seq![word_token(word)],
{
    lemma_word_maximal_munch(word, 0);
    let e = run_end_letters(word, 0);
    assert(e == word.len());
    assert(word.subrange(0, word.len() as int) =~= word);
    assert(tokens_from(word, word.len() as int) =~= Seq::<SpecToken>::empty());
    assert(seq![word_token(word)] + Seq::<SpecToken>::empty() =~= seq![word_token(word)]);
}

/// Each reserved word consists of letters alone.
proof fn lemma_keyword_is_letters(word: Seq<char>, t: SpecToken)
    requires
        keyword_lookup(word) == Some(t),
    ensures
        word.len() > 0,
        forall|k: int| 0 <= k < word.len() ==> char_is_letter(word[k]),
{
    reveal_strlit("true");
    reveal_strlit("false");
    reveal_strlit("fn");
    reveal_strlit("let");
    reveal_strlit("if");
    reveal_strlit("else");
    reveal_strlit("return");
}

/// Keyword precedence: an input matching a reserved word exactly denotes
/// the reserved-word token, never an identifier carrying that text.
pub proof fn lemma_keyword_precedence(word: Seq<char>, t: SpecToken)
    requires
        keyword_lookup(word) == Some(t),
    ensures
        tokens_of(word) == seq![t],
        !(tokens_of(word) =~= seq![SpecToken::Identifier(word)]),
{
    lemma_keyword_is_letters(word, t);
    lemma_word_alone(word);
    assert(seq![t][0] == t);
}

/// A whole input that is one run of letters but matches no reserved word
/// denotes exactly one identifier token carrying the whole run.
pub proof fn lemma_identifier_word(word: Seq<char>)
    requires
        word.len() > 0,
        forall|k: int| 0 <= k < word.len() ==> char_is_letter(word[k]),
        keyword_lookup(word) is None,
    ensures
        tokens_of(word) == seq![SpecToken::Identifier(word)],
{
    lemma_word_alone(word);
}

/// Classification is deterministic: two independent lexers over the same
/// text and at the same position have the same tokens ahead of them, so
/// tokenizing a fixed string twice yields identical sequences.
pub proof fn lemma_tokenization_deterministic<'a, 'b>(first: Lexer<'a>, second: Lexer<'b>)
    requires
        first.src() == second.src(),
        first.pos() == second.pos(),
    ensures
        first.remaining() == second.remaining(),
{
}

/// Forward progress: every scanning step consumes at least one character,
/// so a text of `N` characters denotes at most `N` tokens and scanning
/// terminates, on unrecognized characters too.
pub proof fn lemma_token_count_bound(s: Seq<char>)
    ensures
        tokens_of(s).len() <= s.len(),
{
    lemma_token_count_bound_from(s, 0);
}

proof fn lemma_token_count_bound_from(s: Seq<char>, i: int)
    requires
        0 <= i <= s.len(),
    ensures
        tokens_from(s, i).len() <= s.len() - i,
    decreases s.len() - i,
{
    if i < s.len() {
        if char_is_whitespace(s[i]) {
            lemma_token_count_bound_from(s, i + 1);
        } else {
            lemma_token_end_in_range(s, i);
            lemma_token_count_bound_from(s, token_end(s, i));
        }
    }
}

} // verus!
