//! The token model: a closed set of lexical categories, together with the
//! keyword table that decides which words are reserved.

use vstd::prelude::*;

verus! {

/// A single classified lexical unit of the source text.
///
/// A token is a plain value: it carries no reference back to the source
/// position or to the lexer that produced it.
#[derive(Debug, Clone, PartialEq, Eq)]
pub enum Token {
    Let,
    Function,
    True,
    False,
    If,
    Else,
    Return,
    Equal,
    NotEqual,
    Illegal,
    Assign,
    Plus,
    Comma,
    Semicolon,
    LeftParen,
    RightParen,
    LeftBrace,
    RightBrace,
    Minus,
    Bang,
    Asterisk,
    Slash,
    LessThan,
    GreaterThan,
    Identifier(String),
    IntegerLiteral(usize),
}

/// The mathematical shape of a token: identifier text as a sequence of
/// characters, and the integer value as an unbounded natural number, so that
/// the scanning specification can also describe literals too wide for
/// `usize`.
pub enum SpecToken {
    Let,
    Function,
    True,
    False,
    If,
    Else,
    Return,
    Equal,
    NotEqual,
    Illegal,
    Assign,
    Plus,
    Comma,
    Semicolon,
    LeftParen,
    RightParen,
    LeftBrace,
    RightBrace,
    Minus,
    Bang,
    Asterisk,
    Slash,
    LessThan,
    GreaterThan,
    Identifier(Seq<char>),
    IntegerLiteral(nat),
}

impl View for Token {
    type V = SpecToken;

    open spec fn view(&self) -> SpecToken {
        match self {
            Token::Let => SpecToken::Let,
            Token::Function => SpecToken::Function,
            Token::True => SpecToken::True,
            Token::False => SpecToken::False,
            Token::If => SpecToken::If,
            Token::Else => SpecToken::Else,
            Token::Return => SpecToken::Return,
            Token::Equal => SpecToken::Equal,
            Token::NotEqual => SpecToken::NotEqual,
            Token::Illegal => SpecToken::Illegal,
            Token::Assign => SpecToken::Assign,
            Token::Plus => SpecToken::Plus,
            Token::Comma => SpecToken::Comma,
            Token::Semicolon => SpecToken::Semicolon,
            Token::LeftParen => SpecToken::LeftParen,
            Token::RightParen => SpecToken::RightParen,
            Token::LeftBrace => SpecToken::LeftBrace,
            Token::RightBrace => SpecToken::RightBrace,
            Token::Minus => SpecToken::Minus,
            Token::Bang => SpecToken::Bang,
            Token::Asterisk => SpecToken::Asterisk,
            Token::Slash => SpecToken::Slash,
            Token::LessThan => SpecToken::LessThan,
            Token::GreaterThan => SpecToken::GreaterThan,
            Token::Identifier(name) => SpecToken::Identifier(name@),
            Token::IntegerLiteral(value) => SpecToken::IntegerLiteral(*value as nat),
        }
    }
}

/// The views of a sequence of tokens.
pub open spec fn token_views(tokens: Seq<Token>) -> Seq<SpecToken> {
    tokens.map_values(|t: Token| t@)
}

/// Whether a token can be carried by the executable token type: an integer
/// literal must fit in `usize`; every other token always fits.
pub open spec fn token_fits(t: SpecToken) -> bool {
    match t {
        SpecToken::IntegerLiteral(v) => v <= usize::MAX,
        _ => true,
    }
}

/// Every value of the executable token type fits its mathematical shape: in
/// particular, the value it carries for an integer literal is bounded by
/// `usize::MAX`.
pub proof fn lemma_token_view_fits(t: Token)
    ensures
        token_fits(t@),
{
}

/// The keyword table: maps a word to its reserved-word token, or to nothing
/// when the word is an ordinary identifier.  Lookup is an exact,
/// case-sensitive, whole-string match.
pub open spec fn keyword_lookup(word: Seq<char>) -> Option<SpecToken> {
    if word == "true"@ {
        Some(SpecToken::True)
    } else if word == "false"@ {
        Some(SpecToken::False)
    } else if word == "fn"@ {
        Some(SpecToken::Function)
    } else if word == "let"@ {
        Some(SpecToken::Let)
    } else if word == "if"@ {
        Some(SpecToken::If)
    } else if word == "else"@ {
        Some(SpecToken::Else)
    } else if word == "return"@ {
        Some(SpecToken::Return)
    } else {
        None
    }
}

/// The token a whole letter run denotes: the matching reserved-word token
/// when the run is a keyword, an identifier carrying the run otherwise.
pub open spec fn word_token(word: Seq<char>) -> SpecToken {
    match keyword_lookup(word) {
        Some(t) => t,
        None => SpecToken::Identifier(word),
    }
}

/// Whole-string comparison of two string slices by their character
/// sequences.
fn str_eq(a: &str, b: &str) -> (r: bool)
    ensures
        r == (a@ == b@),
{
    let owned_a: String = a.to_owned();
    let owned_b: String = b.to_owned();
    owned_a.eq(&owned_b)
}

/// Looks a word up in the keyword table: the reserved-word token when the
/// word matches one exactly, nothing otherwise.
pub fn as_keyword(word: &str) -> (r: Option<Token>)
    ensures
        match r {
            Some(t) => keyword_lookup(word@) == Some(t@),
            None => keyword_lookup(word@) is None,
        },
{
    if str_eq(word, "true") {
        Some(Token::True)
    } else if str_eq(word, "false") {
        Some(Token::False)
    } else if str_eq(word, "fn") {
        Some(Token::Function)
    } else if str_eq(word, "let") {
        Some(Token::Let)
    } else if str_eq(word, "if") {
        Some(Token::If)
    } else if str_eq(word, "else") {
        Some(Token::Else)
    } else if str_eq(word, "return") {
        Some(Token::Return)
    } else {
        None
    }
}

} // verus!
