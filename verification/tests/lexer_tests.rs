use interpreterbook::lexer::{LexError, Lexer};
use interpreterbook::token::Token;

/// Drains every token of `input`, panicking on the overflow error, which no
/// input of these tests triggers.
fn collect_tokens(input: &str) -> Vec<Token> {
    let mut lexer = Lexer::new(input);
    let mut out = Vec::new();
    loop {
        match lexer.next() {
            Ok(Some(t)) => out.push(t),
            Ok(None) => return out,
            Err(e) => panic!("unexpected lexing error: {:?}", e),
        }
    }
}

#[test]
fn test_lexer_iterator() {
    let input = "=+(){},;";
    let expected = vec![
        Token::Assign,
        Token::Plus,
        Token::LeftParen,
        Token::RightParen,
        Token::LeftBrace,
        Token::RightBrace,
        Token::Comma,
        Token::Semicolon,
    ];

    assert_eq!(collect_tokens(input), expected);
}

#[test]
fn test_lexer_2() {
    let input = "let five = 5;
let ten = 10;
let add = fn(x, y) {
x + y;
};
let result = add(five, ten);";
    let expected = vec![
        Token::Let,
        Token::Identifier(String::from("five")),
        Token::Assign,
        Token::IntegerLiteral(5),
        Token::Semicolon,
        Token::Let,
        Token::Identifier(String::from("ten")),
        Token::Assign,
        Token::IntegerLiteral(10),
        Token::Semicolon,
        Token::Let,
        Token::Identifier(String::from("add")),
        Token::Assign,
        Token::Function,
        Token::LeftParen,
        Token::Identifier(String::from("x")),
        Token::Comma,
        Token::Identifier(String::from("y")),
        Token::RightParen,
        Token::LeftBrace,
        Token::Identifier(String::from("x")),
        Token::Plus,
        Token::Identifier(String::from("y")),
        Token::Semicolon,
        Token::RightBrace,
        Token::Semicolon,
        Token::Let,
        Token::Identifier(String::from("result")),
        Token::Assign,
        Token::Identifier(String::from("add")),
        Token::LeftParen,
        Token::Identifier(String::from("five")),
        Token::Comma,
        Token::Identifier(String::from("ten")),
        Token::RightParen,
        Token::Semicolon,
    ];

    assert_eq!(collect_tokens(input), expected);
}

#[test]
fn test_lexer_3() {
    let input = "let five = 5;
let ten = 10;
let add = fn(x, y) {
    x + y;
};
let result = add(five, ten);
!-/*5;
5 < 10 > 5;
if (5 < 10) {
    return true;
} else {
    return false;
}
10 == 10;
10 != 9;";

    let expected = vec![
        Token::Let,
        Token::Identifier(String::from("five")),
        Token::Assign,
        Token::IntegerLiteral(5),
        Token::Semicolon,
        Token::Let,
        Token::Identifier(String::from("ten")),
        Token::Assign,
        Token::IntegerLiteral(10),
        Token::Semicolon,
        Token::Let,
        Token::Identifier(String::from("add")),
        Token::Assign,
        Token::Function,
        Token::LeftParen,
        Token::Identifier(String::from("x")),
        Token::Comma,
        Token::Identifier(String::from("y")),
        Token::RightParen,
        Token::LeftBrace,
        Token::Identifier(String::from("x")),
        Token::Plus,
        Token::Identifier(String::from("y")),
        Token::Semicolon,
        Token::RightBrace,
        Token::Semicolon,
        Token::Let,
        Token::Identifier(String::from("result")),
        Token::Assign,
        Token::Identifier(String::from("add")),
        Token::LeftParen,
        Token::Identifier(String::from("five")),
        Token::Comma,
        Token::Identifier(String::from("ten")),
        Token::RightParen,
        Token::Semicolon,
        Token::Bang,
        Token::Minus,
        Token::Slash,
        Token::Asterisk,
        Token::IntegerLiteral(5),
        Token::Semicolon,
        Token::IntegerLiteral(5),
        Token::LessThan,
        Token::IntegerLiteral(10),
        Token::GreaterThan,
        Token::IntegerLiteral(5),
        Token::Semicolon,
        Token::If,
        Token::LeftParen,
        Token::IntegerLiteral(5),
        Token::LessThan,
        Token::IntegerLiteral(10),
        Token::RightParen,
        Token::LeftBrace,
        Token::Return,
        Token::True,
        Token::Semicolon,
        Token::RightBrace,
        Token::Else,
        Token::LeftBrace,
        Token::Return,
        Token::False,
        Token::Semicolon,
        Token::RightBrace,
        Token::IntegerLiteral(10),
        Token::Equal,
        Token::IntegerLiteral(10),
        Token::Semicolon,
        Token::IntegerLiteral(10),
        Token::NotEqual,
        Token::IntegerLiteral(9),
        Token::Semicolon,
    ];

    assert_eq!(collect_tokens(input), expected);
}

#[test]
fn whitespace_only_yields_no_tokens() {
    assert_eq!(collect_tokens(""), vec![]);
    assert_eq!(collect_tokens(" "), vec![]);
    assert_eq!(collect_tokens(" \t\r\n \n\t "), vec![]);
}

#[test]
fn single_char_operators_never_merge() {
    assert_eq!(collect_tokens("<>"), vec![Token::LessThan, Token::GreaterThan]);
    assert_eq!(collect_tokens("><"), vec![Token::GreaterThan, Token::LessThan]);
    assert_eq!(collect_tokens(">="), vec![Token::GreaterThan, Token::Assign]);
    assert_eq!(collect_tokens("<="), vec![Token::LessThan, Token::Assign]);
    assert_eq!(collect_tokens("+-"), vec![Token::Plus, Token::Minus]);
    assert_eq!(collect_tokens("*/"), vec![Token::Asterisk, Token::Slash]);
}

#[test]
fn integer_run_is_one_token() {
    assert_eq!(collect_tokens("123"), vec![Token::IntegerLiteral(123)]);
    assert_eq!(collect_tokens("0"), vec![Token::IntegerLiteral(0)]);
    assert_eq!(collect_tokens("007"), vec![Token::IntegerLiteral(7)]);
    assert_eq!(
        collect_tokens("12 34"),
        vec![Token::IntegerLiteral(12), Token::IntegerLiteral(34)]
    );
}

#[test]
fn word_run_is_one_token() {
    assert_eq!(
        collect_tokens("letx"),
        vec![Token::Identifier(String::from("letx"))]
    );
    assert_eq!(
        collect_tokens("abcXYZ"),
        vec![Token::Identifier(String::from("abcXYZ"))]
    );
    assert_eq!(
        collect_tokens("abc12"),
        vec![Token::Identifier(String::from("abc")), Token::IntegerLiteral(12)]
    );
}

#[test]
fn keyword_precedence() {
    assert_eq!(collect_tokens("true"), vec![Token::True]);
    assert_eq!(collect_tokens("false"), vec![Token::False]);
    assert_eq!(collect_tokens("fn"), vec![Token::Function]);
    assert_eq!(collect_tokens("let"), vec![Token::Let]);
    assert_eq!(collect_tokens("if"), vec![Token::If]);
    assert_eq!(collect_tokens("else"), vec![Token::Else]);
    assert_eq!(collect_tokens("return"), vec![Token::Return]);
    assert_eq!(collect_tokens("Let"), vec![Token::Identifier(String::from("Let"))]);
}

#[test]
fn tokenizing_twice_is_identical() {
    let input = "let five = 5; @ fn(x) { x != 5 }";
    assert_eq!(collect_tokens(input), collect_tokens(input));
}

#[test]
fn token_count_bounded_by_length() {
    for input in ["@#$", "a b c", "1+2", "=!=!", "   x   "] {
        assert!(collect_tokens(input).len() <= input.chars().count());
    }
}

#[test]
fn illegal_character_is_a_token_and_scanning_continues() {
    assert_eq!(collect_tokens("@"), vec![Token::Illegal]);
    assert_eq!(
        collect_tokens("a @ 1"),
        vec![
            Token::Identifier(String::from("a")),
            Token::Illegal,
            Token::IntegerLiteral(1),
        ]
    );
}

#[test]
fn bang_minus_slash_asterisk_scenario() {
    assert_eq!(
        collect_tokens("!-/*5;"),
        vec![
            Token::Bang,
            Token::Minus,
            Token::Slash,
            Token::Asterisk,
            Token::IntegerLiteral(5),
            Token::Semicolon,
        ]
    );
}

#[test]
fn equality_operators_scenario() {
    assert_eq!(
        collect_tokens("10 == 10; 10 != 9;"),
        vec![
            Token::IntegerLiteral(10),
            Token::Equal,
            Token::IntegerLiteral(10),
            Token::Semicolon,
            Token::IntegerLiteral(10),
            Token::NotEqual,
            Token::IntegerLiteral(9),
            Token::Semicolon,
        ]
    );
}

#[test]
fn integer_overflow_is_an_error_not_a_panic() {
    let mut lexer = Lexer::new("999999999999999999999999999999 5");
    assert_eq!(lexer.next(), Err(LexError::IntegerOverflow));
    // The oversized run is consumed in full; scanning continues after it.
    assert_eq!(lexer.next(), Ok(Some(Token::IntegerLiteral(5))));
    assert_eq!(lexer.next(), Ok(None));
}

#[test]
fn exhausted_lexer_stays_exhausted() {
    let mut lexer = Lexer::new("5");
    assert_eq!(lexer.next(), Ok(Some(Token::IntegerLiteral(5))));
    assert_eq!(lexer.next(), Ok(None));
    assert_eq!(lexer.next(), Ok(None));
}
