use mini_sql::tokenizer::{Keyword, Token, Tokenizer};

/// Drives the scanner to the end of the input, collecting every token up to
/// and including the end-of-input marker.
fn tokenize(input: &str) -> Vec<Token> {
    let mut tokenizer = Tokenizer::new(input);
    let mut tokens = Vec::new();
    loop {
        let token = tokenizer.next_token();
        if token == Token::Eof {
            tokens.push(token);
            break;
        }
        tokens.push(token);
    }
    tokens
}

#[test]
fn whitespace_only_first_token_is_eof() {
    let mut tokenizer = Tokenizer::new("   \t \n  ");
    assert_eq!(tokenizer.next_token(), Token::Eof);
    let mut empty = Tokenizer::new("");
    assert_eq!(empty.next_token(), Token::Eof);
}

#[test]
fn eof_repeats_after_end() {
    let mut tokenizer = Tokenizer::new("a");
    assert_eq!(
        tokenizer.next_token(),
        Token::Identifier("a".to_string())
    );
    assert_eq!(tokenizer.next_token(), Token::Eof);
    assert_eq!(tokenizer.next_token(), Token::Eof);
    assert_eq!(tokenizer.next_token(), Token::Eof);
}

#[test]
fn keywords_are_case_insensitive() {
    let tokens = tokenize("select SeLeCt SELECT from WHERE Null");
    assert_eq!(
        tokens,
        vec![
            Token::Keyword(Keyword::Select),
            Token::Keyword(Keyword::Select),
            Token::Keyword(Keyword::Select),
            Token::Keyword(Keyword::From),
            Token::Keyword(Keyword::Where),
            Token::Keyword(Keyword::Null),
            Token::Eof,
        ]
    );
}

#[test]
fn every_keyword_is_recognized() {
    let tokens = tokenize(
        "SELECT FROM WHERE CREATE TABLE ORDER BY AND OR NOT TRUE FALSE INT BOOL VARCHAR PRIMARY KEY CHECK NULL",
    );
    assert_eq!(
        tokens,
        vec![
            Token::Keyword(Keyword::Select),
            Token::Keyword(Keyword::From),
            Token::Keyword(Keyword::Where),
            Token::Keyword(Keyword::Create),
            Token::Keyword(Keyword::Table),
            Token::Keyword(Keyword::Order),
            Token::Keyword(Keyword::By),
            Token::Keyword(Keyword::And),
            Token::Keyword(Keyword::Or),
            Token::Keyword(Keyword::Not),
            Token::Keyword(Keyword::True),
            Token::Keyword(Keyword::False),
            Token::Keyword(Keyword::Int),
            Token::Keyword(Keyword::Bool),
            Token::Keyword(Keyword::Varchar),
            Token::Keyword(Keyword::Primary),
            Token::Keyword(Keyword::Key),
            Token::Keyword(Keyword::Check),
            Token::Keyword(Keyword::Null),
            Token::Eof,
        ]
    );
}

#[test]
fn identifier_preserves_original_case() {
    let tokens = tokenize("Foo_bar9 selected");
    assert_eq!(
        tokens,
        vec![
            Token::Identifier("Foo_bar9".to_string()),
            Token::Identifier("selected".to_string()),
            Token::Eof,
        ]
    );
}

#[test]
fn punctuation_and_operators() {
    let tokens = tokenize(", ; ( ) + - * / =");
    assert_eq!(
        tokens,
        vec![
            Token::Comma,
            Token::Semicolon,
            Token::LeftParentheses,
            Token::RightParentheses,
            Token::Plus,
            Token::Minus,
            Token::Multiply,
            Token::Divide,
            Token::Equal,
            Token::Eof,
        ]
    );
}

#[test]
fn two_character_lookahead() {
    let tokens = tokenize(">= > <= < !=");
    assert_eq!(
        tokens,
        vec![
            Token::GreaterThanOrEqual,
            Token::GreaterThan,
            Token::LessThanOrEqual,
            Token::LessThan,
            Token::NotEqual,
            Token::Eof,
        ]
    );
    // Adjacent, without whitespace: maximal munch still pairs them up.
    let tokens = tokenize("a>=1");
    assert_eq!(
        tokens,
        vec![
            Token::Identifier("a".to_string()),
            Token::GreaterThanOrEqual,
            Token::Number(1),
            Token::Eof,
        ]
    );
}

#[test]
fn bare_exclamation_is_invalid_marker() {
    let tokens = tokenize("! a");
    assert_eq!(
        tokens,
        vec![
            Token::Invalid('!'),
            Token::Identifier("a".to_string()),
            Token::Eof,
        ]
    );
}

#[test]
fn number_literals() {
    let tokens = tokenize("0 12345 18446744073709551615");
    assert_eq!(
        tokens,
        vec![
            Token::Number(0),
            Token::Number(12345),
            Token::Number(u64::MAX),
            Token::Eof,
        ]
    );
}

#[test]
fn number_overflow_is_invalid_marker() {
    // One past u64::MAX: the whole digit run is consumed, and the token is
    // the invalid-token marker carrying the run's first digit.
    let tokens = tokenize("18446744073709551616 x");
    assert_eq!(
        tokens,
        vec![
            Token::Invalid('1'),
            Token::Identifier("x".to_string()),
            Token::Eof,
        ]
    );
}

#[test]
fn string_literals_verbatim() {
    let tokens = tokenize("'abc' \"x y\"");
    assert_eq!(
        tokens,
        vec![
            Token::String("abc".to_string()),
            Token::String("x y".to_string()),
            Token::Eof,
        ]
    );
    // The other quote character passes through unchanged.
    let tokens = tokenize("'a\"b'");
    assert_eq!(
        tokens,
        vec![Token::String("a\"b".to_string()), Token::Eof]
    );
    let tokens = tokenize("''");
    assert_eq!(tokens, vec![Token::String("".to_string()), Token::Eof]);
}

#[test]
fn unterminated_string_is_invalid_marker() {
    let tokens = tokenize("'abc");
    assert_eq!(tokens, vec![Token::Invalid('\''), Token::Eof]);
    let tokens = tokenize("\"abc");
    assert_eq!(tokens, vec![Token::Invalid('"'), Token::Eof]);
}

#[test]
fn stray_character_is_invalid_marker() {
    let tokens = tokenize("# %");
    assert_eq!(
        tokens,
        vec![Token::Invalid('#'), Token::Invalid('%'), Token::Eof]
    );
}

#[test]
fn digit_led_word_splits_into_number_and_identifier() {
    let tokens = tokenize("1a");
    assert_eq!(
        tokens,
        vec![
            Token::Number(1),
            Token::Identifier("a".to_string()),
            Token::Eof,
        ]
    );
}

#[test]
fn keyword_ends_at_punctuation() {
    let tokens = tokenize("FROM(t)");
    assert_eq!(
        tokens,
        vec![
            Token::Keyword(Keyword::From),
            Token::LeftParentheses,
            Token::Identifier("t".to_string()),
            Token::RightParentheses,
            Token::Eof,
        ]
    );
}
