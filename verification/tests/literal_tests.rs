use tokenizer::literal::{
    char_literal_to_number, decimal_string, escape_to_number, keyword_kind,
    string_literal_contents,
};
use tokenizer::rules::Handler;
use tokenizer::{LexError, LiteralError, Token, TokenKind};

#[test]
fn escape_letters_decode() {
    assert_eq!(escape_to_number('n'), Some(10));
    assert_eq!(escape_to_number('t'), Some(9));
    assert_eq!(escape_to_number('r'), Some(13));
    assert_eq!(escape_to_number('\\'), Some(92));
    assert_eq!(escape_to_number('\''), Some(39));
    assert_eq!(escape_to_number('0'), Some(0));
}

#[test]
fn other_letters_are_no_escapes() {
    assert_eq!(escape_to_number('q'), None);
    assert_eq!(escape_to_number('N'), None);
    assert_eq!(escape_to_number('"'), None);
    assert_eq!(escape_to_number('1'), None);
}

#[test]
fn character_literal_codes() {
    assert_eq!(char_literal_to_number("'A'"), Ok(65));
    assert_eq!(char_literal_to_number("'\\n'"), Ok(10));
    assert_eq!(char_literal_to_number("'\\0'"), Ok(0));
    assert_eq!(char_literal_to_number("'\\''"), Ok(39));
    assert_eq!(char_literal_to_number("'\\\\'"), Ok(92));
    assert_eq!(char_literal_to_number("'\"'"), Ok(34));
    assert_eq!(char_literal_to_number("'é'"), Ok(233));
}

#[test]
fn character_literal_faults() {
    assert_eq!(char_literal_to_number("'\\q'"), Err(LiteralError::UnknownEscape));
    assert_eq!(char_literal_to_number("''"), Err(LiteralError::Malformed));
    assert_eq!(char_literal_to_number("'''"), Err(LiteralError::Malformed));
    assert_eq!(char_literal_to_number("'\\'"), Err(LiteralError::Malformed));
    assert_eq!(char_literal_to_number("'\n'"), Err(LiteralError::Malformed));
    assert_eq!(char_literal_to_number("'ab'"), Err(LiteralError::Malformed));
    assert_eq!(char_literal_to_number("\"a\""), Err(LiteralError::Malformed));
    assert_eq!(char_literal_to_number("a"), Err(LiteralError::Malformed));
    assert_eq!(char_literal_to_number(""), Err(LiteralError::Malformed));
    assert_eq!(char_literal_to_number("'\\nn'"), Err(LiteralError::Malformed));
}

#[test]
fn string_contents_are_taken_verbatim() {
    assert_eq!(string_literal_contents("\"hi\""), Ok("hi".to_string()));
    assert_eq!(string_literal_contents("\"\""), Ok(String::new()));
    assert_eq!(string_literal_contents("\"a\\nb\""), Ok("a\\nb".to_string()));
    assert_eq!(string_literal_contents("\"ü→\""), Ok("ü→".to_string()));
}

#[test]
fn string_without_both_quotes_is_malformed() {
    assert_eq!(string_literal_contents("\""), Err(LiteralError::Malformed));
    assert_eq!(string_literal_contents(""), Err(LiteralError::Malformed));
    assert_eq!(string_literal_contents("\"abc"), Err(LiteralError::Malformed));
    assert_eq!(string_literal_contents("abc\""), Err(LiteralError::Malformed));
    assert_eq!(string_literal_contents("'a'"), Err(LiteralError::Malformed));
}

#[test]
fn reserved_words() {
    assert_eq!(keyword_kind("if"), Some(TokenKind::KeywordIf));
    assert_eq!(keyword_kind("else"), Some(TokenKind::KeywordElse));
    assert_eq!(keyword_kind("while"), Some(TokenKind::KeywordWhile));
    assert_eq!(keyword_kind("print"), Some(TokenKind::KeywordPrint));
    assert_eq!(keyword_kind("putc"), Some(TokenKind::KeywordPutc));
}

#[test]
fn other_words_are_not_reserved() {
    assert_eq!(keyword_kind("ifx"), None);
    assert_eq!(keyword_kind("If"), None);
    assert_eq!(keyword_kind("i"), None);
    assert_eq!(keyword_kind(""), None);
    assert_eq!(keyword_kind("printf"), None);
}

#[test]
fn decimal_rendering() {
    assert_eq!(decimal_string(0), "0");
    assert_eq!(decimal_string(7), "7");
    assert_eq!(decimal_string(10), "10");
    assert_eq!(decimal_string(65), "65");
    assert_eq!(decimal_string(1234567890), "1234567890");
    assert_eq!(decimal_string(u32::MAX), "4294967295");
}

#[test]
fn literal_faults_take_their_position() {
    assert_eq!(LiteralError::Malformed.at(3), LexError::UnrecognizedToken { position: 3 });
    assert_eq!(LiteralError::UnknownEscape.at(4), LexError::UnknownEscape { position: 4 });
    assert_eq!(LiteralError::InvalidUtf8.at(6), LexError::InvalidUtf8 { position: 6 });
}

#[test]
fn fixed_handler_emits_its_kind_without_payload() {
    assert_eq!(
        Handler::Default(TokenKind::OpLessEqual).apply("<=", 0),
        Ok(Some(Token::new(TokenKind::OpLessEqual, "")))
    );
}

#[test]
fn skip_handler_emits_nothing() {
    assert_eq!(Handler::Skip.apply("/* a */", 0), Ok(None));
    assert_eq!(Handler::Skip.apply("   ", 9), Ok(None));
}

#[test]
fn string_handler_strips_the_quotes() {
    assert_eq!(
        Handler::String.apply("\"hi\"", 0),
        Ok(Some(Token::new(TokenKind::String, "hi")))
    );
    assert_eq!(
        Handler::String.apply("hi", 7),
        Err(LexError::UnrecognizedToken { position: 7 })
    );
}

#[test]
fn character_handler_emits_the_code_in_decimal() {
    assert_eq!(
        Handler::Character.apply("'\\n'", 0),
        Ok(Some(Token::new(TokenKind::Integer, "10")))
    );
    assert_eq!(
        Handler::Character.apply("'A'", 0),
        Ok(Some(Token::new(TokenKind::Integer, "65")))
    );
    assert_eq!(
        Handler::Character.apply("'\\q'", 12),
        Err(LexError::UnknownEscape { position: 12 })
    );
    assert_eq!(
        Handler::Character.apply("'ab'", 12),
        Err(LexError::UnrecognizedToken { position: 12 })
    );
}

#[test]
fn identifier_handler_tells_keywords_apart() {
    assert_eq!(
        Handler::Identifier.apply("ifx", 0),
        Ok(Some(Token::new(TokenKind::Identifier, "ifx")))
    );
    assert_eq!(
        Handler::Identifier.apply("if", 0),
        Ok(Some(Token::new(TokenKind::KeywordIf, "")))
    );
    assert_eq!(
        Handler::Identifier.apply("while", 0),
        Ok(Some(Token::new(TokenKind::KeywordWhile, "")))
    );
}

#[test]
fn integer_handler_keeps_the_digits() {
    assert_eq!(
        Handler::Integer.apply("0010", 0),
        Ok(Some(Token::new(TokenKind::Integer, "0010")))
    );
    assert_eq!(
        Handler::Integer.apply("99999999999999999999999", 0),
        Ok(Some(Token::new(TokenKind::Integer, "99999999999999999999999")))
    );
}
