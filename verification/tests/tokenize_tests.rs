use tokenizer::lexer::{anchored_length, create_lexer};
use tokenizer::{tokenize, LexError, Token, TokenKind};

fn bare(kind: TokenKind) -> Token {
    Token::new(kind, "")
}

fn kinds(tokens: &[Token]) -> Vec<TokenKind> {
    tokens.iter().map(|t| t.kind).collect()
}

#[test]
fn less_equal_is_one_operator() {
    let tokens = tokenize("<=").unwrap();
    assert_eq!(tokens, vec![bare(TokenKind::OpLessEqual), bare(TokenKind::EndOfInput)]);
}

#[test]
fn less_then_assign_when_separated() {
    let tokens = tokenize("< =").unwrap();
    assert_eq!(
        kinds(&tokens),
        vec![TokenKind::OpLess, TokenKind::OpAssign, TokenKind::EndOfInput]
    );
}

#[test]
fn two_character_operators_win_over_their_prefixes() {
    let tokens = tokenize("== != <= >= && || = ! < >").unwrap();
    assert_eq!(
        kinds(&tokens),
        vec![
            TokenKind::OpEqual,
            TokenKind::OpNotEqual,
            TokenKind::OpLessEqual,
            TokenKind::OpGreaterEqual,
            TokenKind::OpAnd,
            TokenKind::OpOr,
            TokenKind::OpAssign,
            TokenKind::OpNot,
            TokenKind::OpLess,
            TokenKind::OpGreater,
            TokenKind::EndOfInput,
        ]
    );
}

#[test]
fn keyword_prefix_is_an_identifier() {
    let tokens = tokenize("ifx").unwrap();
    assert_eq!(
        tokens,
        vec![Token::new(TokenKind::Identifier, "ifx"), bare(TokenKind::EndOfInput)]
    );
}

#[test]
fn keyword_alone_is_a_keyword() {
    let tokens = tokenize("if").unwrap();
    assert_eq!(tokens, vec![bare(TokenKind::KeywordIf), bare(TokenKind::EndOfInput)]);
}

#[test]
fn every_keyword_is_recognised() {
    let tokens = tokenize("if else while print putc").unwrap();
    assert_eq!(
        tokens,
        vec![
            bare(TokenKind::KeywordIf),
            bare(TokenKind::KeywordElse),
            bare(TokenKind::KeywordWhile),
            bare(TokenKind::KeywordPrint),
            bare(TokenKind::KeywordPutc),
            bare(TokenKind::EndOfInput),
        ]
    );
}

#[test]
fn interleaved_comments_and_whitespace_are_skipped() {
    let tokens = tokenize("/* a */   /* b */x").unwrap();
    assert_eq!(
        tokens,
        vec![Token::new(TokenKind::Identifier, "x"), bare(TokenKind::EndOfInput)]
    );
}

#[test]
fn comment_may_span_lines_and_hold_stars() {
    let tokens = tokenize("/* a\n * b **/1").unwrap();
    assert_eq!(
        tokens,
        vec![Token::new(TokenKind::Integer, "1"), bare(TokenKind::EndOfInput)]
    );
}

#[test]
fn string_payload_is_the_text_between_the_quotes() {
    let tokens = tokenize("\"hi\"").unwrap();
    assert_eq!(
        tokens,
        vec![Token::new(TokenKind::String, "hi"), bare(TokenKind::EndOfInput)]
    );
}

#[test]
fn string_keeps_backslashes_verbatim() {
    let tokens = tokenize("\"a\\nb\"").unwrap();
    assert_eq!(
        tokens,
        vec![Token::new(TokenKind::String, "a\\nb"), bare(TokenKind::EndOfInput)]
    );
}

#[test]
fn empty_string_literal() {
    let tokens = tokenize("\"\"").unwrap();
    assert_eq!(
        tokens,
        vec![Token::new(TokenKind::String, ""), bare(TokenKind::EndOfInput)]
    );
}

#[test]
fn escaped_newline_character_is_ten() {
    let tokens = tokenize("'\\n'").unwrap();
    assert_eq!(
        tokens,
        vec![Token::new(TokenKind::Integer, "10"), bare(TokenKind::EndOfInput)]
    );
}

#[test]
fn plain_character_is_its_code() {
    let tokens = tokenize("'A'").unwrap();
    assert_eq!(
        tokens,
        vec![Token::new(TokenKind::Integer, "65"), bare(TokenKind::EndOfInput)]
    );
}

#[test]
fn every_known_escape_decodes() {
    let tokens = tokenize("'\\n' '\\t' '\\r' '\\\\' '\\'' '\\0'").unwrap();
    let values: Vec<&str> = tokens.iter().map(|t| t.value.as_str()).collect();
    assert_eq!(values, vec!["10", "9", "13", "92", "39", "0", ""]);
    assert!(tokens[..6].iter().all(|t| t.kind == TokenKind::Integer));
}

#[test]
fn unknown_escape_is_reported_where_it_stands() {
    assert_eq!(tokenize("x = '\\q'"), Err(LexError::UnknownEscape { position: 4 }));
}

#[test]
fn unsupported_character_fails_the_call() {
    assert_eq!(tokenize("@"), Err(LexError::UnrecognizedToken { position: 0 }));
}

#[test]
fn failure_reports_the_offending_position() {
    assert_eq!(tokenize("x = 1 @ 2"), Err(LexError::UnrecognizedToken { position: 6 }));
}

#[test]
fn unterminated_string_is_unrecognized() {
    assert_eq!(tokenize("x \"abc"), Err(LexError::UnrecognizedToken { position: 2 }));
}

#[test]
fn unterminated_character_is_unrecognized() {
    assert_eq!(tokenize("'a"), Err(LexError::UnrecognizedToken { position: 0 }));
}

#[test]
fn bare_quote_pair_is_not_a_character() {
    assert_eq!(tokenize("''"), Err(LexError::UnrecognizedToken { position: 0 }));
}

#[test]
fn end_to_end_statement() {
    let tokens = tokenize("if (x < 10) { print x; }").unwrap();
    assert_eq!(
        tokens,
        vec![
            bare(TokenKind::KeywordIf),
            bare(TokenKind::OpenParen),
            Token::new(TokenKind::Identifier, "x"),
            bare(TokenKind::OpLess),
            Token::new(TokenKind::Integer, "10"),
            bare(TokenKind::CloseParen),
            bare(TokenKind::OpenBrace),
            bare(TokenKind::KeywordPrint),
            Token::new(TokenKind::Identifier, "x"),
            bare(TokenKind::Semicolon),
            bare(TokenKind::CloseBrace),
            bare(TokenKind::EndOfInput),
        ]
    );
}

#[test]
fn empty_source_is_just_end_of_input() {
    assert_eq!(tokenize("").unwrap(), vec![bare(TokenKind::EndOfInput)]);
}

#[test]
fn tokenizing_twice_gives_the_same_tokens() {
    let source = "while (i <= 10) { putc 'a'; i = i + 1; } /* done */";
    assert_eq!(tokenize(source), tokenize(source));
}

#[test]
fn end_of_input_comes_once_and_last() {
    let tokens = tokenize("a + b /* c */ \"d\" 'e' 5").unwrap();
    let count = tokens.iter().filter(|t| t.kind == TokenKind::EndOfInput).count();
    assert_eq!(count, 1);
    assert_eq!(tokens.last().unwrap().kind, TokenKind::EndOfInput);
}

#[test]
fn arithmetic_and_punctuation() {
    let tokens = tokenize("a+b-c*d/e%f,g;").unwrap();
    assert_eq!(
        kinds(&tokens),
        vec![
            TokenKind::Identifier,
            TokenKind::OpAdd,
            TokenKind::Identifier,
            TokenKind::OpSubtract,
            TokenKind::Identifier,
            TokenKind::OpMultiply,
            TokenKind::Identifier,
            TokenKind::OpDivide,
            TokenKind::Identifier,
            TokenKind::OpMod,
            TokenKind::Identifier,
            TokenKind::Comma,
            TokenKind::Identifier,
            TokenKind::Semicolon,
            TokenKind::EndOfInput,
        ]
    );
}

#[test]
fn unterminated_comment_lexes_as_operators() {
    let tokens = tokenize("/* x").unwrap();
    assert_eq!(
        kinds(&tokens),
        vec![
            TokenKind::OpDivide,
            TokenKind::OpMultiply,
            TokenKind::Identifier,
            TokenKind::EndOfInput
        ]
    );
}

#[test]
fn text_beyond_ascii_may_stand_in_strings_and_comments() {
    let tokens = tokenize("/* é */ \"ü→\" 'é'").unwrap();
    assert_eq!(
        tokens,
        vec![
            Token::new(TokenKind::String, "ü→"),
            Token::new(TokenKind::Integer, "233"),
            bare(TokenKind::EndOfInput),
        ]
    );
}

#[test]
fn failure_position_counts_bytes() {
    assert_eq!(tokenize("\"é\" @"), Err(LexError::UnrecognizedToken { position: 5 }));
}

#[test]
fn a_match_counts_only_at_the_cursor() {
    assert_eq!(anchored_length(Some((0, 3))), Some(3));
    assert_eq!(anchored_length(Some((0, 1))), Some(1));
    assert_eq!(anchored_length(Some((1, 3))), None);
    assert_eq!(anchored_length(Some((7, 7))), None);
    assert_eq!(anchored_length(None), None);
}

#[test]
fn an_empty_match_does_not_count() {
    assert_eq!(anchored_length(Some((0, 0))), None);
}

#[test]
fn earlier_rules_win_whatever_the_lengths() {
    let tokens = tokenize("ab12").unwrap();
    assert_eq!(
        tokens,
        vec![Token::new(TokenKind::Identifier, "ab12"), bare(TokenKind::EndOfInput)]
    );
    let tokens = tokenize("12ab").unwrap();
    assert_eq!(
        tokens,
        vec![
            Token::new(TokenKind::Integer, "12"),
            Token::new(TokenKind::Identifier, "ab"),
            bare(TokenKind::EndOfInput)
        ]
    );
    let tokens = tokenize("a/**/b/c").unwrap();
    assert_eq!(
        kinds(&tokens),
        vec![
            TokenKind::Identifier,
            TokenKind::Identifier,
            TokenKind::OpDivide,
            TokenKind::Identifier,
            TokenKind::EndOfInput
        ]
    );
}

#[test]
fn integer_payload_is_the_digit_run() {
    let tokens = tokenize("007 99999999999999999999").unwrap();
    assert_eq!(
        tokens,
        vec![
            Token::new(TokenKind::Integer, "007"),
            Token::new(TokenKind::Integer, "99999999999999999999"),
            bare(TokenKind::EndOfInput)
        ]
    );
}

#[test]
fn string_may_span_lines() {
    let tokens = tokenize("\"a\nb\"").unwrap();
    assert_eq!(
        tokens,
        vec![Token::new(TokenKind::String, "a\nb"), bare(TokenKind::EndOfInput)]
    );
}

#[test]
fn escaped_line_feed_is_an_unknown_escape() {
    assert_eq!(tokenize("'\\\n'"), Err(LexError::UnknownEscape { position: 0 }));
}

#[test]
fn every_byte_is_accounted_for() {
    let source = "ab  cd e   fgh";
    let tokens = tokenize(source).unwrap();
    let carried: usize = tokens.iter().map(|t| t.value.len()).sum();
    let skipped = source.bytes().filter(|b| *b == b' ').count();
    assert_eq!(carried + skipped, source.len());
    assert_eq!(tokens.len(), 5);
}

#[test]
fn nothing_is_passed_over_before_a_failure() {
    assert_eq!(tokenize("ab  cd@"), Err(LexError::UnrecognizedToken { position: 6 }));
    assert_eq!(tokenize("  /* c */  $"), Err(LexError::UnrecognizedToken { position: 11 }));
}

#[test]
fn trivia_alone_yields_just_the_end() {
    assert_eq!(tokenize(" \t\n /* a */ \r\n").unwrap(), vec![bare(TokenKind::EndOfInput)]);
}

#[test]
fn a_fresh_lexer_has_emitted_nothing() {
    let lexer = create_lexer("a b").unwrap();
    assert!(lexer.tokens.is_empty());
}

#[test]
fn running_a_fresh_lexer_tokenizes_its_source() {
    let source = "if (x < 10) { print x; }";
    assert_eq!(create_lexer(source).unwrap().run(), tokenize(source));
    assert_eq!(create_lexer("x @").unwrap().run(), tokenize("x @"));
}

#[test]
fn a_run_keeps_what_was_emitted_before() {
    let mut lexer = create_lexer("b").unwrap();
    lexer.tokens.push(Token::new(TokenKind::Identifier, "a"));
    assert_eq!(
        lexer.run(),
        Ok(vec![
            Token::new(TokenKind::Identifier, "a"),
            Token::new(TokenKind::Identifier, "b"),
            bare(TokenKind::EndOfInput),
        ])
    );
}
