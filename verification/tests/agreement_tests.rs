use tokenizer::scanner::{Lexer, Token as Scanned};
use tokenizer::{tokenize, LexError, Token, TokenKind};

fn bare(kind: TokenKind) -> Token {
    Token::new(kind, "")
}

/// The token of the rule-table engine that says the same as `token`.
fn same_as(token: Scanned) -> Token {
    match token {
        Scanned::OpMultiply => bare(TokenKind::OpMultiply),
        Scanned::OpDivide => bare(TokenKind::OpDivide),
        Scanned::OpMod => bare(TokenKind::OpMod),
        Scanned::OpAdd => bare(TokenKind::OpAdd),
        Scanned::OpSubtract => bare(TokenKind::OpSubtract),
        Scanned::OpNegate => bare(TokenKind::OpNegate),
        Scanned::OpLess => bare(TokenKind::OpLess),
        Scanned::OpLessEqual => bare(TokenKind::OpLessEqual),
        Scanned::OpGreater => bare(TokenKind::OpGreater),
        Scanned::OpGreaterEqual => bare(TokenKind::OpGreaterEqual),
        Scanned::OpEqual => bare(TokenKind::OpEqual),
        Scanned::OpNotEqual => bare(TokenKind::OpNotEqual),
        Scanned::OpNot => bare(TokenKind::OpNot),
        Scanned::OpAssign => bare(TokenKind::OpAssign),
        Scanned::OpAnd => bare(TokenKind::OpAnd),
        Scanned::OpOr => bare(TokenKind::OpOr),
        Scanned::LeftParen => bare(TokenKind::OpenParen),
        Scanned::RightParen => bare(TokenKind::CloseParen),
        Scanned::LeftBrace => bare(TokenKind::OpenBrace),
        Scanned::RightBrace => bare(TokenKind::CloseBrace),
        Scanned::Semicolon => bare(TokenKind::Semicolon),
        Scanned::Comma => bare(TokenKind::Comma),
        Scanned::KeywordIf => bare(TokenKind::KeywordIf),
        Scanned::KeywordElse => bare(TokenKind::KeywordElse),
        Scanned::KeywordWhile => bare(TokenKind::KeywordWhile),
        Scanned::KeywordPrint => bare(TokenKind::KeywordPrint),
        Scanned::KeywordPutc => bare(TokenKind::KeywordPutc),
        Scanned::Identifier(name) => Token::new(TokenKind::Identifier, &name),
        Scanned::Integer(digits) => Token::new(TokenKind::Integer, &digits),
        Scanned::String(contents) => Token::new(TokenKind::String, &contents),
        Scanned::EOF => bare(TokenKind::EndOfInput),
    }
}

fn scan_all(source: &str) -> Result<Vec<Token>, LexError> {
    let mut lexer = Lexer::new(source.as_bytes().to_vec())?;
    let mut tokens = Vec::new();
    loop {
        let token = lexer.next_token()?;
        let done = token == Scanned::EOF;
        tokens.push(same_as(token));
        if done {
            return Ok(tokens);
        }
    }
}

#[test]
fn both_engines_read_the_same_programs() {
    let programs = [
        "",
        "   ",
        "x",
        "if (x < 10) { print x; }",
        "while (i <= 10 && j != 3 || !done) { i = i + 1; putc 'a'; }",
        "/* sum */ total = a+b-c*d/e%f; /* end */",
        "print \"hello, world\"; putc '\\n';",
        "a==b a!=b a>=b a<=b a>b a<b a=b",
        "else elsewhere _x x_1 X9 printer",
        "'\\t' '\\r' '\\\\' '\\'' '\\0' ' ' '\"'",
        "f(1,2,3);{{}}",
        "/**/x/***/y/* * / */z",
        "\"/* not a comment */\" /* \"not a string\" */ 7",
        "007 0 99999999999999999999999999",
    ];
    for program in programs {
        assert_eq!(tokenize(program), scan_all(program), "on {:?}", program);
    }
}

#[test]
fn both_engines_fail_at_the_same_place() {
    let programs = [
        "@", "x = 1 @ 2", "x \"abc", "'a", "''", "'ab'", " '\\q'", "x # y", "a & b", "a | b",
    ];
    for program in programs {
        let by_rules = tokenize(program);
        assert!(by_rules.is_err(), "on {:?}", program);
        assert_eq!(by_rules, scan_all(program), "on {:?}", program);
    }
}

/// A small linear congruential generator, so that the programs below are
/// the same at every run.
fn next_random(state: &mut u64) -> u64 {
    *state = state.wrapping_mul(6364136223846793005).wrapping_add(1442695040888963407);
    *state >> 33
}

#[test]
fn both_engines_agree_on_scrambled_programs() {
    let alphabet: Vec<char> =
        "aif_x012 \n\t\"'\\n<=!&|+-/%(){};,>@".chars().collect();
    let mut state: u64 = 2024;
    for _ in 0..400 {
        let length = (next_random(&mut state) % 10) as usize;
        let program: String = (0..length)
            .map(|_| alphabet[(next_random(&mut state) % alphabet.len() as u64) as usize])
            .collect();
        assert_eq!(tokenize(&program), scan_all(&program), "on {:?}", program);
    }
}

#[test]
fn both_engines_agree_on_scrambled_comments() {
    let alphabet: Vec<char> = "a /*/ \n*1".chars().collect();
    let mut state: u64 = 7;
    for _ in 0..200 {
        let length = (next_random(&mut state) % 9) as usize;
        let mut program: String = (0..length)
            .map(|_| alphabet[(next_random(&mut state) % alphabet.len() as u64) as usize])
            .collect();
        // Close whatever comment may be open: the engines differ on
        // comments that are not closed.
        program.push_str(" /**/ */ x");
        assert_eq!(tokenize(&program), scan_all(&program), "on {:?}", program);
    }
}
