//! A hand-written scanner over bytes that hands out one token per call.
//! It follows the grammar of [`crate::grammar`]; the regex engine serves
//! only to classify single bytes.
use vstd::prelude::*;
use vstd::slice::slice_subrange;
use vstd::slice::slice_to_vec;
use vstd::utf8::*;
use regex::bytes::Regex;
use crate::error::{LexError, LiteralError};
use crate::grammar::{
    char_literal, classified_token, comment_close, comment_opens, comments_end, in_class,
    lemma_comments_are_trivia, lemma_comments_end_bounds, lemma_run_end_bounds,
    lemma_trivia_end_bounds, lemma_trivia_end_is_fixed, lemma_whitespace_is_trivia, number, pair_at,
    plain, run_end, scan, string_literal, trivia_end, word, word_token, ByteClass, Reading, Scanned,
    AMPERSAND, APOSTROPHE, BACKSLASH, BANG, CARRIAGE_RETURN, CLOSE_BRACE, CLOSE_PAREN, COMMA,
    DIGIT_PATTERN, EQUALS, FORM_FEED, GREATER, LESS, LINE_FEED, MINUS, OPEN_BRACE, OPEN_PAREN,
    PERCENT, PIPE, PLUS, QUOTE, SEMICOLON, SLASH, SPACE, STAR, TAB, WORD_PATTERN,
    WORD_START_PATTERN,
};
use crate::literal::{decimal_string, escape_to_number, keyword_kind};
use crate::trusted::{
    byte_match, byte_pattern_compiles, byte_pattern_of, compile_bytes, is_match, text_from_utf8,
};
use crate::token::TokenKind;

verus! {

/// A token as the scanner hands it out: the kind, and with it the payload
/// of the kinds that bear one.
#[derive(Debug, Clone, PartialEq, Eq)]
pub enum Token {
    OpMultiply,
    OpDivide,
    OpMod,
    OpAdd,
    OpSubtract,
    OpNegate,
    OpLess,
    OpLessEqual,
    OpGreater,
    OpGreaterEqual,
    OpEqual,
    OpNotEqual,
    OpNot,
    OpAssign,
    OpAnd,
    OpOr,
    LeftParen,
    RightParen,
    LeftBrace,
    RightBrace,
    Semicolon,
    Comma,
    KeywordIf,
    KeywordElse,
    KeywordWhile,
    KeywordPrint,
    KeywordPutc,
    /// An identifier, with its name.
    Identifier(String),
    /// An integer, with its digits as they stand in the source; for a
    /// character literal, with the code of the character in decimal.
    Integer(String),
    /// A string, with its contents.
    String(String),
    EOF,
}

impl View for Token {
    type V = Scanned;

    open spec fn view(&self) -> Scanned {
        match self {
            Token::OpMultiply => plain(TokenKind::OpMultiply),
            Token::OpDivide => plain(TokenKind::OpDivide),
            Token::OpMod => plain(TokenKind::OpMod),
            Token::OpAdd => plain(TokenKind::OpAdd),
            Token::OpSubtract => plain(TokenKind::OpSubtract),
            Token::OpNegate => plain(TokenKind::OpNegate),
            Token::OpLess => plain(TokenKind::OpLess),
            Token::OpLessEqual => plain(TokenKind::OpLessEqual),
            Token::OpGreater => plain(TokenKind::OpGreater),
            Token::OpGreaterEqual => plain(TokenKind::OpGreaterEqual),
            Token::OpEqual => plain(TokenKind::OpEqual),
            Token::OpNotEqual => plain(TokenKind::OpNotEqual),
            Token::OpNot => plain(TokenKind::OpNot),
            Token::OpAssign => plain(TokenKind::OpAssign),
            Token::OpAnd => plain(TokenKind::OpAnd),
            Token::OpOr => plain(TokenKind::OpOr),
            Token::LeftParen => plain(TokenKind::OpenParen),
            Token::RightParen => plain(TokenKind::CloseParen),
            Token::LeftBrace => plain(TokenKind::OpenBrace),
            Token::RightBrace => plain(TokenKind::CloseBrace),
            Token::Semicolon => plain(TokenKind::Semicolon),
            Token::Comma => plain(TokenKind::Comma),
            Token::KeywordIf => plain(TokenKind::KeywordIf),
            Token::KeywordElse => plain(TokenKind::KeywordElse),
            Token::KeywordWhile => plain(TokenKind::KeywordWhile),
            Token::KeywordPrint => plain(TokenKind::KeywordPrint),
            Token::KeywordPutc => plain(TokenKind::KeywordPutc),
            Token::Identifier(name) => Scanned { kind: TokenKind::Identifier, text: name@ },
            Token::Integer(digits) => Scanned { kind: TokenKind::Integer, text: digits@ },
            Token::String(contents) => Scanned { kind: TokenKind::String, text: contents@ },
            Token::EOF => plain(TokenKind::EndOfInput),
        }
    }
}

/// Whether `b` is ASCII whitespace.
fn is_space(b: u8) -> (yes: bool)
    ensures
        yes == in_class(ByteClass::Space, b),
{
    b == SPACE || b == TAB || b == LINE_FEED || b == FORM_FEED || b == CARRIAGE_RETURN
}

/// Whether the pattern of `re` matches the single byte `b`.
fn matches_byte(re: &Regex, b: u8) -> (yes: bool)
    ensures
        yes == byte_match(byte_pattern_of(*re), seq![b]),
{
    let one = [b];
    assert(one@ =~= seq![b]);
    is_match(re, one.as_slice())
}

/// A cursor over the bytes of a source.
pub struct Lexer {
    input: Vec<u8>,
    position: usize,
    digit_re: Regex,
    ident_re: Regex,
    first_ident_re: Regex,
}

/// Which of the three byte-class patterns the regex compiler rejects
/// first: 0 for the digits, 1 for the word bytes, 2 for the bytes that begin
/// a word.
pub open spec fn rejected_class() -> usize {
    if !byte_pattern_compiles(DIGIT_PATTERN@) {
        0
    } else if !byte_pattern_compiles(WORD_PATTERN@) {
        1
    } else {
        2
    }
}

/// The mathematical value of what a scanning step hands back.
pub open spec fn scanned(outcome: Result<Token, LexError>) -> Result<Scanned, LexError> {
    match outcome {
        Ok(token) => Ok(token@),
        Err(e) => Err(e),
    }
}

/// The mathematical value of a text that was read.
pub open spec fn text_read(value: Result<String, LiteralError>, next: int) -> Reading<Seq<char>> {
    match value {
        Ok(text) => Reading { value: Ok(text@), next },
        Err(fault) => Reading { value: Err(fault), next },
    }
}

/// The mathematical value of a character code that was read.
pub open spec fn code_read(value: Result<u32, LiteralError>, next: int) -> Reading<int> {
    match value {
        Ok(code) => Reading { value: Ok(code as int), next },
        Err(fault) => Reading { value: Err(fault), next },
    }
}

impl Lexer {
    /// The bytes of the source.
    pub closed spec fn text(&self) -> Seq<u8> {
        self.input@
    }

    /// The cursor: the offset of the first byte not yet consumed.
    pub closed spec fn cursor(&self) -> int {
        self.position as int
    }

    /// The cursor lies within the source, and the three byte classes are
    /// compiled from their patterns.
    #[verifier::type_invariant]
    spec fn wf(&self) -> bool {
        &&& self.position <= self.input@.len()
        &&& byte_pattern_of(self.digit_re) == DIGIT_PATTERN@
        &&& byte_pattern_of(self.ident_re) == WORD_PATTERN@
        &&& byte_pattern_of(self.first_ident_re) == WORD_START_PATTERN@
    }

    /// A scanner at the start of `input`. It is made exactly when the regex
    /// compiler accepts the three byte-class patterns; otherwise the failure
    /// names the first pattern that was rejected: 0 for the digits, 1 for the
    /// word bytes, 2 for the bytes that begin a word.
    pub fn new(input: Vec<u8>) -> (made: Result<Lexer, LexError>)
        ensures
            made is Ok <==> byte_pattern_compiles(DIGIT_PATTERN@) && byte_pattern_compiles(
                WORD_PATTERN@,
            ) && byte_pattern_compiles(WORD_START_PATTERN@),
            match made {
                Ok(lexer) => lexer.text() == input@ && lexer.cursor() == 0,
                Err(e) => e == (LexError::InvalidPattern { rule: rejected_class() }),
            },
    {
        let digit_re = match compile_bytes(DIGIT_PATTERN) {
            Ok(re) => re,
            Err(_) => {
                return Err(LexError::InvalidPattern { rule: 0 });
            },
        };
        let ident_re = match compile_bytes(WORD_PATTERN) {
            Ok(re) => re,
            Err(_) => {
                return Err(LexError::InvalidPattern { rule: 1 });
            },
        };
        let first_ident_re = match compile_bytes(WORD_START_PATTERN) {
            Ok(re) => re,
            Err(_) => {
                return Err(LexError::InvalidPattern { rule: 2 });
            },
        };
        Ok(Lexer { input, position: 0, digit_re, ident_re, first_ident_re })
    }

    /// The byte at the cursor, if the input is not exhausted.
    spec fn peeked(&self) -> Option<u8> {
        if self.position < self.input@.len() {
            Some(self.input@[self.position as int])
        } else {
            None
        }
    }

    /// Moves the cursor back to `to`.
    fn rewind(&mut self, to: usize)
        requires
            to <= old(self).position,
        ensures
            final(self).input == old(self).input,
            final(self).position == to,
    {
        proof {
            use_type_invariant(&*self);
        }
        self.position = to;
    }

    /// Consumes the byte at the cursor and hands it back; at the end of the
    /// input nothing is consumed.
    fn advance(&mut self) -> (byte: Option<u8>)
        ensures
            final(self).input == old(self).input,
            byte == old(self).peeked(),
            final(self).position == if byte is Some {
                old(self).position + 1
            } else {
                old(self).position as int
            },
    {
        proof {
            use_type_invariant(&*self);
        }
        if self.position < self.input.len() {
            let byte = self.input[self.position];
            self.position += 1;
            Some(byte)
        } else {
            None
        }
    }

    /// The byte at the cursor, which stays where it is; `None` at the end
    /// of the input.
    fn peek(&self) -> (byte: Option<u8>)
        ensures
            byte == self.peeked(),
    {
        if self.position < self.input.len() {
            let byte = self.input[self.position];
            Some(byte)
        } else {
            None
        }
    }

    /// Consumes `bytes` if they stand at the cursor; otherwise nothing.
    fn match_bytes(&mut self, bytes: &[u8]) -> (matched: bool)
        ensures
            final(self).input == old(self).input,
            matched == (old(self).position + bytes@.len() <= old(self).input@.len()
                && old(self).input@.subrange(
                old(self).position as int,
                old(self).position + bytes@.len(),
            ) == bytes@),
            final(self).position == if matched {
                old(self).position + bytes@.len()
            } else {
                old(self).position as int
            },
    {
        proof {
            use_type_invariant(&*self);
        }
        let n: usize = bytes.len();
        if n > self.input.len() - self.position {
            return false;
        }
        let mut i: usize = 0;
        while i < n
            invariant
                n == bytes@.len(),
                i <= n,
                self.input == old(self).input,
                self.position == old(self).position,
                self.position + n <= self.input@.len() <= usize::MAX,
                forall|j: int| 0 <= j < i ==> self.input@[self.position + j] == bytes@[j],
            decreases n - i,
        {
            if self.input[self.position + i] != bytes[i] {
                return false;
            }
            i += 1;
        }
        assert(self.input@.subrange(self.position as int, self.position + n) =~= bytes@);
        self.position += n;
        true
    }

    /// Consumes the two bytes `first`, `second` if they stand at the cursor.
    fn match_pair(&mut self, first: u8, second: u8) -> (matched: bool)
        ensures
            final(self).input == old(self).input,
            matched == pair_at(old(self).input@, old(self).position as int, first, second),
            final(self).position == if matched {
                old(self).position + 2
            } else {
                old(self).position as int
            },
    {
        let pair = [first, second];
        proof {
            let window = self.input@.subrange(self.position as int, self.position + 2);
            if pair_at(self.input@, self.position as int, first, second) {
                assert(window =~= pair@);
            }
        }
        self.match_bytes(pair.as_slice())
    }

    /// Consumes the run of `class` bytes at the cursor.
    fn skip_run(&mut self, class: ByteClass)
        ensures
            final(self).input == old(self).input,
            final(self).position == run_end(old(self).input@, old(self).position as int, class),
            old(self).position <= final(self).position,
    {
        loop
            invariant
                self.input == old(self).input,
                old(self).position <= self.position,
                run_end(self.input@, self.position as int, class) == run_end(
                    old(self).input@,
                    old(self).position as int,
                    class,
                ),
            ensures
                self.input == old(self).input,
                self.position == run_end(old(self).input@, old(self).position as int, class),
                old(self).position <= self.position,
            decreases self.input@.len() - self.position,
        {
            proof {
                use_type_invariant(&*self);
            }
            let inside = match self.peek() {
                Some(b) => match class {
                    ByteClass::Space => is_space(b),
                    ByteClass::Digit => matches_byte(&self.digit_re, b),
                    ByteClass::WordStart => matches_byte(&self.first_ident_re, b),
                    ByteClass::Word => matches_byte(&self.ident_re, b),
                    ByteClass::StringBody => b != QUOTE,
                },
                None => false,
            };
            if !inside {
                break;
            }
            self.advance();
        }
    }

    /// Consumes the whitespace at the cursor, up to the first byte that is
    /// none.
    fn skip_whitespace(&mut self)
        ensures
            final(self).input == old(self).input,
            final(self).position == run_end(
                old(self).input@,
                old(self).position as int,
                ByteClass::Space,
            ),
    {
        self.skip_run(ByteClass::Space);
    }

    /// Consumes the comments that follow one another directly at the
    /// cursor. A comment that is never closed reaches to the end of the
    /// input.
    fn skip_comments(&mut self)
        ensures
            final(self).input == old(self).input,
            final(self).position == comments_end(old(self).input@, old(self).position as int),
    {
        loop
            invariant
                self.input == old(self).input,
                comments_end(self.input@, self.position as int) == comments_end(
                    old(self).input@,
                    old(self).position as int,
                ),
            ensures
                self.input == old(self).input,
                self.position == comments_end(old(self).input@, old(self).position as int),
            decreases self.input@.len() - self.position,
        {
            proof {
                use_type_invariant(&*self);
            }
            let ghost opened = self.position as int;
            if !self.match_pair(SLASH, STAR) {
                break;
            }
            loop
                invariant_except_break
                    comment_close(self.input@, self.position as int) == comment_close(
                        self.input@,
                        opened + 2,
                    ),
                invariant
                    self.input == old(self).input,
                    opened + 2 <= self.position,
                    comment_opens(self.input@, opened),
                    comments_end(self.input@, opened) == comments_end(
                        old(self).input@,
                        old(self).position as int,
                    ),
                ensures
                    self.input == old(self).input,
                    self.position == comment_close(self.input@, opened + 2),
                    opened + 2 <= self.position,
                decreases self.input@.len() - self.position,
            {
                proof {
                    use_type_invariant(&*self);
                }
                if self.peek().is_none() {
                    assert(comments_end(self.input@, opened) == comments_end(
                        self.input@,
                        comment_close(self.input@, opened + 2),
                    ));
                    return;
                }
                if self.match_pair(STAR, SLASH) {
                    break;
                }
                self.advance();
            }
            proof {
                use_type_invariant(&*self);
            }
        }
    }

    /// Consumes the whitespace and the comments at the cursor, however they
    /// are interleaved, and stops where neither stands. A comment that is
    /// never closed reaches to the end of the input.
    pub fn skip_trivia(&mut self)
        ensures
            final(self).text() == old(self).text(),
            final(self).cursor() == trivia_end(old(self).text(), old(self).cursor()),
            0 <= old(self).cursor() <= final(self).cursor() <= final(self).text().len(),
    {
        proof {
            use_type_invariant(&*self);
            lemma_trivia_end_bounds(self.input@, self.position as int);
        }
        loop
            invariant
                self.input == old(self).input,
                trivia_end(self.input@, self.position as int) == trivia_end(
                    old(self).input@,
                    old(self).position as int,
                ),
            ensures
                self.input == old(self).input,
                self.position == trivia_end(old(self).input@, old(self).position as int),
            decreases self.input@.len() - self.position,
        {
            proof {
                use_type_invariant(&*self);
            }
            let before: usize = self.position;
            self.skip_whitespace();
            let ghost spaced = self.position as int;
            self.skip_comments();
            let ghost commented = self.position as int;
            self.skip_whitespace();
            proof {
                let s = self.input@;
                lemma_run_end_bounds(s, before as int, ByteClass::Space);
                lemma_whitespace_is_trivia(s, before as int);
                lemma_comments_end_bounds(s, spaced);
                lemma_comments_are_trivia(s, spaced);
                lemma_run_end_bounds(s, commented, ByteClass::Space);
                lemma_whitespace_is_trivia(s, commented);
                lemma_trivia_end_is_fixed(s, before as int);
                use_type_invariant(&*self);
            }
            if self.position == before {
                break;
            }
        }
    }

    /// Reads a string literal whose opening quote has just been consumed:
    /// the bytes up to the closing quote, taken verbatim, and the closing
    /// quote, which is consumed too. Where the literal is not closed, or its
    /// bytes are not valid UTF-8, the cursor stays where it was.
    pub fn read_string(&mut self) -> (contents: Result<String, LiteralError>)
        ensures
            final(self).text() == old(self).text(),
            text_read(contents, final(self).cursor()) == string_literal(
                old(self).text(),
                old(self).cursor(),
            ),
            0 <= old(self).cursor() <= final(self).cursor() <= final(self).text().len(),
    {
        broadcast use group_utf8_lib;

        proof {
            use_type_invariant(&*self);
            lemma_run_end_bounds(self.input@, self.position as int, ByteClass::StringBody);
        }
        let start: usize = self.position;
        self.skip_run(ByteClass::StringBody);
        proof {
            use_type_invariant(&*self);
        }
        if self.position >= self.input.len() {
            self.rewind(start);
            return Err(LiteralError::Malformed);
        }
        let body = slice_to_vec(slice_subrange(self.input.as_slice(), start, self.position));
        match text_from_utf8(body) {
            Ok(text) => {
                self.advance();
                Ok(text)
            },
            Err(_) => {
                self.rewind(start);
                Err(LiteralError::InvalidUtf8)
            },
        }
    }

    /// Reads a character literal whose opening quote has just been
    /// consumed, through its closing quote, and hands back the code of the
    /// character. On failure the cursor stays where it was.
    fn read_literal(&mut self) -> (code: Result<u32, LiteralError>)
        ensures
            final(self).input == old(self).input,
            code_read(code, final(self).position as int) == char_literal(
                old(self).input@,
                old(self).position as int,
            ),
            old(self).position <= final(self).position,
    {
        proof {
            use_type_invariant(&*self);
        }
        let start: usize = self.position;
        let first: u8 = match self.peek() {
            Some(b) => b,
            None => {
                return Err(LiteralError::Malformed);
            },
        };
        let decoded: Option<u32> = if first == BACKSLASH {
            self.advance();
            let letter: u8 = match self.advance() {
                Some(b) => b,
                None => {
                    self.rewind(start);
                    return Err(LiteralError::Malformed);
                },
            };
            escape_to_number(letter as char)
        } else if first == LINE_FEED || first == APOSTROPHE {
            return Err(LiteralError::Malformed);
        } else {
            self.advance();
            Some(first as u32)
        };
        let closed: bool = match self.advance() {
            Some(b) => b == APOSTROPHE,
            None => false,
        };
        if !closed {
            self.rewind(start);
            return Err(LiteralError::Malformed);
        }
        match decoded {
            Some(value) => Ok(value),
            None => {
                self.rewind(start);
                Err(LiteralError::UnknownEscape)
            },
        }
    }

    /// Reads a word: the byte at the cursor, which begins it, and the word
    /// bytes that follow. Where the bytes are not valid UTF-8 the cursor
    /// stays where it was.
    fn read_identifier(&mut self) -> (name: Result<String, LiteralError>)
        requires
            old(self).position < old(self).input@.len(),
        ensures
            final(self).input == old(self).input,
            text_read(name, final(self).position as int) == word(
                old(self).input@,
                old(self).position as int,
            ),
            old(self).position <= final(self).position,
    {
        broadcast use group_utf8_lib;

        let start: usize = self.position;
        self.advance();
        proof {
            lemma_run_end_bounds(self.input@, self.position as int, ByteClass::Word);
        }
        self.skip_run(ByteClass::Word);
        let text = slice_to_vec(slice_subrange(self.input.as_slice(), start, self.position));
        match text_from_utf8(text) {
            Ok(name) => Ok(name),
            Err(_) => {
                self.rewind(start);
                Err(LiteralError::InvalidUtf8)
            },
        }
    }

    /// Reads a number: the byte at the cursor, which begins it, and the
    /// digit bytes that follow, as text. Where the bytes are not valid
    /// UTF-8 the cursor stays where it was.
    fn read_number(&mut self) -> (digits: Result<String, LiteralError>)
        requires
            old(self).position < old(self).input@.len(),
        ensures
            final(self).input == old(self).input,
            text_read(digits, final(self).position as int) == number(
                old(self).input@,
                old(self).position as int,
            ),
            old(self).position <= final(self).position,
    {
        broadcast use group_utf8_lib;

        let start: usize = self.position;
        self.advance();
        proof {
            lemma_run_end_bounds(self.input@, self.position as int, ByteClass::Digit);
        }
        self.skip_run(ByteClass::Digit);
        let text = slice_to_vec(slice_subrange(self.input.as_slice(), start, self.position));
        match text_from_utf8(text) {
            Ok(digits) => Ok(digits),
            Err(_) => {
                self.rewind(start);
                Err(LiteralError::InvalidUtf8)
            },
        }
    }

    /// The token that the word `name` is: a keyword, or else an identifier
    /// that carries the word.
    fn word_to_token(name: String) -> (token: Token)
        ensures
            token@ == word_token(name@),
    {
        match keyword_kind(name.as_str()) {
            Some(TokenKind::KeywordPrint) => Token::KeywordPrint,
            Some(TokenKind::KeywordPutc) => Token::KeywordPutc,
            Some(TokenKind::KeywordIf) => Token::KeywordIf,
            Some(TokenKind::KeywordElse) => Token::KeywordElse,
            Some(TokenKind::KeywordWhile) => Token::KeywordWhile,
            _ => Token::Identifier(name),
        }
    }

    /// Reads the token at the cursor, given how the byte there was
    /// classified: whether it may begin a word, and whether it is a digit.
    /// The cursor moves behind the token; at the end of the input the token
    /// is `EOF`. A failure leaves the cursor in place and reports its
    /// position.
    pub fn read_token(&mut self, begins_word: bool, begins_number: bool) -> (outcome: Result<
        Token,
        LexError,
    >)
        ensures
            final(self).text() == old(self).text(),
            scanned(outcome) == classified_token(
                old(self).text(),
                old(self).cursor(),
                begins_word,
                begins_number,
            ).outcome,
            final(self).cursor() == classified_token(
                old(self).text(),
                old(self).cursor(),
                begins_word,
                begins_number,
            ).next,
            0 <= old(self).cursor() <= final(self).cursor() <= final(self).text().len(),
    {
        proof {
            use_type_invariant(&*self);
        }
        let start: usize = self.position;
        let b: u8 = match self.peek() {
            Some(b) => b,
            None => {
                return Ok(Token::EOF);
            },
        };
        let outcome = if self.match_pair(EQUALS, EQUALS) {
            Ok(Token::OpEqual)
        } else if self.match_pair(BANG, EQUALS) {
            Ok(Token::OpNotEqual)
        } else if self.match_pair(LESS, EQUALS) {
            Ok(Token::OpLessEqual)
        } else if self.match_pair(GREATER, EQUALS) {
            Ok(Token::OpGreaterEqual)
        } else if self.match_pair(AMPERSAND, AMPERSAND) {
            Ok(Token::OpAnd)
        } else if self.match_pair(PIPE, PIPE) {
            Ok(Token::OpOr)
        } else if b == QUOTE {
            self.advance();
            match self.read_string() {
                Ok(contents) => Ok(Token::String(contents)),
                Err(fault) => Err(fault.at(start)),
            }
        } else if begins_word {
            match self.read_identifier() {
                Ok(name) => Ok(Self::word_to_token(name)),
                Err(fault) => Err(fault.at(start)),
            }
        } else if begins_number {
            match self.read_number() {
                Ok(digits) => Ok(Token::Integer(digits)),
                Err(fault) => Err(fault.at(start)),
            }
        } else if b == APOSTROPHE {
            self.advance();
            match self.read_literal() {
                Ok(code) => Ok(Token::Integer(decimal_string(code))),
                Err(fault) => Err(fault.at(start)),
            }
        } else {
            let simple: Option<Token> = if b == COMMA {
                Some(Token::Comma)
            } else if b == OPEN_PAREN {
                Some(Token::LeftParen)
            } else if b == CLOSE_PAREN {
                Some(Token::RightParen)
            } else if b == SEMICOLON {
                Some(Token::Semicolon)
            } else if b == EQUALS {
                Some(Token::OpAssign)
            } else if b == MINUS {
                Some(Token::OpSubtract)
            } else if b == PLUS {
                Some(Token::OpAdd)
            } else if b == GREATER {
                Some(Token::OpGreater)
            } else if b == LESS {
                Some(Token::OpLess)
            } else if b == STAR {
                Some(Token::OpMultiply)
            } else if b == SLASH {
                Some(Token::OpDivide)
            } else if b == OPEN_BRACE {
                Some(Token::LeftBrace)
            } else if b == CLOSE_BRACE {
                Some(Token::RightBrace)
            } else if b == BANG {
                Some(Token::OpNot)
            } else if b == PERCENT {
                Some(Token::OpMod)
            } else {
                None
            };
            match simple {
                Some(token) => {
                    self.advance();
                    Ok(token)
                },
                None => Err(LexError::UnrecognizedToken { position: start }),
            }
        };
        if outcome.is_err() {
            self.rewind(start);
        }
        proof {
            use_type_invariant(&*self);
        }
        outcome
    }

    /// Hands out the next token: passes the trivia at the cursor, then
    /// reads one token and moves the cursor behind it. At the end of the
    /// input the token is `EOF`, again at every further call.
    ///
    /// A failure leaves the cursor at the start of the text that was not
    /// accepted, and reports that position: `UnrecognizedToken` for a byte
    /// that begins no token and for a literal that is malformed or not
    /// closed, `UnknownEscape` for a character literal with an unknown escape
    /// letter, `InvalidUtf8` for a string whose bytes are no text.
    pub fn next_token(&mut self) -> (outcome: Result<Token, LexError>)
        ensures
            final(self).text() == old(self).text(),
            scanned(outcome) == scan(old(self).text(), old(self).cursor()).outcome,
            final(self).cursor() == scan(old(self).text(), old(self).cursor()).next,
            0 <= old(self).cursor() <= final(self).cursor() <= final(self).text().len(),
    {
        proof {
            use_type_invariant(&*self);
            lemma_trivia_end_bounds(self.input@, self.position as int);
        }
        self.skip_trivia();
        proof {
            use_type_invariant(&*self);
        }
        match self.peek() {
            Some(b) => {
                let begins_word: bool = matches_byte(&self.first_ident_re, b);
                let begins_number: bool = matches_byte(&self.digit_re, b);
                self.read_token(begins_word, begins_number)
            },
            None => self.read_token(false, false),
        }
    }
}

} // verus!
