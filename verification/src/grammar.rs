//! The lexical grammar over bytes that the hand-written scanner follows:
//! byte classes, runs, trivia, literals, and what one scanning step yields.
use vstd::prelude::*;
use vstd::utf8::*;
use crate::error::{offset, LexError, LiteralError};
use crate::literal::{decimal_text, escape_code, keyword_of};
use crate::trusted::byte_match;
use crate::token::TokenKind;

verus! {

/// The horizontal tab.
pub const TAB: u8 = 9;

/// The line feed, which ends a line.
pub const LINE_FEED: u8 = 10;

/// The form feed.
pub const FORM_FEED: u8 = 12;

/// The carriage return.
pub const CARRIAGE_RETURN: u8 = 13;

/// The space.
pub const SPACE: u8 = 32;

/// `!`
pub const BANG: u8 = 33;

/// `"`, which delimits string literals.
pub const QUOTE: u8 = 34;

/// `%`
pub const PERCENT: u8 = 37;

/// `&`
pub const AMPERSAND: u8 = 38;

/// `'`, which delimits character literals.
pub const APOSTROPHE: u8 = 39;

/// `(`
pub const OPEN_PAREN: u8 = 40;

/// `)`
pub const CLOSE_PAREN: u8 = 41;

/// `*`
pub const STAR: u8 = 42;

/// `+`
pub const PLUS: u8 = 43;

/// `,`
pub const COMMA: u8 = 44;

/// `-`
pub const MINUS: u8 = 45;

/// `/`
pub const SLASH: u8 = 47;

/// `;`
pub const SEMICOLON: u8 = 59;

/// `<`
pub const LESS: u8 = 60;

/// `=`
pub const EQUALS: u8 = 61;

/// `>`
pub const GREATER: u8 = 62;

/// `\`, which begins an escape.
pub const BACKSLASH: u8 = 92;

/// `{`
pub const OPEN_BRACE: u8 = 123;

/// `|`
pub const PIPE: u8 = 124;

/// `}`
pub const CLOSE_BRACE: u8 = 125;


/// The pattern of the digit class.
pub const DIGIT_PATTERN: &'static str = "[0-9]";

/// The pattern of the class of bytes that may begin a word.
pub const WORD_START_PATTERN: &'static str = "[_a-zA-Z]";

/// The pattern of the class of bytes that a word is made of.
pub const WORD_PATTERN: &'static str = "[_a-zA-Z0-9]";

/// The classes of bytes that runs are made of.
pub enum ByteClass {
    /// ASCII whitespace: space, tab, line feed, form feed, carriage return.
    Space,
    /// What [`DIGIT_PATTERN`] matches.
    Digit,
    /// What [`WORD_START_PATTERN`] matches.
    WordStart,
    /// What [`WORD_PATTERN`] matches.
    Word,
    /// Any byte but the double quote.
    StringBody,
}

/// Whether the byte `b` belongs to `class`. The three pattern classes are
/// whatever the regex engine says of the one-byte haystack `b`.
pub open spec fn in_class(class: ByteClass, b: u8) -> bool {
    match class {
        ByteClass::Space => b == SPACE || b == TAB || b == LINE_FEED || b == FORM_FEED
            || b == CARRIAGE_RETURN,
        ByteClass::Digit => byte_match(DIGIT_PATTERN@, seq![b]),
        ByteClass::WordStart => byte_match(WORD_START_PATTERN@, seq![b]),
        ByteClass::Word => byte_match(WORD_PATTERN@, seq![b]),
        ByteClass::StringBody => b != QUOTE,
    }
}

/// Where the run of `class` bytes that begins at `pos` ends: the first
/// position at or after `pos` whose byte is outside the class, or the end of
/// `s`.
pub open spec fn run_end(s: Seq<u8>, pos: int, class: ByteClass) -> int
    decreases s.len() - pos,
{
    if 0 <= pos < s.len() && in_class(class, s[pos]) {
        run_end(s, pos + 1, class)
    } else {
        pos
    }
}

/// Whether the two bytes `first`, `second` stand at `pos`.
pub open spec fn pair_at(s: Seq<u8>, pos: int, first: u8, second: u8) -> bool {
    0 <= pos && pos + 2 <= s.len() && s[pos] == first && s[pos + 1] == second
}

/// Whether a comment opens at `pos`.
pub open spec fn comment_opens(s: Seq<u8>, pos: int) -> bool {
    pair_at(s, pos, SLASH, STAR)
}

/// Where the comment body that begins at `pos` ends: just behind the first
/// `*/` found at or after `pos`, or at the end of `s` where there is none.
pub open spec fn comment_close(s: Seq<u8>, pos: int) -> int
    decreases s.len() - pos,
{
    if pos < 0 || pos >= s.len() {
        pos
    } else if pair_at(s, pos, STAR, SLASH) {
        pos + 2
    } else {
        comment_close(s, pos + 1)
    }
}

/// A comment body ends behind where it begins, and within the text.
pub proof fn lemma_comment_close_bounds(s: Seq<u8>, pos: int)
    requires
        0 <= pos <= s.len(),
    ensures
        pos <= comment_close(s, pos) <= s.len(),
    decreases s.len() - pos,
{
    if pos < s.len() && !pair_at(s, pos, STAR, SLASH) {
        lemma_comment_close_bounds(s, pos + 1);
    }
}

/// Where the comments that follow one another directly from `pos` on end.
pub open spec fn comments_end(s: Seq<u8>, pos: int) -> int
    decreases s.len() - pos,
{
    if comment_opens(s, pos) {
        proof {
            lemma_comment_close_bounds(s, pos + 2);
        }
        comments_end(s, comment_close(s, pos + 2))
    } else {
        pos
    }
}

/// Where the trivia that begins at `pos` ends: whitespace bytes and
/// comments, in any interleaving, are passed one after the other until
/// neither stands at the position reached.
pub open spec fn trivia_end(s: Seq<u8>, pos: int) -> int
    decreases s.len() - pos,
{
    if 0 <= pos < s.len() && in_class(ByteClass::Space, s[pos]) {
        trivia_end(s, pos + 1)
    } else if comment_opens(s, pos) {
        proof {
            lemma_comment_close_bounds(s, pos + 2);
        }
        trivia_end(s, comment_close(s, pos + 2))
    } else {
        pos
    }
}

/// A run ends at or behind where it begins, and within the text.
pub proof fn lemma_run_end_bounds(s: Seq<u8>, pos: int, class: ByteClass)
    requires
        0 <= pos <= s.len(),
    ensures
        pos <= run_end(s, pos, class) <= s.len(),
    decreases s.len() - pos,
{
    if pos < s.len() && in_class(class, s[pos]) {
        lemma_run_end_bounds(s, pos + 1, class);
    }
}

/// Comments that follow one another end behind where they begin, and
/// within the text.
pub proof fn lemma_comments_end_bounds(s: Seq<u8>, pos: int)
    requires
        0 <= pos <= s.len(),
    ensures
        pos <= comments_end(s, pos) <= s.len(),
        comment_opens(s, pos) ==> pos + 2 <= comments_end(s, pos),
    decreases s.len() - pos,
{
    if comment_opens(s, pos) {
        lemma_comment_close_bounds(s, pos + 2);
        lemma_comments_end_bounds(s, comment_close(s, pos + 2));
    }
}

/// Trivia ends behind where it begins, and within the text.
pub proof fn lemma_trivia_end_bounds(s: Seq<u8>, pos: int)
    requires
        0 <= pos <= s.len(),
    ensures
        pos <= trivia_end(s, pos) <= s.len(),
    decreases s.len() - pos,
{
    if pos < s.len() && in_class(ByteClass::Space, s[pos]) {
        lemma_trivia_end_bounds(s, pos + 1);
    } else if comment_opens(s, pos) {
        lemma_comment_close_bounds(s, pos + 2);
        lemma_trivia_end_bounds(s, comment_close(s, pos + 2));
    }
}

/// Passing the whitespace at `pos` leaves the end of the trivia unchanged.
pub proof fn lemma_whitespace_is_trivia(s: Seq<u8>, pos: int)
    requires
        0 <= pos <= s.len(),
    ensures
        trivia_end(s, run_end(s, pos, ByteClass::Space)) == trivia_end(s, pos),
    decreases s.len() - pos,
{
    if pos < s.len() && in_class(ByteClass::Space, s[pos]) {
        lemma_whitespace_is_trivia(s, pos + 1);
    }
}

/// Passing the comments at `pos` leaves the end of the trivia unchanged.
pub proof fn lemma_comments_are_trivia(s: Seq<u8>, pos: int)
    requires
        0 <= pos <= s.len(),
    ensures
        trivia_end(s, comments_end(s, pos)) == trivia_end(s, pos),
    decreases s.len() - pos,
{
    if comment_opens(s, pos) {
        lemma_comment_close_bounds(s, pos + 2);
        lemma_comments_are_trivia(s, comment_close(s, pos + 2));
    }
}

/// Where neither whitespace nor a comment stands, the trivia has ended;
/// and where the trivia has ended, neither stands.
pub proof fn lemma_trivia_end_is_fixed(s: Seq<u8>, pos: int)
    requires
        0 <= pos <= s.len(),
    ensures
        trivia_end(s, pos) == pos <==> run_end(s, pos, ByteClass::Space) == pos && comments_end(
            s,
            pos,
        ) == pos,
{
    if pos < s.len() && in_class(ByteClass::Space, s[pos]) {
        lemma_run_end_bounds(s, pos + 1, ByteClass::Space);
        lemma_trivia_end_bounds(s, pos + 1);
    } else if comment_opens(s, pos) {
        lemma_comments_end_bounds(s, pos);
        lemma_comment_close_bounds(s, pos + 2);
        lemma_trivia_end_bounds(s, comment_close(s, pos + 2));
    }
}

/// What reading a literal or word yields: its value, and the position
/// behind it. A failure leaves the position where the reading began.
pub struct Reading<T> {
    pub value: Result<T, LiteralError>,
    pub next: int,
}

/// A reading that failed at `from`.
pub open spec fn failed<T>(fault: LiteralError, from: int) -> Reading<T> {
    Reading { value: Err(fault), next: from }
}

/// The string literal whose opening quote stands just before `from`: the
/// bytes up to the next double quote, decoded as UTF-8 and taken verbatim.
/// It is malformed where no closing quote follows.
pub open spec fn string_literal(s: Seq<u8>, from: int) -> Reading<Seq<char>> {
    let close = run_end(s, from, ByteClass::StringBody);
    let body = s.subrange(from, close);
    if close >= s.len() {
        failed(LiteralError::Malformed, from)
    } else if !valid_utf8(body) {
        failed(LiteralError::InvalidUtf8, from)
    } else {
        Reading { value: Ok(decode_utf8(body)), next: close + 1 }
    }
}

/// The code of the escape letter that the byte `b` writes.
pub open spec fn escape_value(b: u8) -> Option<int> {
    match escape_code(b as char) {
        Some(code) => Some(code as int),
        None => None,
    }
}

/// The character literal whose opening quote stands just before `from`:
/// one ordinary byte, or a backslash and an escape letter, then the closing
/// quote. Its value is the code of the character.
pub open spec fn char_literal(s: Seq<u8>, from: int) -> Reading<int> {
    if 0 <= from && from + 2 <= s.len() && s[from] != BACKSLASH && s[from] != LINE_FEED
        && s[from] != APOSTROPHE && s[from + 1] == APOSTROPHE {
        Reading { value: Ok(s[from] as int), next: from + 2 }
    } else if 0 <= from && from + 3 <= s.len() && s[from] == BACKSLASH && s[from + 2]
        == APOSTROPHE {
        match escape_value(s[from + 1]) {
            Some(code) => Reading { value: Ok(code), next: from + 3 },
            None => failed(LiteralError::UnknownEscape, from),
        }
    } else {
        failed(LiteralError::Malformed, from)
    }
}

/// The word that begins at `from`: the byte there and the run of word
/// bytes behind it, decoded as UTF-8.
pub open spec fn word(s: Seq<u8>, from: int) -> Reading<Seq<char>> {
    let end = run_end(s, from + 1, ByteClass::Word);
    let text = s.subrange(from, end);
    if !valid_utf8(text) {
        failed(LiteralError::InvalidUtf8, from)
    } else {
        Reading { value: Ok(decode_utf8(text)), next: end }
    }
}

/// The number that begins at `from`: the byte there and the run of digit
/// bytes behind it, taken as text, however long the run.
pub open spec fn number(s: Seq<u8>, from: int) -> Reading<Seq<char>> {
    let end = run_end(s, from + 1, ByteClass::Digit);
    let text = s.subrange(from, end);
    if !valid_utf8(text) {
        failed(LiteralError::InvalidUtf8, from)
    } else {
        Reading { value: Ok(decode_utf8(text)), next: end }
    }
}

/// The operator made of the two bytes at `pos`, if there is one.
pub open spec fn two_byte_operator(s: Seq<u8>, pos: int) -> Option<TokenKind> {
    if pair_at(s, pos, EQUALS, EQUALS) {
        Some(TokenKind::OpEqual)
    } else if pair_at(s, pos, BANG, EQUALS) {
        Some(TokenKind::OpNotEqual)
    } else if pair_at(s, pos, LESS, EQUALS) {
        Some(TokenKind::OpLessEqual)
    } else if pair_at(s, pos, GREATER, EQUALS) {
        Some(TokenKind::OpGreaterEqual)
    } else if pair_at(s, pos, AMPERSAND, AMPERSAND) {
        Some(TokenKind::OpAnd)
    } else if pair_at(s, pos, PIPE, PIPE) {
        Some(TokenKind::OpOr)
    } else {
        None
    }
}

/// The operator or punctuation mark that the single byte `b` writes.
pub open spec fn one_byte_token(b: u8) -> Option<TokenKind> {
    if b == COMMA {
        Some(TokenKind::Comma)
    } else if b == OPEN_PAREN {
        Some(TokenKind::OpenParen)
    } else if b == CLOSE_PAREN {
        Some(TokenKind::CloseParen)
    } else if b == SEMICOLON {
        Some(TokenKind::Semicolon)
    } else if b == EQUALS {
        Some(TokenKind::OpAssign)
    } else if b == MINUS {
        Some(TokenKind::OpSubtract)
    } else if b == PLUS {
        Some(TokenKind::OpAdd)
    } else if b == GREATER {
        Some(TokenKind::OpGreater)
    } else if b == LESS {
        Some(TokenKind::OpLess)
    } else if b == STAR {
        Some(TokenKind::OpMultiply)
    } else if b == SLASH {
        Some(TokenKind::OpDivide)
    } else if b == OPEN_BRACE {
        Some(TokenKind::OpenBrace)
    } else if b == CLOSE_BRACE {
        Some(TokenKind::CloseBrace)
    } else if b == BANG {
        Some(TokenKind::OpNot)
    } else if b == PERCENT {
        Some(TokenKind::OpMod)
    } else {
        None
    }
}

/// The mathematical value of a scanned token: its kind, and the text it
/// carries: the name of an identifier, the contents of a string, the digits
/// of an integer.
pub struct Scanned {
    pub kind: TokenKind,
    pub text: Seq<char>,
}

/// A scanned token without payload.
pub open spec fn plain(kind: TokenKind) -> Scanned {
    Scanned { kind, text: Seq::empty() }
}

/// What one scanning step yields: a token or the failure of the step, and
/// the position of the cursor after it.
pub struct Step {
    pub outcome: Result<Scanned, LexError>,
    pub next: int,
}

/// The step that reads a payload: a token made from the value read, or the
/// failure, reported at the start `at` of the token, where the cursor stays.
pub open spec fn payload_step<T>(
    reading: Reading<T>,
    at: int,
    make: spec_fn(T) -> Scanned,
) -> Step {
    match reading.value {
        Ok(value) => Step { outcome: Ok(make(value)), next: reading.next },
        Err(fault) => Step { outcome: Err(fault.located(offset(at))), next: at },
    }
}

/// The token that the word `text` is: the keyword it spells, or else an
/// identifier.
pub open spec fn word_token(text: Seq<char>) -> Scanned {
    match keyword_of(text) {
        Some(kind) => plain(kind),
        None => Scanned { kind: TokenKind::Identifier, text },
    }
}

/// The token that begins at `at`, given how the byte there was classified:
/// whether it may begin a word, and whether it is a digit. At the end of
/// the text the token is end-of-input. Before it the alternatives are tried
/// in this order: operators of two bytes, string literals, words, numbers,
/// character literals, operators and punctuation of one byte. What none of
/// them accepts is unrecognized. An integer token carries its digits as
/// they stand; the token of a character literal carries the code of the
/// character, written in decimal.
pub open spec fn classified_token(s: Seq<u8>, at: int, begins_word: bool, begins_number: bool)
    -> Step {
    if at < 0 || at >= s.len() {
        Step { outcome: Ok(plain(TokenKind::EndOfInput)), next: at }
    } else if two_byte_operator(s, at) is Some {
        Step { outcome: Ok(plain(two_byte_operator(s, at)->Some_0)), next: at + 2 }
    } else if s[at] == QUOTE {
        payload_step(
            string_literal(s, at + 1),
            at,
            |text: Seq<char>| Scanned { kind: TokenKind::String, text },
        )
    } else if begins_word {
        payload_step(word(s, at), at, |text: Seq<char>| word_token(text))
    } else if begins_number {
        payload_step(
            number(s, at),
            at,
            |text: Seq<char>| Scanned { kind: TokenKind::Integer, text },
        )
    } else if s[at] == APOSTROPHE {
        payload_step(
            char_literal(s, at + 1),
            at,
            |code: int| Scanned { kind: TokenKind::Integer, text: decimal_text(code as nat) },
        )
    } else {
        match one_byte_token(s[at]) {
            Some(kind) => Step { outcome: Ok(plain(kind)), next: at + 1 },
            None => Step {
                outcome: Err(LexError::UnrecognizedToken { position: offset(at) }),
                next: at,
            },
        }
    }
}

/// The token that begins at `at`, a position where no trivia stands.
pub open spec fn token_at(s: Seq<u8>, at: int) -> Step {
    classified_token(
        s,
        at,
        0 <= at < s.len() && in_class(ByteClass::WordStart, s[at]),
        0 <= at < s.len() && in_class(ByteClass::Digit, s[at]),
    )
}

/// One scanning step from `pos`: the trivia there is passed, then the token
/// that begins behind it is read.
pub open spec fn scan(s: Seq<u8>, pos: int) -> Step {
    token_at(s, trivia_end(s, pos))
}

} // verus!
