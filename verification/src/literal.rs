//! Decoding of the text that a literal or word rule has matched: character
//! literals with their escapes, string literals, reserved words and the
//! decimal rendering of a character code.
use vstd::prelude::*;
use vstd::string::StrSliceExecFns;
use vstd::string::StringExecFns;
use crate::error::LiteralError;
use crate::token::TokenKind;

verus! {

/// A character that may stand for itself between single quotes.
pub open spec fn is_ordinary(c: char) -> bool {
    c != '\n' && c != '\'' && c != '\\'
}

/// The code that the escape letter `c` stands for after a backslash.
pub open spec fn escape_code(c: char) -> Option<u32> {
    if c == 'n' {
        Some(10u32)
    } else if c == 't' {
        Some(9u32)
    } else if c == 'r' {
        Some(13u32)
    } else if c == '\\' {
        Some(92u32)
    } else if c == '\'' {
        Some(39u32)
    } else if c == '0' {
        Some(0u32)
    } else {
        None
    }
}

/// The numeric code denoted by a whole character literal, quotes included:
/// `'c'` for an ordinary `c`, or `'\e'` for an escape letter `e`.
pub open spec fn char_literal_code(text: Seq<char>) -> Result<u32, LiteralError> {
    if text.len() == 3 && text[0] == '\'' && is_ordinary(text[1]) && text[2] == '\'' {
        Ok(text[1] as u32)
    } else if text.len() == 4 && text[0] == '\'' && text[1] == '\\' && text[3] == '\'' {
        match escape_code(text[2]) {
            Some(code) => Ok(code),
            None => Err(LiteralError::UnknownEscape),
        }
    } else {
        Err(LiteralError::Malformed)
    }
}

/// Whether `text` opens and closes with a double quote.
pub open spec fn is_quoted(text: Seq<char>) -> bool {
    text.len() >= 2 && text[0] == '"' && text[text.len() - 1] == '"'
}

/// `text` without its first and last character.
pub open spec fn unquoted(text: Seq<char>) -> Seq<char> {
    text.subrange(1, text.len() - 1)
}

/// The reserved word that `text` spells, if it spells one.
pub open spec fn keyword_of(text: Seq<char>) -> Option<TokenKind> {
    if text == "print"@ {
        Some(TokenKind::KeywordPrint)
    } else if text == "putc"@ {
        Some(TokenKind::KeywordPutc)
    } else if text == "while"@ {
        Some(TokenKind::KeywordWhile)
    } else if text == "if"@ {
        Some(TokenKind::KeywordIf)
    } else if text == "else"@ {
        Some(TokenKind::KeywordElse)
    } else {
        None
    }
}

/// The character that writes the decimal digit `d`.
pub open spec fn digit_char(d: int) -> char {
    if d == 0 {
        '0'
    } else if d == 1 {
        '1'
    } else if d == 2 {
        '2'
    } else if d == 3 {
        '3'
    } else if d == 4 {
        '4'
    } else if d == 5 {
        '5'
    } else if d == 6 {
        '6'
    } else if d == 7 {
        '7'
    } else if d == 8 {
        '8'
    } else {
        '9'
    }
}

/// `n` written in decimal, most significant digit first, without leading
/// zeros.
pub open spec fn decimal_text(n: nat) -> Seq<char>
    decreases n,
{
    if n < 10 {
        seq![digit_char(n as int)]
    } else {
        decimal_text(n / 10).push(digit_char((n % 10) as int))
    }
}

/// Decodes the escape letter that follows a backslash.
pub fn escape_to_number(c: char) -> (code: Option<u32>)
    ensures
        code == escape_code(c),
{
    if c == 'n' {
        Some(10)
    } else if c == 't' {
        Some(9)
    } else if c == 'r' {
        Some(13)
    } else if c == '\\' {
        Some(92)
    } else if c == '\'' {
        Some(39)
    } else if c == '0' {
        Some(0)
    } else {
        None
    }
}

/// Decodes a whole character literal, quotes included, into its numeric
/// code. The text must be an opening quote, then one ordinary character or
/// a backslash and an escape letter, then a closing quote.
pub fn char_literal_to_number(s: &str) -> (code: Result<u32, LiteralError>)
    ensures
        code == char_literal_code(s@),
{
    let n: usize = s.unicode_len();
    if n == 3 {
        let open: char = s.get_char(0);
        let inner: char = s.get_char(1);
        let close: char = s.get_char(2);
        if open == '\'' && inner != '\n' && inner != '\'' && inner != '\\' && close == '\'' {
            Ok(inner as u32)
        } else {
            Err(LiteralError::Malformed)
        }
    } else if n == 4 {
        let open: char = s.get_char(0);
        let slash: char = s.get_char(1);
        let letter: char = s.get_char(2);
        let close: char = s.get_char(3);
        if open == '\'' && slash == '\\' && close == '\'' {
            match escape_to_number(letter) {
                Some(code) => Ok(code),
                None => Err(LiteralError::UnknownEscape),
            }
        } else {
            Err(LiteralError::Malformed)
        }
    } else {
        Err(LiteralError::Malformed)
    }
}

/// The contents of a string literal: the text between its two double
/// quotes, taken verbatim.
pub fn string_literal_contents(s: &str) -> (contents: Result<String, LiteralError>)
    ensures
        match contents {
            Ok(inner) => is_quoted(s@) && inner@ == unquoted(s@),
            Err(e) => !is_quoted(s@) && e == LiteralError::Malformed,
        },
{
    let n: usize = s.unicode_len();
    if n < 2 {
        return Err(LiteralError::Malformed);
    }
    let open: char = s.get_char(0);
    let close: char = s.get_char(n - 1);
    if open == '"' && close == '"' {
        Ok(s.substring_char(1, n - 1).to_owned())
    } else {
        Err(LiteralError::Malformed)
    }
}

/// Looks `text` up among the reserved words.
pub fn keyword_kind(text: &str) -> (kind: Option<TokenKind>)
    ensures
        kind == keyword_of(text@),
{
    let word: String = text.to_owned();
    if word == String::from_str("print") {
        Some(TokenKind::KeywordPrint)
    } else if word == String::from_str("putc") {
        Some(TokenKind::KeywordPutc)
    } else if word == String::from_str("while") {
        Some(TokenKind::KeywordWhile)
    } else if word == String::from_str("if") {
        Some(TokenKind::KeywordIf)
    } else if word == String::from_str("else") {
        Some(TokenKind::KeywordElse)
    } else {
        None
    }
}

/// The one-character text of the decimal digit `d`.
fn digit_text(d: u32) -> (text: &'static str)
    requires
        d < 10,
    ensures
        text@ == seq![digit_char(d as int)],
{
    proof {
        reveal_strlit("0");
        reveal_strlit("1");
        reveal_strlit("2");
        reveal_strlit("3");
        reveal_strlit("4");
        reveal_strlit("5");
        reveal_strlit("6");
        reveal_strlit("7");
        reveal_strlit("8");
        reveal_strlit("9");
    }
    let text: &'static str = if d == 0 {
        "0"
    } else if d == 1 {
        "1"
    } else if d == 2 {
        "2"
    } else if d == 3 {
        "3"
    } else if d == 4 {
        "4"
    } else if d == 5 {
        "5"
    } else if d == 6 {
        "6"
    } else if d == 7 {
        "7"
    } else if d == 8 {
        "8"
    } else {
        "9"
    };
    text
}

/// Writes `n` in decimal.
pub fn decimal_string(n: u32) -> (text: String)
    ensures
        text@ == decimal_text(n as nat),
    decreases n,
{
    if n < 10 {
        String::from_str(digit_text(n))
    } else {
        let mut text: String = decimal_string(n / 10);
        text.append(digit_text(n % 10));
        text
    }
}

} // verus!
