//! The boundary to code that is not verified: the `regex` crate (its
//! compiled-pattern types, names for what a search returns, and one wrapper
//! for each function that is called) and the UTF-8 check of the standard
//! library. Nothing in this file is proved; the rest of the library is
//! proved from what is stated here.
//!
//! Every compiled pattern in this library comes from [`compile`] or
//! [`compile_bytes`], that is from `Regex::new` with its default
//! configuration. The names below speak of such patterns only: they take
//! the outcome of a search to be determined by the pattern text and the
//! haystack.
use vstd::prelude::*;
use vstd::string::StringSliceAdditionalSpecFns;
use vstd::utf8::*;

verus! {

/// `regex::Regex`, a compiled pattern that searches `&str` haystacks.
#[verifier::external_type_specification]
#[verifier::external_body]
pub struct ExRegex(regex::Regex);

/// `regex::bytes::Regex`, a compiled pattern that searches `&[u8]` haystacks.
#[verifier::external_type_specification]
#[verifier::external_body]
pub struct ExBytesRegex(regex::bytes::Regex);

/// `regex::Error`, the reason a pattern was not compiled.
#[verifier::external_type_specification]
#[verifier::external_body]
pub struct ExRegexError(regex::Error);

/// `std::string::FromUtf8Error`, the reason bytes were not taken as text.
#[verifier::external_type_specification]
#[verifier::external_body]
pub struct ExFromUtf8Error(std::string::FromUtf8Error);

/// The pattern text that `re` holds: the text it was compiled from, which
/// `regex::Regex::as_str` returns.
pub uninterp spec fn pattern_of(re: regex::Regex) -> Seq<char>;

/// The pattern text that `re` holds: the text it was compiled from, which
/// `regex::bytes::Regex::as_str` returns.
pub uninterp spec fn byte_pattern_of(re: regex::bytes::Regex) -> Seq<char>;

/// Whether `regex::Regex::new` accepts `pattern`, that is returns a compiled
/// regex for it rather than an error. The compiler reads nothing but the
/// pattern text: its limits are the fixed defaults.
pub uninterp spec fn pattern_compiles(pattern: Seq<char>) -> bool;

/// Whether `regex::bytes::Regex::new` accepts `pattern`.
pub uninterp spec fn byte_pattern_compiles(pattern: Seq<char>) -> bool;

/// The byte offsets `(start, end)` of the match that `regex::Regex::find`
/// reports for `pattern` in `haystack`, that is of the leftmost match, or
/// `None` where it reports no match.
pub uninterp spec fn leftmost_match(pattern: Seq<char>, haystack: Seq<char>) -> Option<(int, int)>;

/// Whether `regex::bytes::Regex::is_match` reports a match of `pattern`
/// anywhere in `haystack`.
pub uninterp spec fn byte_match(pattern: Seq<char>, haystack: Seq<u8>) -> bool;

/// Calls `regex::Regex::new`. Claimed: whether a regex comes back depends
/// on the pattern text alone, as [`pattern_compiles`] names it; and a regex
/// that comes back holds the pattern text it was given. Nothing is claimed
/// about which patterns compile.
#[verifier::external_body]
pub(crate) fn compile(pattern: &str) -> (r: Result<regex::Regex, regex::Error>)
    ensures
        r is Ok <==> pattern_compiles(pattern@),
        r matches Ok(re) ==> pattern_of(re) == pattern@,
{
    regex::Regex::new(pattern)
}

/// Calls `regex::bytes::Regex::new`. Claimed: whether a regex comes back
/// depends on the pattern text alone, as [`byte_pattern_compiles`] names it;
/// and a regex that comes back holds the pattern text it was given. Nothing
/// is claimed about which patterns compile.
#[verifier::external_body]
pub(crate) fn compile_bytes(pattern: &str) -> (r: Result<regex::bytes::Regex, regex::Error>)
    ensures
        r is Ok <==> byte_pattern_compiles(pattern@),
        r matches Ok(re) ==> byte_pattern_of(re) == pattern@,
{
    regex::bytes::Regex::new(pattern)
}

/// Calls `regex::Regex::find` and hands back the `start()` and `end()` of
/// the match. Claimed: the outcome is the one that [`leftmost_match`] names
/// for the pattern text and the haystack; and, as the crate documents for
/// every `Match`, `start <= end`, both offsets lie within the haystack, and
/// both fall on UTF-8 character boundaries of it.
#[verifier::external_body]
pub(crate) fn find(re: &regex::Regex, haystack: &str) -> (r: Option<(usize, usize)>)
    ensures
        match r {
            Some((start, end)) => {
                &&& leftmost_match(pattern_of(*re), haystack@) == Some((start as int, end as int))
                &&& start <= end <= haystack.spec_bytes().len()
                &&& is_char_boundary(haystack.spec_bytes(), start as int)
                &&& is_char_boundary(haystack.spec_bytes(), end as int)
            },
            None => leftmost_match(pattern_of(*re), haystack@) is None,
        },
{
    match re.find(haystack) {
        Some(m) => Some((m.start(), m.end())),
        None => None,
    }
}

/// Calls `regex::bytes::Regex::is_match`. Claimed: the outcome is the one
/// that [`byte_match`] names for the pattern text and the haystack.
#[verifier::external_body]
pub(crate) fn is_match(re: &regex::bytes::Regex, haystack: &[u8]) -> (r: bool)
    ensures
        r == byte_match(byte_pattern_of(*re), haystack@),
{
    re.is_match(haystack)
}

/// Calls `String::from_utf8`. Claimed, as std documents: the bytes become a
/// string exactly when they are valid UTF-8, and the string is then encoded
/// by the very bytes given.
#[verifier::external_body]
pub(crate) fn text_from_utf8(bytes: Vec<u8>) -> (text: Result<String, std::string::FromUtf8Error>)
    ensures
        match text {
            Ok(decoded) => valid_utf8(bytes@) && encode_utf8(decoded@) == bytes@,
            Err(_) => !valid_utf8(bytes@),
        },
{
    String::from_utf8(bytes)
}

} // verus!
