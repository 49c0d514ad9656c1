use vstd::prelude::*;

verus! {

/// Why a tokenization stopped. Every failure is fatal for the call that
/// reports it; positions are byte offsets into the source.
#[derive(Debug, Clone, Copy, PartialEq, Eq, Structural)]
pub enum LexError {
    /// The regex compiler rejected the pattern of the rule with this index.
    InvalidPattern { rule: usize },
    /// No rule recognises the input at this position. Unterminated and
    /// otherwise malformed literals are reported this way too.
    UnrecognizedToken { position: usize },
    /// The character literal at this position uses an escape letter outside
    /// `n t r \ ' 0`.
    UnknownEscape { position: usize },
    /// The literal at this position does not hold valid UTF-8.
    InvalidUtf8 { position: usize },
}

/// The position `pos` as a failure reports it.
pub open spec fn offset(pos: int) -> usize {
    #[verifier::truncate]
    (pos as usize)
}

/// Why the text of a literal, taken by itself, cannot be decoded.
#[derive(Debug, Clone, Copy, PartialEq, Eq, Structural)]
pub enum LiteralError {
    /// The text does not have the shape of the literal.
    Malformed,
    /// The text has the shape of an escaped character literal, but its
    /// escape letter is not a known one.
    UnknownEscape,
    /// The bytes are not valid UTF-8.
    InvalidUtf8,
}

impl LiteralError {
    /// The tokenization error that this fault amounts to at `position`.
    pub open spec fn located(self, position: usize) -> LexError {
        match self {
            LiteralError::Malformed => LexError::UnrecognizedToken { position },
            LiteralError::UnknownEscape => LexError::UnknownEscape { position },
            LiteralError::InvalidUtf8 => LexError::InvalidUtf8 { position },
        }
    }

    /// Attaches the position of the literal to this fault.
    pub fn at(self, position: usize) -> (e: LexError)
        ensures
            e == self.located(position),
    {
        match self {
            LiteralError::Malformed => LexError::UnrecognizedToken { position },
            LiteralError::UnknownEscape => LexError::UnknownEscape { position },
            LiteralError::InvalidUtf8 => LexError::InvalidUtf8 { position },
        }
    }
}

} // verus!
