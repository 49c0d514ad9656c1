use vstd::prelude::*;
use vstd::string::StringExecFns;

verus! {

/// The closed set of lexical categories.
#[derive(Debug, Clone, Copy, PartialEq, Eq, Structural)]
pub enum TokenKind {
    EndOfInput,
    OpMultiply,
    OpDivide,
    OpMod,
    OpAdd,
    OpSubtract,
    OpNegate,
    OpNot,
    OpLess,
    OpLessEqual,
    OpGreater,
    OpGreaterEqual,
    OpEqual,
    OpNotEqual,
    OpAssign,
    OpAnd,
    OpOr,
    KeywordIf,
    KeywordElse,
    KeywordWhile,
    KeywordPrint,
    KeywordPutc,
    OpenParen,
    CloseParen,
    OpenBrace,
    CloseBrace,
    Semicolon,
    Comma,
    Identifier,
    Integer,
    String,
}

impl TokenKind {
    /// The name of this kind, as it is written in the source of the library.
    pub open spec fn name(self) -> Seq<char> {
        match self {
            TokenKind::EndOfInput => "EndOfInput"@,
            TokenKind::OpMultiply => "OpMultiply"@,
            TokenKind::OpDivide => "OpDivide"@,
            TokenKind::OpMod => "OpMod"@,
            TokenKind::OpAdd => "OpAdd"@,
            TokenKind::OpSubtract => "OpSubtract"@,
            TokenKind::OpNegate => "OpNegate"@,
            TokenKind::OpNot => "OpNot"@,
            TokenKind::OpLess => "OpLess"@,
            TokenKind::OpLessEqual => "OpLessEqual"@,
            TokenKind::OpGreater => "OpGreater"@,
            TokenKind::OpGreaterEqual => "OpGreaterEqual"@,
            TokenKind::OpEqual => "OpEqual"@,
            TokenKind::OpNotEqual => "OpNotEqual"@,
            TokenKind::OpAssign => "OpAssign"@,
            TokenKind::OpAnd => "OpAnd"@,
            TokenKind::OpOr => "OpOr"@,
            TokenKind::KeywordIf => "KeywordIf"@,
            TokenKind::KeywordElse => "KeywordElse"@,
            TokenKind::KeywordWhile => "KeywordWhile"@,
            TokenKind::KeywordPrint => "KeywordPrint"@,
            TokenKind::KeywordPutc => "KeywordPutc"@,
            TokenKind::OpenParen => "OpenParen"@,
            TokenKind::CloseParen => "CloseParen"@,
            TokenKind::OpenBrace => "OpenBrace"@,
            TokenKind::CloseBrace => "CloseBrace"@,
            TokenKind::Semicolon => "Semicolon"@,
            TokenKind::Comma => "Comma"@,
            TokenKind::Identifier => "Identifier"@,
            TokenKind::Integer => "Integer"@,
            TokenKind::String => "String"@,
        }
    }

    /// Whether tokens of this kind carry a payload.
    pub open spec fn bears_payload(self) -> bool {
        self == TokenKind::Identifier || self == TokenKind::Integer || self == TokenKind::String
    }

    /// The name of this kind.
    pub fn as_str(self) -> (name: &'static str)
        ensures
            name@ == self.name(),
    {
        match self {
            TokenKind::EndOfInput => "EndOfInput",
            TokenKind::OpMultiply => "OpMultiply",
            TokenKind::OpDivide => "OpDivide",
            TokenKind::OpMod => "OpMod",
            TokenKind::OpAdd => "OpAdd",
            TokenKind::OpSubtract => "OpSubtract",
            TokenKind::OpNegate => "OpNegate",
            TokenKind::OpNot => "OpNot",
            TokenKind::OpLess => "OpLess",
            TokenKind::OpLessEqual => "OpLessEqual",
            TokenKind::OpGreater => "OpGreater",
            TokenKind::OpGreaterEqual => "OpGreaterEqual",
            TokenKind::OpEqual => "OpEqual",
            TokenKind::OpNotEqual => "OpNotEqual",
            TokenKind::OpAssign => "OpAssign",
            TokenKind::OpAnd => "OpAnd",
            TokenKind::OpOr => "OpOr",
            TokenKind::KeywordIf => "KeywordIf",
            TokenKind::KeywordElse => "KeywordElse",
            TokenKind::KeywordWhile => "KeywordWhile",
            TokenKind::KeywordPrint => "KeywordPrint",
            TokenKind::KeywordPutc => "KeywordPutc",
            TokenKind::OpenParen => "OpenParen",
            TokenKind::CloseParen => "CloseParen",
            TokenKind::OpenBrace => "OpenBrace",
            TokenKind::CloseBrace => "CloseBrace",
            TokenKind::Semicolon => "Semicolon",
            TokenKind::Comma => "Comma",
            TokenKind::Identifier => "Identifier",
            TokenKind::Integer => "Integer",
            TokenKind::String => "String",
        }
    }
}

/// A classified lexical unit: a kind, and the text it carries when the kind
/// bears a payload (empty otherwise).
#[derive(Debug, Clone, PartialEq, Eq)]
pub struct Token {
    pub kind: TokenKind,
    pub value: String,
}

/// The mathematical value of a [`Token`].
pub struct TokenModel {
    pub kind: TokenKind,
    pub value: Seq<char>,
}

impl View for Token {
    type V = TokenModel;

    open spec fn view(&self) -> TokenModel {
        TokenModel { kind: self.kind, value: self.value@ }
    }
}

/// The line that shows a token for inspection: the name of its kind, then
/// its payload in round brackets; the brackets are empty for a kind that
/// bears none.
pub open spec fn debug_line(token: TokenModel) -> Seq<char> {
    if token.kind.bears_payload() {
        token.kind.name() + " ("@ + token.value + ")"@
    } else {
        token.kind.name() + " ()"@
    }
}

impl Token {
    /// A token of the given kind that owns a copy of `value`.
    pub fn new(kind: TokenKind, value: &str) -> (token: Token)
        ensures
            token@ == (TokenModel { kind, value: value@ }),
    {
        Token { kind, value: value.to_owned() }
    }

    /// Whether this token's kind is one of `expected_tokens`.
    pub fn is_one_of_many(&self, expected_tokens: &[TokenKind]) -> (found: bool)
        ensures
            found == expected_tokens@.contains(self.kind),
    {
        let mut i: usize = 0;
        while i < expected_tokens.len()
            invariant
                i <= expected_tokens@.len(),
                forall|j: int| 0 <= j < i ==> expected_tokens@[j] != self.kind,
            decreases expected_tokens@.len() - i,
        {
            if expected_tokens[i] == self.kind {
                return true;
            }
            i += 1;
        }
        false
    }

    /// The line that shows this token for inspection.
    pub fn debug(&self) -> (line: String)
        ensures
            line@ == debug_line(self@),
    {
        let payload_kinds = [TokenKind::Identifier, TokenKind::Integer, TokenKind::String];
        let mut line: String = String::from_str(self.kind.as_str());
        if self.is_one_of_many(payload_kinds.as_slice()) {
            line.append(" (");
            line.append(self.value.as_str());
            line.append(")");
        } else {
            line.append(" ()");
        }
        line
    }
}

} // verus!
