//! The rule table as data: what a rule is, the fixed table of the language,
//! and what each kind of handler makes of the text that its pattern matched.
use vstd::prelude::*;
use crate::error::{LexError, LiteralError};
use crate::literal::{
    char_literal_code, char_literal_to_number, decimal_string, decimal_text, is_quoted,
    keyword_kind, keyword_of, string_literal_contents, unquoted,
};
use crate::token::{Token, TokenKind, TokenModel};
use crate::trusted::pattern_compiles;

verus! {

/// What a rule does with the text that its pattern matched.
#[derive(Debug, Clone, Copy, PartialEq, Eq, Structural)]
pub enum Handler {
    /// Emit a token of a fixed kind, without payload.
    Default(TokenKind),
    /// Consume the match and emit nothing.
    Skip,
    /// Emit a string token that carries the text between the quotes.
    String,
    /// Emit an integer token that carries the code of a character literal,
    /// written in decimal.
    Character,
    /// Emit the keyword that the text spells, or else an identifier token
    /// that carries the text.
    Identifier,
    /// Emit an integer token that carries the matched digits.
    Integer,
}

/// A rule of the table: the text of its pattern, and its handler.
pub struct RuleModel {
    pub pattern: Seq<char>,
    pub handler: Handler,
}

/// The pattern of words: identifiers and reserved words.
pub const WORD_RULE: &'static str = r"[_a-zA-Z][_a-zA-Z0-9]*";

/// The pattern of integer literals.
pub const INTEGER_RULE: &'static str = r"[0-9]+";

/// The pattern of string literals: no double quote stands between the two
/// that delimit the literal, and nothing is escaped.
pub const STRING_RULE: &'static str = r#""[^"]*""#;

/// The pattern of character literals: between the quotes, one character
/// that is no quote, line feed or backslash, or a backslash and one more
/// character.
pub const CHARACTER_RULE: &'static str = r"(?s)'([^'\n\\]|\\.)'";

/// The pattern of comments: from `/*` to the first `*/` behind it.
pub const COMMENT_RULE: &'static str = r"(?s)/\*.*?\*/";

/// The pattern of whitespace.
pub const WHITESPACE_RULE: &'static str = r"\s+";

/// The rule table of the language. Order is priority: at each position the
/// earliest rule that matches there wins, whatever the lengths. So each
/// two-character operator stands before the one-character operator that
/// begins it, and the comment rule before the division operator. Reserved
/// words have no rules of their own: the identifier handler tells them apart.
pub open spec fn default_rules() -> Seq<RuleModel> {
    seq![
        RuleModel { pattern: WORD_RULE@, handler: Handler::Identifier },
        RuleModel { pattern: INTEGER_RULE@, handler: Handler::Integer },
        RuleModel { pattern: STRING_RULE@, handler: Handler::String },
        RuleModel { pattern: CHARACTER_RULE@, handler: Handler::Character },
        RuleModel { pattern: COMMENT_RULE@, handler: Handler::Skip },
        RuleModel { pattern: WHITESPACE_RULE@, handler: Handler::Skip },
        RuleModel { pattern: r"\("@, handler: Handler::Default(TokenKind::OpenParen) },
        RuleModel { pattern: r"\)"@, handler: Handler::Default(TokenKind::CloseParen) },
        RuleModel { pattern: r"\{"@, handler: Handler::Default(TokenKind::OpenBrace) },
        RuleModel { pattern: r"\}"@, handler: Handler::Default(TokenKind::CloseBrace) },
        RuleModel { pattern: r"=="@, handler: Handler::Default(TokenKind::OpEqual) },
        RuleModel { pattern: r"!="@, handler: Handler::Default(TokenKind::OpNotEqual) },
        RuleModel { pattern: r"="@, handler: Handler::Default(TokenKind::OpAssign) },
        RuleModel { pattern: r"!"@, handler: Handler::Default(TokenKind::OpNot) },
        RuleModel { pattern: r"<="@, handler: Handler::Default(TokenKind::OpLessEqual) },
        RuleModel { pattern: r"<"@, handler: Handler::Default(TokenKind::OpLess) },
        RuleModel { pattern: r">="@, handler: Handler::Default(TokenKind::OpGreaterEqual) },
        RuleModel { pattern: r">"@, handler: Handler::Default(TokenKind::OpGreater) },
        RuleModel { pattern: r"&&"@, handler: Handler::Default(TokenKind::OpAnd) },
        RuleModel { pattern: r"\|\|"@, handler: Handler::Default(TokenKind::OpOr) },
        RuleModel { pattern: r";"@, handler: Handler::Default(TokenKind::Semicolon) },
        RuleModel { pattern: r","@, handler: Handler::Default(TokenKind::Comma) },
        RuleModel { pattern: r"\+"@, handler: Handler::Default(TokenKind::OpAdd) },
        RuleModel { pattern: r"-"@, handler: Handler::Default(TokenKind::OpSubtract) },
        RuleModel { pattern: r"/"@, handler: Handler::Default(TokenKind::OpDivide) },
        RuleModel { pattern: r"\*"@, handler: Handler::Default(TokenKind::OpMultiply) },
        RuleModel { pattern: r"%"@, handler: Handler::Default(TokenKind::OpMod) },
    ]
}

/// Whether the regex compiler accepts the pattern of every rule of `rules`.
pub open spec fn all_compile(rules: Seq<RuleModel>) -> bool {
    forall|i: int| 0 <= i < rules.len() ==> pattern_compiles((#[trigger] rules[i]).pattern)
}

/// Whether `rule` is the index of the first rule of `rules` whose pattern
/// the regex compiler rejects.
pub open spec fn first_rejected(rules: Seq<RuleModel>, rule: int) -> bool {
    &&& 0 <= rule < rules.len()
    &&& !pattern_compiles(rules[rule].pattern)
    &&& forall|i: int| 0 <= i < rule ==> pattern_compiles((#[trigger] rules[i]).pattern)
}

/// A token without payload.
pub open spec fn bare(kind: TokenKind) -> TokenModel {
    TokenModel { kind, value: Seq::empty() }
}

/// What `handler` makes of the matched `text`, found at `position`: a
/// token, nothing (the text is skipped), or the failure of the whole run.
pub open spec fn emit(handler: Handler, text: Seq<char>, position: usize) -> Result<
    Option<TokenModel>,
    LexError,
> {
    match handler {
        Handler::Default(kind) => Ok(Some(bare(kind))),
        Handler::Skip => Ok(None),
        Handler::String => if is_quoted(text) {
            Ok(Some(TokenModel { kind: TokenKind::String, value: unquoted(text) }))
        } else {
            Err(LiteralError::Malformed.located(position))
        },
        Handler::Character => match char_literal_code(text) {
            Ok(code) => Ok(
                Some(TokenModel { kind: TokenKind::Integer, value: decimal_text(code as nat) }),
            ),
            Err(fault) => Err(fault.located(position)),
        },
        Handler::Identifier => match keyword_of(text) {
            Some(kind) => Ok(Some(bare(kind))),
            None => Ok(Some(TokenModel { kind: TokenKind::Identifier, value: text })),
        },
        Handler::Integer => Ok(Some(TokenModel { kind: TokenKind::Integer, value: text })),
    }
}

/// The mathematical value of what a handler hands back.
pub open spec fn emitted(outcome: Result<Option<Token>, LexError>) -> Result<
    Option<TokenModel>,
    LexError,
> {
    match outcome {
        Ok(Some(token)) => Ok(Some(token@)),
        Ok(None) => Ok(None),
        Err(e) => Err(e),
    }
}

impl Handler {
    /// Applies this handler to the text that its rule matched at `position`.
    pub fn apply(self, text: &str, position: usize) -> (outcome: Result<Option<Token>, LexError>)
        ensures
            emitted(outcome) == emit(self, text@, position),
    {
        match self {
            Handler::Default(kind) => Ok(Some(Token { kind, value: String::new() })),
            Handler::Skip => Ok(None),
            Handler::String => match string_literal_contents(text) {
                Ok(inner) => Ok(Some(Token { kind: TokenKind::String, value: inner })),
                Err(fault) => Err(fault.at(position)),
            },
            Handler::Character => match char_literal_to_number(text) {
                Ok(code) => Ok(
                    Some(Token { kind: TokenKind::Integer, value: decimal_string(code) }),
                ),
                Err(fault) => Err(fault.at(position)),
            },
            Handler::Identifier => match keyword_kind(text) {
                Some(kind) => Ok(Some(Token { kind, value: String::new() })),
                None => Ok(Some(Token { kind: TokenKind::Identifier, value: text.to_owned() })),
            },
            Handler::Integer => Ok(
                Some(Token { kind: TokenKind::Integer, value: text.to_owned() }),
            ),
        }
    }
}

} // verus!
