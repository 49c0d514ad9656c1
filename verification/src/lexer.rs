//! The tokenizer engine: a cursor over the source, the rule table, and the
//! loop that, at each position, applies the first rule that matches there.
use vstd::prelude::*;
use vstd::string::StringSliceAdditionalSpecFns;
use vstd::utf8::*;
use regex::Regex;
use crate::error::{offset, LexError};
use crate::laws::{lemma_failure_is_located, lemma_tokenize_ends_once};
use crate::trusted::{compile, find, leftmost_match, pattern_compiles, pattern_of};
use crate::rules::{
    all_compile, bare, default_rules, emit, first_rejected, Handler, RuleModel, CHARACTER_RULE,
    COMMENT_RULE, INTEGER_RULE, STRING_RULE, WHITESPACE_RULE, WORD_RULE,
};
use crate::token::{Token, TokenKind, TokenModel};

verus! {

/// The text that the bytes of `src` from `from` up to `to` encode.
pub open spec fn text_between(src: Seq<u8>, from: int, to: int) -> Seq<char> {
    decode_utf8(src.subrange(from, to))
}

/// The length of a match that counts at the cursor. The search looks at
/// the rest of the source, so a match counts only if it begins at offset 0;
/// an empty match would consume nothing and does not count either.
pub open spec fn anchored(found: Option<(int, int)>) -> Option<int> {
    match found {
        Some((start, end)) => if start == 0 && 0 < end {
            Some(end)
        } else {
            None
        },
        None => None,
    }
}

/// How far `rule` matches in `src` when anchored at `pos`: the length in
/// bytes of the match that its pattern finds in the rest of the source, if
/// that match begins exactly at `pos` and is not empty.
pub open spec fn match_len(rule: RuleModel, src: Seq<u8>, pos: int) -> Option<int> {
    match anchored(leftmost_match(rule.pattern, text_between(src, pos, src.len() as int))) {
        Some(len) => if len <= src.len() - pos {
            Some(len)
        } else {
            None
        },
        None => None,
    }
}

/// The offsets that a search handed back, as numbers.
pub open spec fn span(found: Option<(usize, usize)>) -> Option<(int, int)> {
    match found {
        Some((start, end)) => Some((start as int, end as int)),
        None => None,
    }
}

/// Decides whether a match that a search found counts at the cursor, and
/// hands back its length if it does.
pub fn anchored_length(found: Option<(usize, usize)>) -> (len: Option<usize>)
    ensures
        match len {
            Some(n) => anchored(span(found)) == Some(n as int),
            None => anchored(span(found)) is None,
        },
{
    match found {
        Some((start, end)) => {
            if start == 0 && end > 0 {
                Some(end)
            } else {
                None
            }
        },
        None => None,
    }
}

/// The first rule at or after index `from` that matches at `pos`, with the
/// length of its match.
pub open spec fn first_rule(rules: Seq<RuleModel>, src: Seq<u8>, pos: int, from: int) -> Option<
    (int, int),
>
    decreases rules.len() - from,
{
    if from < 0 || from >= rules.len() {
        None
    } else {
        match match_len(rules[from], src, pos) {
            Some(len) => Some((from, len)),
            None => first_rule(rules, src, pos, from + 1),
        }
    }
}

/// What [`first_rule`] finds is the earliest rule that matches: its index is
/// not below `from`, its match is not empty and ends within the source, and
/// no rule between `from` and it matches at `pos`.
pub proof fn lemma_first_rule_is_earliest(rules: Seq<RuleModel>, src: Seq<u8>, pos: int, from: int)
    requires
        0 <= from,
    ensures
        match first_rule(rules, src, pos, from) {
            Some((i, len)) => {
                &&& from <= i < rules.len()
                &&& match_len(rules[i], src, pos) == Some(len)
                &&& 0 < len <= src.len() - pos
                &&& forall|j: int|
                    from <= j < i ==> match_len(#[trigger] rules[j], src, pos) is None
            },
            None => forall|j: int|
                from <= j < rules.len() ==> match_len(#[trigger] rules[j], src, pos) is None,
        },
    decreases rules.len() - from,
{
    if from < rules.len() && match_len(rules[from], src, pos) is None {
        lemma_first_rule_is_earliest(rules, src, pos, from + 1);
    }
}

/// The tokens of `tokens`, then whatever `rest` holds.
pub open spec fn followed_by(tokens: Seq<TokenModel>, rest: Result<Seq<TokenModel>, LexError>)
    -> Result<Seq<TokenModel>, LexError> {
    match rest {
        Ok(more) => Ok(tokens + more),
        Err(e) => Err(e),
    }
}

/// The tokens that one handler application contributes.
pub open spec fn contribution(out: Option<TokenModel>) -> Seq<TokenModel> {
    match out {
        Some(token) => seq![token],
        None => Seq::empty(),
    }
}

/// The tokenization of `src` from byte `pos` on under `rules`: at the end
/// of the source, the end-of-input token; before it, whatever the first
/// matching rule emits, followed by the tokenization of what lies behind
/// its match. The run fails where no rule matches and where a handler
/// rejects its text.
pub open spec fn lex_from(rules: Seq<RuleModel>, src: Seq<u8>, pos: int) -> Result<
    Seq<TokenModel>,
    LexError,
>
    decreases src.len() - pos,
{
    if pos < 0 || pos >= src.len() {
        Ok(seq![bare(TokenKind::EndOfInput)])
    } else {
        match first_rule(rules, src, pos, 0) {
            None => Err(LexError::UnrecognizedToken { position: offset(pos) }),
            Some((i, len)) => match emit(
                rules[i].handler,
                text_between(src, pos, pos + len),
                offset(pos),
            ) {
                Err(e) => Err(e),
                Ok(out) => {
                    proof {
                        lemma_first_rule_is_earliest(rules, src, pos, 0);
                    }
                    followed_by(contribution(out), lex_from(rules, src, pos + len))
                },
            },
        }
    }
}

/// The mathematical values of a sequence of tokens.
pub open spec fn models(tokens: Seq<Token>) -> Seq<TokenModel> {
    tokens.map_values(|t: Token| t@)
}

/// A rule whose pattern has been compiled.
struct RegexPattern {
    regex: Regex,
    handler: Handler,
}

impl View for RegexPattern {
    type V = RuleModel;

    closed spec fn view(&self) -> RuleModel {
        RuleModel { pattern: pattern_of(self.regex), handler: self.handler }
    }
}

/// The rule table that a vector of compiled rules stands for.
spec fn table(patterns: Seq<RegexPattern>) -> Seq<RuleModel> {
    Seq::new(patterns.len(), |i: int| patterns[i]@)
}

/// A character boundary of the rest of a text is one of the whole text.
proof fn lemma_boundary_of_rest(src: Seq<u8>, pos: int, end: int)
    requires
        valid_utf8(src),
        0 <= pos <= src.len(),
        is_char_boundary(src, pos),
        0 <= end <= src.len() - pos,
        is_char_boundary(src.subrange(pos, src.len() as int), end),
    ensures
        is_char_boundary(src, pos + end),
{
    let rest = src.subrange(pos, src.len() as int);
    valid_utf8_split(src, pos);
    if pos + end == src.len() {
        is_char_boundary_start_end_of_seq(src);
    } else {
        is_char_boundary_iff_not_is_continuation_byte(rest, end);
        is_char_boundary_iff_not_is_continuation_byte(src, pos + end);
    }
}

/// The state of one tokenization run.
pub struct Lexer {
    patterns: Vec<RegexPattern>,
    /// The tokens emitted so far, in source order.
    pub tokens: Vec<Token>,
    source: String,
    end: usize,
    pos: usize,
}

impl Lexer {
    /// The rule table, as data.
    pub closed spec fn rules(&self) -> Seq<RuleModel> {
        table(self.patterns@)
    }

    /// The bytes of the source.
    pub closed spec fn bytes(&self) -> Seq<u8> {
        encode_utf8(self.source@)
    }

    /// The cursor: the byte offset of the first byte not yet consumed.
    pub closed spec fn cursor(&self) -> int {
        self.pos as int
    }

    /// The tokens emitted so far, in source order.
    pub closed spec fn emitted(&self) -> Seq<TokenModel> {
        models(self.tokens@)
    }

    /// The cursor lies within the source, between two characters.
    pub closed spec fn wf(&self) -> bool {
        &&& self.pos <= self.end == self.bytes().len()
        &&& valid_utf8(self.bytes())
        &&& is_char_boundary(self.bytes(), self.pos as int)
    }

    fn advance_n(&mut self, n: usize)
        requires
            old(self).wf(),
            old(self).cursor() + n <= old(self).bytes().len(),
            is_char_boundary(old(self).bytes(), old(self).cursor() + n),
        ensures
            final(self).wf(),
            final(self).cursor() == old(self).cursor() + n,
            final(self).bytes() == old(self).bytes(),
            final(self).rules() == old(self).rules(),
            final(self).tokens == old(self).tokens,
    {
        self.pos += n;
    }

    fn push(&mut self, token: Token)
        ensures
            final(self).tokens@ == old(self).tokens@.push(token),
            final(self).wf() == old(self).wf(),
            final(self).cursor() == old(self).cursor(),
            final(self).bytes() == old(self).bytes(),
            final(self).rules() == old(self).rules(),
    {
        self.tokens.push(token);
    }

    fn remainder(&self) -> (rest: &str)
        requires
            self.wf(),
        ensures
            rest.spec_bytes() == self.bytes().subrange(self.cursor(), self.bytes().len() as int),
            rest@ == text_between(self.bytes(), self.cursor(), self.bytes().len() as int),
    {
        broadcast use group_utf8_lib;

        let (_, rest) = self.source.as_str().split_at(self.pos);
        rest
    }

    fn at_eof(&self) -> (done: bool)
        requires
            self.wf(),
        ensures
            done == (self.cursor() >= self.bytes().len()),
    {
        self.pos >= self.end
    }

    /// Searches the table, in order, for the first rule whose pattern
    /// matches at the cursor; hands back its index and the length of the
    /// match.
    fn select_rule(&self) -> (found: Option<(usize, usize)>)
        requires
            self.wf(),
        ensures
            match found {
                Some((i, len)) => {
                    &&& first_rule(self.rules(), self.bytes(), self.cursor(), 0) == Some(
                        (i as int, len as int),
                    )
                    &&& i < self.rules().len()
                    &&& 0 < len <= self.bytes().len() - self.cursor()
                    &&& is_char_boundary(
                        self.bytes().subrange(self.cursor(), self.bytes().len() as int),
                        len as int,
                    )
                },
                None => first_rule(self.rules(), self.bytes(), self.cursor(), 0) is None,
            },
    {
        let rest = self.remainder();
        let mut i: usize = 0;
        while i < self.patterns.len()
            invariant
                self.wf(),
                i <= self.patterns@.len(),
                rest.spec_bytes() == self.bytes().subrange(
                    self.cursor(),
                    self.bytes().len() as int,
                ),
                rest@ == text_between(self.bytes(), self.cursor(), self.bytes().len() as int),
                first_rule(self.rules(), self.bytes(), self.cursor(), 0) == first_rule(
                    self.rules(),
                    self.bytes(),
                    self.cursor(),
                    i as int,
                ),
            decreases self.patterns@.len() - i,
        {
            match anchored_length(find(&self.patterns[i].regex, rest)) {
                Some(len) => {
                    return Some((i, len));
                },
                None => {},
            }
            i += 1;
        }
        None
    }

    /// Applies `handler` to the `len` bytes at the cursor: emits what the
    /// handler makes of them and moves the cursor behind them. Where the
    /// handler rejects the text, nothing changes.
    fn handle_pattern(&mut self, handler: Handler, len: usize) -> (done: Result<(), LexError>)
        requires
            old(self).wf(),
            0 < len <= old(self).bytes().len() - old(self).cursor(),
            is_char_boundary(
                old(self).bytes().subrange(old(self).cursor(), old(self).bytes().len() as int),
                len as int,
            ),
        ensures
            final(self).wf(),
            final(self).bytes() == old(self).bytes(),
            final(self).rules() == old(self).rules(),
            match emit(
                handler,
                text_between(old(self).bytes(), old(self).cursor(), old(self).cursor() + len),
                offset(old(self).cursor()),
            ) {
                Ok(out) => {
                    &&& done is Ok
                    &&& final(self).cursor() == old(self).cursor() + len
                    &&& models(final(self).tokens@) == models(old(self).tokens@) + contribution(out)
                },
                Err(e) => {
                    &&& done == Err::<(), LexError>(e)
                    &&& final(self).cursor() == old(self).cursor()
                    &&& final(self).tokens == old(self).tokens
                },
            },
    {
        broadcast use group_utf8_lib;

        let rest = self.remainder();
        let (text, _) = rest.split_at(len);
        assert(text.spec_bytes() =~= self.bytes().subrange(self.cursor(), self.cursor() + len));
        let outcome = handler.apply(text, self.pos);
        proof {
            lemma_boundary_of_rest(self.bytes(), self.cursor(), len as int);
        }
        match outcome {
            Ok(Some(token)) => {
                self.push(token);
                self.advance_n(len);
                Ok(())
            },
            Ok(None) => {
                self.advance_n(len);
                Ok(())
            },
            Err(e) => Err(e),
        }
    }

    /// Runs the lexer from its cursor to the end of its source: at each
    /// position the first rule of the table that matches there is applied,
    /// and at the end the end-of-input token is appended. Hands back the
    /// tokens emitted so far followed by those of the run, or the failure of
    /// the run.
    pub fn run(self) -> (outcome: Result<Vec<Token>, LexError>)
        requires
            self.wf(),
        ensures
            match lex_from(self.rules(), self.bytes(), self.cursor()) {
                Ok(rest) => outcome matches Ok(tokens) && models(tokens@) == self.emitted() + rest,
                Err(e) => outcome == Err::<Vec<Token>, LexError>(e),
            },
    {
        let mut lexer = self;
        let ghost rules = self.rules();
        let ghost src = self.bytes();
        let ghost start = self.cursor();
        let ghost given = self.emitted();
        let ghost mut emitted = Seq::<TokenModel>::empty();
        assert(given + emitted =~= given);
        assert(followed_by(emitted, lex_from(rules, src, start)) =~= lex_from(rules, src, start));
        while !lexer.at_eof()
            invariant
                lexer.wf(),
                lexer.rules() == rules,
                lexer.bytes() == src,
                rules == self.rules(),
                src == self.bytes(),
                start == self.cursor(),
                given == self.emitted(),
                models(lexer.tokens@) == given + emitted,
                lex_from(rules, src, start) == followed_by(
                    emitted,
                    lex_from(rules, src, lexer.cursor()),
                ),
            decreases src.len() - lexer.cursor(),
        {
            let ghost pos = lexer.cursor();
            match lexer.select_rule() {
                None => {
                    return Err(LexError::UnrecognizedToken { position: lexer.pos });
                },
                Some((i, len)) => {
                    let handler = lexer.patterns[i].handler;
                    match lexer.handle_pattern(handler, len) {
                        Err(e) => {
                            return Err(e);
                        },
                        Ok(_) => {
                            proof {
                                let out = emit(
                                    handler,
                                    text_between(src, pos, pos + len),
                                    offset(pos),
                                )->Ok_0;
                                let longer = emitted + contribution(out);
                                assert(models(lexer.tokens@) =~= given + longer);
                                match lex_from(rules, src, pos + len) {
                                    Ok(more) => {
                                        assert(emitted + (contribution(out) + more) =~= longer
                                            + more);
                                    },
                                    Err(_) => {},
                                }
                                emitted = longer;
                            }
                        },
                    }
                },
            }
        }
        let ghost before = models(lexer.tokens@);
        let last = Token { kind: TokenKind::EndOfInput, value: String::new() };
        assert(last@ == bare(TokenKind::EndOfInput));
        lexer.push(last);
        assert(models(lexer.tokens@) =~= before + seq![bare(TokenKind::EndOfInput)]);
        assert(before + seq![bare(TokenKind::EndOfInput)] =~= given + (emitted + seq![
            bare(TokenKind::EndOfInput),
        ]));
        Ok(lexer.tokens)
    }
}

/// Compiles `pattern` and adds the rule to the table under construction.
fn add_rule(patterns: &mut Vec<RegexPattern>, pattern: &str, handler: Handler) -> (done: Result<
    (),
    LexError,
>)
    ensures
        done is Ok <==> pattern_compiles(pattern@),
        match done {
            Ok(_) => final(patterns)@.len() == old(patterns)@.len() + 1 && table(final(patterns)@)
                == table(old(patterns)@).push(RuleModel { pattern: pattern@, handler }),
            Err(e) => e == (LexError::InvalidPattern { rule: old(patterns)@.len() as usize })
                && final(patterns)@ == old(patterns)@,
        },
{
    match compile(pattern) {
        Ok(regex) => {
            patterns.push(RegexPattern { regex, handler });
            Ok(())
        },
        Err(_) => Err(LexError::InvalidPattern { rule: patterns.len() }),
    }
}

/// Builds the lexer for `source`: the cursor at the start, no token yet,
/// and the rule table of the language, compiled. It succeeds exactly when
/// the regex compiler accepts every pattern of the table; otherwise it names
/// the first rule whose pattern was rejected.
pub fn create_lexer(source: &str) -> (made: Result<Lexer, LexError>)
    ensures
        made is Ok <==> all_compile(default_rules()),
        match made {
            Ok(lexer) => {
                &&& lexer.wf()
                &&& lexer.rules() == default_rules()
                &&& lexer.bytes() == source.spec_bytes()
                &&& lexer.cursor() == 0
                &&& lexer.emitted() == Seq::<TokenModel>::empty()
            },
            Err(e) => e matches LexError::InvalidPattern { rule } && first_rejected(
                default_rules(),
                rule as int,
            ),
        },
{
    broadcast use group_utf8_lib;

    let mut patterns: Vec<RegexPattern> = Vec::new();
    add_rule(&mut patterns, WORD_RULE, Handler::Identifier)?;
    add_rule(&mut patterns, INTEGER_RULE, Handler::Integer)?;
    add_rule(&mut patterns, STRING_RULE, Handler::String)?;
    add_rule(&mut patterns, CHARACTER_RULE, Handler::Character)?;
    add_rule(&mut patterns, COMMENT_RULE, Handler::Skip)?;
    add_rule(&mut patterns, WHITESPACE_RULE, Handler::Skip)?;
    add_rule(&mut patterns, r"\(", Handler::Default(TokenKind::OpenParen))?;
    add_rule(&mut patterns, r"\)", Handler::Default(TokenKind::CloseParen))?;
    add_rule(&mut patterns, r"\{", Handler::Default(TokenKind::OpenBrace))?;
    add_rule(&mut patterns, r"\}", Handler::Default(TokenKind::CloseBrace))?;
    add_rule(&mut patterns, r"==", Handler::Default(TokenKind::OpEqual))?;
    add_rule(&mut patterns, r"!=", Handler::Default(TokenKind::OpNotEqual))?;
    add_rule(&mut patterns, r"=", Handler::Default(TokenKind::OpAssign))?;
    add_rule(&mut patterns, r"!", Handler::Default(TokenKind::OpNot))?;
    add_rule(&mut patterns, r"<=", Handler::Default(TokenKind::OpLessEqual))?;
    add_rule(&mut patterns, r"<", Handler::Default(TokenKind::OpLess))?;
    add_rule(&mut patterns, r">=", Handler::Default(TokenKind::OpGreaterEqual))?;
    add_rule(&mut patterns, r">", Handler::Default(TokenKind::OpGreater))?;
    add_rule(&mut patterns, r"&&", Handler::Default(TokenKind::OpAnd))?;
    add_rule(&mut patterns, r"\|\|", Handler::Default(TokenKind::OpOr))?;
    add_rule(&mut patterns, r";", Handler::Default(TokenKind::Semicolon))?;
    add_rule(&mut patterns, r",", Handler::Default(TokenKind::Comma))?;
    add_rule(&mut patterns, r"\+", Handler::Default(TokenKind::OpAdd))?;
    add_rule(&mut patterns, r"-", Handler::Default(TokenKind::OpSubtract))?;
    add_rule(&mut patterns, r"/", Handler::Default(TokenKind::OpDivide))?;
    add_rule(&mut patterns, r"\*", Handler::Default(TokenKind::OpMultiply))?;
    add_rule(&mut patterns, r"%", Handler::Default(TokenKind::OpMod))?;
    let end: usize = source.as_bytes().len();
    Ok(Lexer { patterns, tokens: Vec::new(), source: source.to_owned(), end, pos: 0 })
}

/// The tokenization of a whole source under the rule table of the language.
pub open spec fn lex(src: Seq<u8>) -> Result<Seq<TokenModel>, LexError> {
    lex_from(default_rules(), src, 0)
}

/// Converts `source` into its tokens, in source order and closed by the
/// end-of-input token.
///
/// The run fails as a whole: with `UnrecognizedToken` at the first position
/// where no rule matches (an unterminated or malformed literal included),
/// with `UnknownEscape` at a character literal whose escape letter is not
/// known. `InvalidPattern` comes back exactly when the regex compiler
/// rejects a pattern of the table, and names the first such rule; the
/// source plays no part in it.
pub fn tokenize(source: &str) -> (outcome: Result<Vec<Token>, LexError>)
    ensures
        all_compile(default_rules()) ==> match lex(source.spec_bytes()) {
            Ok(all) => outcome matches Ok(tokens) && models(tokens@) == all,
            Err(e) => outcome == Err::<Vec<Token>, LexError>(e),
        },
        !all_compile(default_rules()) ==> outcome is Err && outcome->Err_0 is InvalidPattern,
        outcome matches Err(LexError::InvalidPattern { rule }) ==> first_rejected(
            default_rules(),
            rule as int,
        ),
        outcome matches Ok(tokens) ==> {
            &&& tokens@.len() >= 1
            &&& tokens@.last().kind == TokenKind::EndOfInput
            &&& forall|k: int|
                0 <= k < tokens@.len() - 1 ==> (#[trigger] tokens@[k]).kind != TokenKind::EndOfInput
        },
{
    match create_lexer(source) {
        Ok(lexer) => {
            let outcome = lexer.run();
            proof {
                lemma_failure_is_located(default_rules(), source.spec_bytes(), 0);
                if outcome is Ok {
                    let tokens = outcome->Ok_0;
                    lemma_tokenize_ends_once(source.spec_bytes());
                    assert(models(tokens@) =~= lex(source.spec_bytes())->Ok_0);
                    assert forall|k: int| 0 <= k < tokens@.len() - 1 implies (#[trigger] tokens@[
                        k
                    ]).kind != TokenKind::EndOfInput by {
                        assert(models(tokens@)[k].kind == tokens@[k].kind);
                    }
                    assert(models(tokens@).last().kind == tokens@.last().kind);
                }
            }
            outcome
        },
        Err(e) => Err(e),
    }
}

} // verus!
