//! What holds of every tokenization, proved from the definitions that the
//! contracts of the two engines are stated over: first the laws of the
//! rule-table engine, then those of the byte scanner.
use vstd::prelude::*;
use vstd::utf8::*;
use crate::error::{offset, LexError, LiteralError};
use crate::grammar::{
    comment_close, comment_opens, in_class, lemma_comment_close_bounds, lemma_run_end_bounds,
    lemma_trivia_end_bounds, number, plain, run_end, scan, string_literal, token_at, trivia_end,
    two_byte_operator, word_token, ByteClass, Reading, Scanned, Step, QUOTE,
};
use crate::lexer::{
    first_rule, lemma_first_rule_is_earliest, lex, lex_from, match_len, text_between,
};
use crate::literal::{char_literal_code, escape_code, is_ordinary, is_quoted, keyword_of, unquoted};
use crate::rules::{bare, default_rules, emit, Handler, RuleModel, COMMENT_RULE};
use crate::token::{TokenKind, TokenModel};

verus! {

/// No rule of the table emits the end-of-input token by itself.
pub open spec fn keeps_end_for_the_end(rules: Seq<RuleModel>) -> bool {
    forall|i: int|
        0 <= i < rules.len() ==> (#[trigger] rules[i]).handler != Handler::Default(
            TokenKind::EndOfInput,
        )
}

/// The lengths of the successive matches of a run over `src` from `pos` on.
pub open spec fn match_lengths(rules: Seq<RuleModel>, src: Seq<u8>, pos: int) -> Seq<int>
    decreases src.len() - pos,
{
    if pos < 0 || pos >= src.len() {
        Seq::empty()
    } else {
        match first_rule(rules, src, pos, 0) {
            None => Seq::empty(),
            Some((_, len)) => {
                proof {
                    lemma_first_rule_is_earliest(rules, src, pos, 0);
                }
                seq![len] + match_lengths(rules, src, pos + len)
            },
        }
    }
}

/// The sum of `lengths`.
pub open spec fn total(lengths: Seq<int>) -> int
    decreases lengths.len(),
{
    if lengths.len() == 0 {
        0
    } else {
        lengths[0] + total(lengths.drop_first())
    }
}

/// Determinism: the tokens of a source are a function of its bytes, so two
/// successful runs over the same source yield the same sequence.
pub proof fn lemma_tokenize_deterministic(
    src: Seq<u8>,
    first: Seq<TokenModel>,
    second: Seq<TokenModel>,
)
    requires
        lex(src) == Ok::<Seq<TokenModel>, LexError>(first),
        lex(src) == Ok::<Seq<TokenModel>, LexError>(second),
    ensures
        first == second,
{
}

/// Coverage: in a run that succeeds, every match is at least one byte long
/// and the lengths of the matches add up to the length of what was left of
/// the source; no byte is passed over and none is matched twice.
pub proof fn lemma_matches_cover_source(rules: Seq<RuleModel>, src: Seq<u8>, pos: int)
    requires
        0 <= pos <= src.len(),
        lex_from(rules, src, pos) is Ok,
    ensures
        total(match_lengths(rules, src, pos)) == src.len() - pos,
        forall|k: int|
            0 <= k < match_lengths(rules, src, pos).len() ==> 0 < #[trigger] match_lengths(
                rules,
                src,
                pos,
            )[k],
    decreases src.len() - pos,
{
    if pos < src.len() {
        lemma_first_rule_is_earliest(rules, src, pos, 0);
        let (_, len) = first_rule(rules, src, pos, 0)->Some_0;
        lemma_matches_cover_source(rules, src, pos + len);
        let rest = match_lengths(rules, src, pos + len);
        let all = match_lengths(rules, src, pos);
        assert(all.drop_first() =~= rest);
        assert forall|k: int| 0 <= k < all.len() implies 0 < #[trigger] all[k] by {
            if k > 0 {
                assert(all[k] == rest[k - 1]);
            }
        }
    }
}

/// The whole source is covered by the matches of a run that succeeds.
pub proof fn lemma_tokenize_covers_source(src: Seq<u8>)
    requires
        lex(src) is Ok,
    ensures
        total(match_lengths(default_rules(), src, 0)) == src.len(),
{
    lemma_matches_cover_source(default_rules(), src, 0);
}

/// A handler other than `Default(EndOfInput)` never emits the end-of-input
/// token.
pub proof fn lemma_handlers_keep_end(handler: Handler, text: Seq<char>, position: usize)
    requires
        handler != Handler::Default(TokenKind::EndOfInput),
    ensures
        emit(handler, text, position) matches Ok(Some(token)) ==> token.kind
            != TokenKind::EndOfInput,
{
}

/// A run that succeeds ends with the end-of-input token and holds no other,
/// as long as no rule emits that token by itself.
pub proof fn lemma_end_of_input_once_and_last(rules: Seq<RuleModel>, src: Seq<u8>, pos: int)
    requires
        keeps_end_for_the_end(rules),
        lex_from(rules, src, pos) is Ok,
    ensures
        ({
            let tokens = lex_from(rules, src, pos)->Ok_0;
            &&& tokens.len() >= 1
            &&& tokens.last() == bare(TokenKind::EndOfInput)
            &&& forall|k: int|
                0 <= k < tokens.len() - 1 ==> (#[trigger] tokens[k]).kind != TokenKind::EndOfInput
        }),
    decreases src.len() - pos,
{
    if 0 <= pos < src.len() {
        lemma_first_rule_is_earliest(rules, src, pos, 0);
        let (i, len) = first_rule(rules, src, pos, 0)->Some_0;
        let handler = rules[i].handler;
        let text = text_between(src, pos, pos + len);
        lemma_handlers_keep_end(handler, text, offset(pos));
        lemma_end_of_input_once_and_last(rules, src, pos + len);
    }
}

/// The table of the language emits the end-of-input token only at the end.
pub proof fn lemma_default_rules_keep_end()
    ensures
        keeps_end_for_the_end(default_rules()),
{
}

/// Exactly one end-of-input token comes out of a successful tokenization,
/// and it is the last token.
pub proof fn lemma_tokenize_ends_once(src: Seq<u8>)
    requires
        lex(src) is Ok,
    ensures
        ({
            let tokens = lex(src)->Ok_0;
            &&& tokens.len() >= 1
            &&& tokens.last().kind == TokenKind::EndOfInput
            &&& forall|k: int|
                0 <= k < tokens.len() - 1 ==> (#[trigger] tokens[k]).kind != TokenKind::EndOfInput
        }),
{
    lemma_default_rules_keep_end();
    lemma_end_of_input_once_and_last(default_rules(), src, 0);
}

/// A run fails only with `UnrecognizedToken` or `UnknownEscape`, and the
/// position it reports lies within the source.
pub proof fn lemma_failure_is_located(rules: Seq<RuleModel>, src: Seq<u8>, pos: int)
    requires
        0 <= pos,
        src.len() <= usize::MAX,
    ensures
        match lex_from(rules, src, pos) {
            Ok(_) => true,
            Err(LexError::UnrecognizedToken { position }) => pos <= position < src.len(),
            Err(LexError::UnknownEscape { position }) => pos <= position < src.len(),
            Err(_) => false,
        },
    decreases src.len() - pos,
{
    if pos < src.len() {
        lemma_first_rule_is_earliest(rules, src, pos, 0);
        match first_rule(rules, src, pos, 0) {
            Some((_, len)) => {
                lemma_failure_is_located(rules, src, pos + len);
            },
            None => {},
        }
    }
}

/// Priority: the rule that a run applies at a position is the earliest rule
/// of the table that matches there; no earlier rule matches at that position,
/// whatever the lengths of later matches.
pub proof fn lemma_first_match_wins(rules: Seq<RuleModel>, src: Seq<u8>, pos: int, earlier: int)
    requires
        first_rule(rules, src, pos, 0) matches Some((i, _)) && 0 <= earlier < i,
    ensures
        match_len(rules[earlier], src, pos) is None,
{
    lemma_first_rule_is_earliest(rules, src, pos, 0);
}

/// Reserved words and identifiers never trade places: the identifier
/// handler emits an identifier token exactly for the texts that spell no
/// reserved word, and then the token carries the text; for a reserved word
/// it emits that word's keyword token, without payload.
pub proof fn lemma_keywords_are_never_identifiers(text: Seq<char>, position: usize)
    ensures
        match emit(Handler::Identifier, text, position) {
            Ok(Some(token)) => match keyword_of(text) {
                Some(kind) => token == bare(kind) && kind != TokenKind::Identifier,
                None => token.kind == TokenKind::Identifier && token.value == text,
            },
            _ => false,
        },
{
}

/// A string literal round-trips: the token that the string handler emits
/// carries the text between the quotes verbatim, so the quotes put back
/// around its payload give the matched text again.
pub proof fn lemma_string_round_trip(text: Seq<char>, position: usize)
    ensures
        match emit(Handler::String, text, position) {
            Ok(Some(token)) => token.kind == TokenKind::String && text == seq!['"'] + token.value
                + seq!['"'],
            Ok(None) => false,
            Err(e) => !is_quoted(text) && e == (LexError::UnrecognizedToken { position }),
        },
{
    if is_quoted(text) {
        assert(text =~= seq!['"'] + unquoted(text) + seq!['"']);
    }
}

/// An ordinary character between single quotes denotes its own code.
pub proof fn lemma_plain_character_is_its_code(c: char)
    requires
        is_ordinary(c),
    ensures
        char_literal_code(seq!['\'', c, '\'']) == Ok::<u32, LiteralError>(c as u32),
{
}

/// A backslash and a letter between single quotes denote what the escape
/// table gives for the letter; a letter that is not in the table is an
/// unknown escape.
pub proof fn lemma_escaped_character_goes_by_the_table(letter: char)
    ensures
        char_literal_code(seq!['\'', '\\', letter, '\'']) == match escape_code(letter) {
            Some(code) => Ok::<u32, LiteralError>(code),
            None => Err::<u32, LiteralError>(LiteralError::UnknownEscape),
        },
{
}

/// Failure is final: where no rule matches at a position within the source,
/// the run from there fails with `UnrecognizedToken` at that very position;
/// and a run fails as soon as the run behind its first match fails, with
/// the same failure. Nothing is skipped to get past a failure.
pub proof fn lemma_failure_is_final(rules: Seq<RuleModel>, src: Seq<u8>, pos: int)
    requires
        0 <= pos < src.len(),
    ensures
        first_rule(rules, src, pos, 0) is None ==> lex_from(rules, src, pos) == Err::<
            Seq<TokenModel>,
            LexError,
        >(LexError::UnrecognizedToken { position: offset(pos) }),
        first_rule(rules, src, pos, 0) matches Some((_, len)) && lex_from(rules, src, pos + len)
            is Err ==> lex_from(rules, src, pos) is Err,
{
}

/// The order of the table gives each operator of two characters priority
/// over the operator that its first character writes alone, and the comment
/// priority over the division sign.
pub proof fn lemma_longer_operators_come_first()
    ensures
        default_rules()[4].pattern == COMMENT_RULE@,
        default_rules()[24].handler == Handler::Default(TokenKind::OpDivide),
        default_rules()[10].handler == Handler::Default(TokenKind::OpEqual),
        default_rules()[12].handler == Handler::Default(TokenKind::OpAssign),
        default_rules()[11].handler == Handler::Default(TokenKind::OpNotEqual),
        default_rules()[13].handler == Handler::Default(TokenKind::OpNot),
        default_rules()[14].handler == Handler::Default(TokenKind::OpLessEqual),
        default_rules()[15].handler == Handler::Default(TokenKind::OpLess),
        default_rules()[16].handler == Handler::Default(TokenKind::OpGreaterEqual),
        default_rules()[17].handler == Handler::Default(TokenKind::OpGreater),
{
}

/// A run is made of bytes of its class, and stops at the end of the text or
/// before a byte outside the class.
pub proof fn lemma_run_end_is_maximal(s: Seq<u8>, pos: int, class: ByteClass)
    requires
        0 <= pos <= s.len(),
    ensures
        forall|k: int| pos <= k < run_end(s, pos, class) ==> in_class(class, #[trigger] s[k]),
        run_end(s, pos, class) == s.len() || !in_class(class, s[run_end(s, pos, class)]),
    decreases s.len() - pos,
{
    if pos < s.len() && in_class(class, s[pos]) {
        lemma_run_end_bounds(s, pos + 1, class);
        lemma_run_end_is_maximal(s, pos + 1, class);
    }
}

/// A run ends exactly where its class ends: where every byte from `pos` up
/// to `end` belongs to the class and the byte at `end`, if there is one,
/// does not, the run from `pos` ends at `end`.
pub proof fn lemma_run_end_is_the_first_outsider(s: Seq<u8>, pos: int, end: int, class: ByteClass)
    requires
        0 <= pos <= end <= s.len(),
        forall|k: int| pos <= k < end ==> in_class(class, #[trigger] s[k]),
        end == s.len() || !in_class(class, s[end]),
    ensures
        run_end(s, pos, class) == end,
    decreases end - pos,
{
    if pos < end {
        lemma_run_end_is_the_first_outsider(s, pos + 1, end, class);
    }
}

/// Whether the bytes of `s` from `from` up to `to` are trivia and nothing
/// else: whitespace bytes and comments, one after the other in any
/// interleaving. A comment that is never closed reaches to the end of `s`.
pub open spec fn only_trivia(s: Seq<u8>, from: int, to: int) -> bool
    decreases s.len() - from,
{
    if from == to {
        true
    } else if 0 <= from < s.len() && in_class(ByteClass::Space, s[from]) {
        only_trivia(s, from + 1, to)
    } else if comment_opens(s, from) {
        proof {
            lemma_comment_close_bounds(s, from + 2);
        }
        only_trivia(s, comment_close(s, from + 2), to)
    } else {
        false
    }
}

/// What is passed as trivia is trivia: between a position and the end of
/// the trivia that begins there stand whitespace and comments only.
pub proof fn lemma_only_trivia_is_passed(s: Seq<u8>, pos: int)
    requires
        0 <= pos <= s.len(),
    ensures
        only_trivia(s, pos, trivia_end(s, pos)),
    decreases s.len() - pos,
{
    lemma_trivia_end_bounds(s, pos);
    if pos < s.len() && in_class(ByteClass::Space, s[pos]) {
        lemma_trivia_end_bounds(s, pos + 1);
        lemma_only_trivia_is_passed(s, pos + 1);
    } else if comment_opens(s, pos) {
        lemma_comment_close_bounds(s, pos + 2);
        lemma_trivia_end_bounds(s, comment_close(s, pos + 2));
        lemma_only_trivia_is_passed(s, comment_close(s, pos + 2));
    }
}

/// A string literal is read verbatim: where the ASCII text `body`, which
/// holds no double quote, stands at `from` and a double quote stands behind
/// it, the literal read from `from` is `body`, unchanged, and ends just
/// behind that quote.
pub proof fn lemma_string_literal_is_its_body(s: Seq<u8>, from: int, body: Seq<char>)
    requires
        0 <= from,
        from + body.len() < s.len(),
        is_ascii_chars(body),
        forall|i: int| 0 <= i < body.len() ==> body[i] != '"' && s[from + i] == body[i] as u8,
        s[from + body.len()] == QUOTE,
    ensures
        string_literal(s, from) == (Reading::<Seq<char>> {
            value: Ok(body),
            next: from + body.len() + 1,
        }),
{
    let close = from + body.len();
    assert forall|k: int| from <= k < close implies in_class(
        ByteClass::StringBody,
        #[trigger] s[k],
    ) by {
        let c = body[k - from];
        assert(s[from + (k - from)] == c as u8);
        assert('\0' <= c <= '\u{7f}');
    }
    lemma_run_end_is_the_first_outsider(s, from, close, ByteClass::StringBody);
    is_ascii_chars_encode_utf8(body);
    assert(s.subrange(from, close) =~= encode_utf8(body));
    encode_utf8_valid_utf8(body);
    encode_utf8_decode_utf8(body);
}

/// The text that the ASCII bytes of `s` from `from` up to `to` write.
pub open spec fn ascii_text(s: Seq<u8>, from: int, to: int) -> Seq<char> {
    Seq::new((to - from) as nat, |i: int| s[from + i] as char)
}

/// A digit run is taken whole, however long it is: where the bytes of the
/// run are ASCII, as digits are, the number read is the text of the run,
/// byte for byte, and ends where the run ends. No length makes it fail.
pub proof fn lemma_number_is_its_digit_run(s: Seq<u8>, from: int)
    requires
        0 <= from < s.len(),
        forall|k: int| from <= k < run_end(s, from + 1, ByteClass::Digit) ==> #[trigger] s[k] < 128,
    ensures
        number(s, from) == (Reading::<Seq<char>> {
            value: Ok(ascii_text(s, from, run_end(s, from + 1, ByteClass::Digit))),
            next: run_end(s, from + 1, ByteClass::Digit),
        }),
{
    lemma_run_end_bounds(s, from + 1, ByteClass::Digit);
    let end = run_end(s, from + 1, ByteClass::Digit);
    let text = ascii_text(s, from, end);
    assert(is_ascii_chars(text)) by {
        assert forall|i: int| 0 <= i < text.len() implies '\0' <= #[trigger] text[i]
            <= '\u{7f}' by {
            assert(s[from + i] < 128);
        }
    }
    is_ascii_chars_encode_utf8(text);
    assert(s.subrange(from, end) =~= encode_utf8(text));
    encode_utf8_valid_utf8(text);
    encode_utf8_decode_utf8(text);
}

/// Trivia is passed whole: where the trivia ends, the text is exhausted or
/// a byte stands that is no whitespace and opens no comment.
pub proof fn lemma_trivia_is_passed_whole(s: Seq<u8>, pos: int)
    requires
        0 <= pos <= s.len(),
    ensures
        ({
            let at = trivia_end(s, pos);
            &&& pos <= at <= s.len()
            &&& trivia_end(s, at) == at
            &&& at < s.len() ==> !in_class(ByteClass::Space, s[at]) && !comment_opens(s, at)
        }),
    decreases s.len() - pos,
{
    if pos < s.len() && in_class(ByteClass::Space, s[pos]) {
        lemma_trivia_is_passed_whole(s, pos + 1);
    } else if comment_opens(s, pos) {
        lemma_comment_close_bounds(s, pos + 2);
        lemma_trivia_is_passed_whole(s, comment_close(s, pos + 2));
    }
}

/// Progress of the scanner: a step never moves the cursor back nor out of
/// the text; a step that yields a token other than end-of-input moves it
/// forward; and a failed step stops where the trivia ended.
pub proof fn lemma_scan_makes_progress(s: Seq<u8>, pos: int)
    requires
        0 <= pos <= s.len(),
    ensures
        pos <= scan(s, pos).next <= s.len(),
        scan(s, pos).outcome matches Ok(token) && token.kind != TokenKind::EndOfInput ==> pos
            < scan(s, pos).next,
        scan(s, pos).outcome is Err ==> scan(s, pos).next == trivia_end(s, pos),
{
    lemma_trivia_end_bounds(s, pos);
    let at = trivia_end(s, pos);
    if at < s.len() {
        lemma_run_end_bounds(s, at + 1, ByteClass::StringBody);
        lemma_run_end_bounds(s, at + 1, ByteClass::Word);
        lemma_run_end_bounds(s, at + 1, ByteClass::Digit);
    }
}

/// A failed step reports the position where the trivia ended, which is
/// where the text that was not accepted begins; and it never blames a
/// pattern.
pub proof fn lemma_scan_failure_is_located(s: Seq<u8>, pos: int)
    requires
        0 <= pos <= s.len() <= usize::MAX,
    ensures
        match scan(s, pos).outcome {
            Ok(_) => true,
            Err(LexError::UnrecognizedToken { position }) => position == trivia_end(s, pos),
            Err(LexError::UnknownEscape { position }) => position == trivia_end(s, pos),
            Err(LexError::InvalidUtf8 { position }) => position == trivia_end(s, pos),
            Err(LexError::InvalidPattern { .. }) => false,
        },
{
    lemma_trivia_end_bounds(s, pos);
}

/// The end-of-input token comes exactly where nothing but trivia is left,
/// and from there on at every further step.
pub proof fn lemma_scan_ends_once(s: Seq<u8>, pos: int)
    requires
        0 <= pos <= s.len(),
    ensures
        scan(s, pos).outcome == Ok::<Scanned, LexError>(plain(TokenKind::EndOfInput))
            <==> trivia_end(s, pos) == s.len(),
        trivia_end(s, pos) == s.len() ==> scan(s, scan(s, pos).next) == scan(s, pos),
{
    lemma_trivia_end_bounds(s, pos);
}

/// An operator of two bytes wins over the operator that its first byte
/// writes alone: where both bytes stand, the step yields the longer
/// operator and passes both.
pub proof fn lemma_two_byte_operator_wins(s: Seq<u8>, at: int)
    requires
        two_byte_operator(s, at) is Some,
    ensures
        token_at(s, at) == (Step {
            outcome: Ok(plain(two_byte_operator(s, at)->Some_0)),
            next: at + 2,
        }),
{
}

/// A word is an identifier exactly when it spells no reserved word; a
/// reserved word is its keyword, which carries no text.
pub proof fn lemma_words_are_keywords_or_identifiers(text: Seq<char>)
    ensures
        match keyword_of(text) {
            Some(kind) => word_token(text) == plain(kind) && kind != TokenKind::Identifier,
            None => word_token(text).kind == TokenKind::Identifier && word_token(text).text
                == text,
        },
{
}

} // verus!
