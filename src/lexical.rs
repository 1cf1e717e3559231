use vstd::prelude::*;
use crate::error::{ScanError, ScanErrorKind};
use crate::token::{TokenType, ObjectView, TokenView, eof_view};

verus! {

pub open spec fn is_digit(c: char) -> bool {
    '0' <= c && c <= '9'
}

/// ASCII letters, digits and underscore: the characters of an identifier.
pub open spec fn is_word_char(c: char) -> bool {
    is_digit(c) || ('a' <= c && c <= 'z') || ('A' <= c && c <= 'Z') || c == '_'
}

/// The end of the maximal run of digits that begins at `i`.
pub open spec fn digits_end(src: Seq<char>, i: int) -> int
    decreases src.len() - i,
{
    if 0 <= i < src.len() && is_digit(src[i]) {
        digits_end(src, i + 1)
    } else {
        i
    }
}

/// The end of the maximal run of identifier characters that begins at `i`.
pub open spec fn word_end(src: Seq<char>, i: int) -> int
    decreases src.len() - i,
{
    if 0 <= i < src.len() && is_word_char(src[i]) {
        word_end(src, i + 1)
    } else {
        i
    }
}

/// The end of a number literal whose first digit is at `i`: a digit run,
/// then a fractional part only where a `.` is followed by a digit.
pub open spec fn number_end(src: Seq<char>, i: int) -> int {
    let a = digits_end(src, i);
    if a + 1 < src.len() && src[a] == '.' && is_digit(src[a + 1]) {
        digits_end(src, a + 1)
    } else {
        a
    }
}

/// The index of the first newline at or after `i`, or the length.
pub open spec fn line_end(src: Seq<char>, i: int) -> int
    decreases src.len() - i,
{
    if 0 <= i < src.len() && src[i] != '\n' {
        line_end(src, i + 1)
    } else {
        i
    }
}

/// The index of the first `"` at or after `i`, or the length.
pub open spec fn quote_end(src: Seq<char>, i: int) -> int
    decreases src.len() - i,
{
    if 0 <= i < src.len() && src[i] != '"' {
        quote_end(src, i + 1)
    } else {
        i
    }
}

/// Where a block comment ends, given that `depth` comments are open and
/// `i` is the next unread index: just past the closer of the outermost one,
/// or `None` if the input ends first.
pub open spec fn comment_end(src: Seq<char>, i: int, depth: nat) -> Option<int>
    decreases src.len() - i,
{
    if i < 0 || i >= src.len() {
        None
    } else if src[i] == '*' && i + 1 < src.len() && src[i + 1] == '/' {
        if depth <= 1 {
            Some(i + 2)
        } else {
            comment_end(src, i + 2, (depth - 1) as nat)
        }
    } else if src[i] == '/' && i + 1 < src.len() && src[i + 1] == '*' {
        comment_end(src, i + 2, depth + 1)
    } else {
        comment_end(src, i + 1, depth)
    }
}

/// The number of newlines in `src[i..j]`.
pub open spec fn newlines(src: Seq<char>, i: int, j: int) -> nat
    decreases j - i,
{
    if i >= j {
        0
    } else {
        newlines(src, i, j - 1) + if src[j - 1] == '\n' { 1nat } else { 0nat }
    }
}

/// The kind of a reserved word, or `None` for any other text.
pub open spec fn keyword_kind(s: Seq<char>) -> Option<TokenType> {
    if s == seq!['a', 'n', 'd'] { Some(TokenType::And) }
    else if s == seq!['c', 'l', 'a', 's', 's'] { Some(TokenType::Class) }
    else if s == seq!['e', 'l', 's', 'e'] { Some(TokenType::Else) }
    else if s == seq!['f', 'a', 'l', 's', 'e'] { Some(TokenType::False) }
    else if s == seq!['f', 'o', 'r'] { Some(TokenType::For) }
    else if s == seq!['f', 'u', 'n'] { Some(TokenType::Fun) }
    else if s == seq!['i', 'f'] { Some(TokenType::If) }
    else if s == seq!['n', 'i', 'l'] { Some(TokenType::Nil) }
    else if s == seq!['o', 'r'] { Some(TokenType::Or) }
    else if s == seq!['p', 'r', 'i', 'n', 't'] { Some(TokenType::Print) }
    else if s == seq!['r', 'e', 't', 'u', 'r', 'n'] { Some(TokenType::Return) }
    else if s == seq!['s', 'u', 'p', 'e', 'r'] { Some(TokenType::Super) }
    else if s == seq!['t', 'h', 'i', 's'] { Some(TokenType::This) }
    else if s == seq!['t', 'r', 'u', 'e'] { Some(TokenType::True) }
    else if s == seq!['v', 'a', 'r'] { Some(TokenType::Var) }
    else if s == seq!['w', 'h', 'i', 'l', 'e'] { Some(TokenType::While) }
    else { None }
}

/// The kind of a one-character punctuation token.
pub open spec fn single_kind(c: char) -> Option<TokenType> {
    if c == '(' { Some(TokenType::LeftParen) }
    else if c == ')' { Some(TokenType::RightParen) }
    else if c == '{' { Some(TokenType::LeftBrace) }
    else if c == '}' { Some(TokenType::RightBrace) }
    else if c == ',' { Some(TokenType::Comma) }
    else if c == '.' { Some(TokenType::Dot) }
    else if c == '-' { Some(TokenType::Minus) }
    else if c == '+' { Some(TokenType::Plus) }
    else if c == ';' { Some(TokenType::SemiColon) }
    else if c == '*' { Some(TokenType::Star) }
    else { None }
}

/// For `! = < >`: the kind alone and the kind when followed by `=`.
pub open spec fn operator_kinds(c: char) -> Option<(TokenType, TokenType)> {
    if c == '!' { Some((TokenType::Bang, TokenType::BangEqual)) }
    else if c == '=' { Some((TokenType::Assign, TokenType::Equals)) }
    else if c == '<' { Some((TokenType::Less, TokenType::LessEqual)) }
    else if c == '>' { Some((TokenType::Greater, TokenType::GreaterEqual)) }
    else { None }
}

/// What scanning one lexical unit does: where the next one starts, the line
/// counter afterwards, and the token or error it gives, if any.
pub struct Step {
    pub next: int,
    pub line: nat,
    pub token: Option<TokenView>,
    pub error: Option<ScanError>,
}

/// A token without payload made of `src[s..e]`, begun on `line`.
pub open spec fn plain(src: Seq<char>, kind: TokenType, s: int, e: int, line: nat) -> TokenView {
    TokenView { kind, lexeme: src.subrange(s, e), literal: None, line }
}

pub open spec fn emit(next: int, line: nat, t: TokenView) -> Step {
    Step { next, line, token: Some(t), error: None }
}

pub open spec fn skip(next: int, line: nat) -> Step {
    Step { next, line, token: None, error: None }
}

pub open spec fn fail(next: int, line: nat, kind: ScanErrorKind) -> Step {
    Step { next, line, token: None, error: Some(ScanError { line: line as usize, kind }) }
}

/// Scanning the lexical unit that begins at `s` on line `line`.
pub open spec fn scan_one(src: Seq<char>, s: int, line: nat) -> Step {
    let c = src[s];
    if single_kind(c) is Some {
        emit(s + 1, line, plain(src, single_kind(c)->0, s, s + 1, line))
    } else if operator_kinds(c) is Some {
        let (one, two) = operator_kinds(c)->0;
        if s + 1 < src.len() && src[s + 1] == '=' {
            emit(s + 2, line, plain(src, two, s, s + 2, line))
        } else {
            emit(s + 1, line, plain(src, one, s, s + 1, line))
        }
    } else if c == '/' {
        if s + 1 < src.len() && src[s + 1] == '/' {
            skip(line_end(src, s + 2), line)
        } else if s + 1 < src.len() && src[s + 1] == '*' {
            match comment_end(src, s + 2, 1) {
                Some(e) => skip(e, line + newlines(src, s + 2, e)),
                None => fail(src.len() as int, line + newlines(src, s + 2, src.len() as int),
                    ScanErrorKind::UnterminatedComment),
            }
        } else {
            emit(s + 1, line, plain(src, TokenType::Slash, s, s + 1, line))
        }
    } else if c == ' ' || c == '\r' || c == '\t' {
        skip(s + 1, line)
    } else if c == '\n' {
        skip(s + 1, line + 1)
    } else if c == '"' {
        let q = quote_end(src, s + 1);
        if q >= src.len() {
            fail(q, line + newlines(src, s + 1, q), ScanErrorKind::UnterminatedString)
        } else {
            emit(q + 1, line + newlines(src, s + 1, q), TokenView {
                kind: TokenType::String,
                lexeme: src.subrange(s, q + 1),
                literal: Some(ObjectView::Str(src.subrange(s + 1, q))),
                line,
            })
        }
    } else if is_digit(c) {
        let e = number_end(src, s);
        emit(e, line, TokenView {
            kind: TokenType::Number,
            lexeme: src.subrange(s, e),
            literal: Some(ObjectView::Num(src.subrange(s, e))),
            line,
        })
    } else if is_word_char(c) {
        let e = word_end(src, s);
        let kind = match keyword_kind(src.subrange(s, e)) {
            Some(k) => k,
            None => TokenType::Identifier,
        };
        emit(e, line, plain(src, kind, s, e, line))
    } else {
        fail(s + 1, line, ScanErrorKind::UnexpectedCharacter)
    }
}

pub open spec fn push_opt<A>(s: Seq<A>, o: Option<A>) -> Seq<A> {
    match o {
        Some(a) => s.push(a),
        None => s,
    }
}

/// Scanning from index `pos` on line `line` to the end, appending to the
/// tokens and errors gathered so far; an end-of-input marker closes the tokens.
pub open spec fn scan_from(
    src: Seq<char>,
    pos: int,
    line: nat,
    toks: Seq<TokenView>,
    errs: Seq<ScanError>,
) -> (Seq<TokenView>, Seq<ScanError>)
    decreases src.len() - pos,
    via scan_from_decreases
{
    if pos < 0 || pos >= src.len() {
        (toks.push(eof_view(line)), errs)
    } else {
        let st = scan_one(src, pos, line);
        scan_from(src, st.next, st.line, push_opt(toks, st.token), push_opt(errs, st.error))
    }
}

#[via_fn]
proof fn scan_from_decreases(
    src: Seq<char>,
    pos: int,
    line: nat,
    toks: Seq<TokenView>,
    errs: Seq<ScanError>,
) {
    if 0 <= pos < src.len() {
        lemma_step_progress(src, pos, line);
    }
}

/// The tokens and the errors, in source order, of scanning a whole source.
pub open spec fn scan_spec(src: Seq<char>) -> (Seq<TokenView>, Seq<ScanError>) {
    scan_from(src, 0, 1, Seq::empty(), Seq::empty())
}

/// The outcome of scanning a whole source: every token, or the last error.
pub open spec fn scan_result(src: Seq<char>) -> Result<Seq<TokenView>, ScanError> {
    let (toks, errs) = scan_spec(src);
    if errs.len() == 0 {
        Ok(toks)
    } else {
        Err(errs.last())
    }
}

proof fn lemma_digits_end(src: Seq<char>, i: int)
    requires
        0 <= i <= src.len(),
    ensures
        i <= digits_end(src, i) <= src.len(),
    decreases src.len() - i,
{
    if i < src.len() && is_digit(src[i]) {
        lemma_digits_end(src, i + 1);
    }
}

proof fn lemma_word_end(src: Seq<char>, i: int)
    requires
        0 <= i <= src.len(),
    ensures
        i <= word_end(src, i) <= src.len(),
        word_end(src, i) < src.len() ==> !is_word_char(src[word_end(src, i)]),
    decreases src.len() - i,
{
    if i < src.len() && is_word_char(src[i]) {
        lemma_word_end(src, i + 1);
    }
}

proof fn lemma_line_end(src: Seq<char>, i: int)
    requires
        0 <= i <= src.len(),
    ensures
        i <= line_end(src, i) <= src.len(),
    decreases src.len() - i,
{
    if i < src.len() && src[i] != '\n' {
        lemma_line_end(src, i + 1);
    }
}

proof fn lemma_quote_end(src: Seq<char>, i: int)
    requires
        0 <= i <= src.len(),
    ensures
        i <= quote_end(src, i) <= src.len(),
        quote_end(src, i) < src.len() ==> src[quote_end(src, i)] == '"',
    decreases src.len() - i,
{
    if i < src.len() && src[i] != '"' {
        lemma_quote_end(src, i + 1);
    }
}

proof fn lemma_comment_end(src: Seq<char>, i: int, depth: nat)
    requires
        0 <= i,
    ensures
        comment_end(src, i, depth) matches Some(e) ==> i < e <= src.len(),
    decreases src.len() - i,
{
    if i < src.len() {
        if src[i] == '*' && i + 1 < src.len() && src[i + 1] == '/' {
            if depth > 1 {
                lemma_comment_end(src, i + 2, (depth - 1) as nat);
            }
        } else if src[i] == '/' && i + 1 < src.len() && src[i + 1] == '*' {
            lemma_comment_end(src, i + 2, depth + 1);
        } else {
            lemma_comment_end(src, i + 1, depth);
        }
    }
}

pub proof fn lemma_newlines_bound(src: Seq<char>, i: int, j: int)
    requires
        i <= j,
    ensures
        newlines(src, i, j) <= j - i,
    decreases j - i,
{
    if i < j {
        lemma_newlines_bound(src, i, j - 1);
    }
}

/// Scanning one unit always consumes input, never runs past the end, and
/// raises the line counter by at most the number of characters consumed.
pub proof fn lemma_step_progress(src: Seq<char>, s: int, line: nat)
    requires
        0 <= s < src.len(),
    ensures
        s < scan_one(src, s, line).next <= src.len(),
        line <= scan_one(src, s, line).line <= line + (scan_one(src, s, line).next - s),
{
    let c = src[s];
    lemma_digits_end(src, s + 1);
    lemma_word_end(src, s + 1);
    if s + 2 <= src.len() {
        lemma_line_end(src, s + 2);
        lemma_comment_end(src, s + 2, 1);
        match comment_end(src, s + 2, 1) {
            Some(e) => lemma_newlines_bound(src, s + 2, e),
            None => lemma_newlines_bound(src, s + 2, src.len() as int),
        }
    }
    lemma_quote_end(src, s + 1);
    lemma_newlines_bound(src, s + 1, quote_end(src, s + 1));
    let a = digits_end(src, s);
    if a + 1 < src.len() {
        lemma_digits_end(src, a + 1);
    }
}

proof fn lemma_step_not_eof(src: Seq<char>, s: int, line: nat)
    requires
        0 <= s < src.len(),
    ensures
        scan_one(src, s, line).token matches Some(t) ==> t.kind != TokenType::Eof,
{
}

proof fn lemma_scan_from_eof(
    src: Seq<char>,
    pos: int,
    line: nat,
    toks: Seq<TokenView>,
    errs: Seq<ScanError>,
)
    requires
        forall|i: int| 0 <= i < toks.len() ==> toks[i].kind != TokenType::Eof,
    ensures
        ({
            let (t, e) = scan_from(src, pos, line, toks, errs);
            &&& t.len() >= 1
            &&& t.last().kind == TokenType::Eof
            &&& forall|i: int| 0 <= i < t.len() - 1 ==> t[i].kind != TokenType::Eof
            &&& e.len() >= errs.len()
        }),
    decreases src.len() - pos,
{
    if 0 <= pos < src.len() {
        let st = scan_one(src, pos, line);
        lemma_step_progress(src, pos, line);
        lemma_step_not_eof(src, pos, line);
        let toks2 = push_opt(toks, st.token);
        assert forall|i: int| 0 <= i < toks2.len() implies toks2[i].kind != TokenType::Eof by {
            if i < toks.len() {
                assert(toks2[i] == toks[i]);
            }
        }
        lemma_scan_from_eof(src, st.next, st.line, toks2, push_opt(errs, st.error));
    }
}

/// A source without lexical errors scans successfully, and its tokens end
/// in exactly one end-of-input marker.
pub proof fn lemma_clean_scan_ends_in_one_eof(src: Seq<char>)
    requires
        scan_spec(src).1.len() == 0,
    ensures
        scan_result(src) matches Ok(toks) && toks.len() >= 1 && toks.last().kind == TokenType::Eof
            && forall|i: int| 0 <= i < toks.len() - 1 ==> toks[i].kind != TokenType::Eof,
{
    lemma_scan_from_eof(src, 0, 1, Seq::empty(), Seq::empty());
}

/// Scanning is deterministic: two scans of the same source give the same
/// tokens and the same errors, and a fresh scanner gathers exactly what a
/// whole-source scan gives.
pub proof fn lemma_rescan_identical(a: Seq<char>, b: Seq<char>)
    requires
        a == b,
    ensures
        scan_spec(a) == scan_spec(b),
        scan_result(a) == scan_result(b),
        scan_from(a, 0, 1, Seq::empty(), Seq::empty()) == scan_spec(b),
{
}

/// Maximal munch for operators: `!`, `=`, `<` or `>` followed by `=` always
/// scans as one two-character token.
pub proof fn lemma_two_char_operator(src: Seq<char>, s: int, line: nat)
    requires
        0 <= s,
        s + 1 < src.len(),
        operator_kinds(src[s]) is Some,
        src[s + 1] == '=',
    ensures
        scan_one(src, s, line).next == s + 2,
        scan_one(src, s, line).token matches Some(t) && t.kind == (operator_kinds(src[s])->0).1
            && t.lexeme == src.subrange(s, s + 2),
{
}

/// Maximal munch for words: an identifier or keyword token takes every
/// identifier character that follows it, so a keyword is never cut out of a
/// longer word.
pub proof fn lemma_word_is_maximal(src: Seq<char>, s: int, line: nat)
    requires
        0 <= s < src.len(),
        is_word_char(src[s]),
        !is_digit(src[s]),
    ensures
        ({
            let st = scan_one(src, s, line);
            &&& st.next == word_end(src, s)
            &&& st.next < src.len() ==> !is_word_char(src[st.next])
            &&& st.token matches Some(t) && t.lexeme == src.subrange(s, st.next)
        }),
{
    lemma_word_end(src, s);
}

} // verus!
