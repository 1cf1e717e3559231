use vstd::prelude::*;
use crate::error::{ScanError, ScanErrorKind};
use crate::lexical::{
    Step, comment_end, digits_end, is_digit, is_word_char, keyword_kind, lemma_newlines_bound,
    lemma_step_progress, line_end, newlines, number_end, push_opt, quote_end, scan_from, scan_one,
    scan_result, word_end,
};
use crate::text::{chars_of, collect_chars};
use crate::token::{Object, Token, TokenType, TokenView, literal_view};

verus! {

/// The views of a sequence of tokens.
pub open spec fn views(ts: Seq<Token>) -> Seq<TokenView> {
    ts.map_values(|t: Token| t@)
}

proof fn lemma_views_push(ts: Seq<Token>, t: Token)
    ensures
        views(ts.push(t)) == views(ts).push(t@),
{
    assert(views(ts.push(t)) =~= views(ts).push(t@));
}

spec fn char_at(src: Seq<char>, i: int) -> Option<char> {
    if 0 <= i < src.len() {
        Some(src[i])
    } else {
        None
    }
}

/// The state of a scanner: the source, the cursor, the line counter, and
/// what has been gathered so far.
pub struct ScannerView {
    pub source: Seq<char>,
    pub current: nat,
    pub line: nat,
    pub tokens: Seq<TokenView>,
    pub errors: Seq<ScanError>,
}

/// A single-pass scanner over one source text.
pub struct Scanner {
    source: Vec<char>,
    tokens: Vec<Token>,
    errors: Vec<ScanError>,
    start: usize,
    current: usize,
    line: usize,
}

impl View for Scanner {
    type V = ScannerView;

    closed spec fn view(&self) -> ScannerView {
        ScannerView {
            source: self.source@,
            current: self.current as nat,
            line: self.line as nat,
            tokens: views(self.tokens@),
            errors: self.errors@,
        }
    }
}

/// `new` is `old` after the step `st` from `old.start`.
spec fn took(old: Scanner, new: Scanner, st: Step) -> bool {
    &&& new.source@ == old.source@
    &&& new.errors@ == old.errors@
    &&& new.start == old.start
    &&& new.current == st.next
    &&& new.line == st.line
    &&& views(new.tokens@) == push_opt(views(old.tokens@), st.token)
}

/// `r` reports the error of the step `st`, if any.
spec fn reports(r: Result<(), ScanError>, st: Step) -> bool {
    match st.error {
        Some(e) => r == Err::<(), ScanError>(e),
        None => r is Ok,
    }
}

impl Scanner {
    /// The scanner's invariant: the cursor lies within the source, and the
    /// line counter is at most one more than the characters read.
    pub closed spec fn wf(&self) -> bool {
        &&& self.start <= self.current <= self.source.len() < usize::MAX
        &&& 1 <= self.line <= self.current + 1
    }

    fn from_chars(source: Vec<char>) -> (r: Scanner)
        requires
            source@.len() < usize::MAX,
        ensures
            r.wf(),
            r@ == (ScannerView {
                source: source@,
                current: 0,
                line: 1,
                tokens: Seq::empty(),
                errors: Seq::empty(),
            }),
    {
        let r = Scanner {
            source,
            tokens: Vec::new(),
            errors: Vec::new(),
            start: 0,
            current: 0,
            line: 1,
        };
        assert(views(r.tokens@) =~= Seq::empty());
        r
    }

    pub fn new(source: String) -> (r: Scanner)
        requires
            source@.len() < usize::MAX,
        ensures
            r.wf(),
            r@ == (ScannerView {
                source: source@,
                current: 0,
                line: 1,
                tokens: Seq::empty(),
                errors: Seq::empty(),
            }),
    {
        Scanner::from_chars(chars_of(source.as_str()))
    }

    /// Every error met so far, in the order met.
    pub fn errors(&self) -> (r: &Vec<ScanError>)
        ensures
            r@ == self@.errors,
    {
        &self.errors
    }

    /// The tokens gathered so far.
    pub fn into_tokens(self) -> (r: Vec<Token>)
        ensures
            views(r@) == self@.tokens,
    {
        self.tokens
    }

    fn is_at_end(&self) -> (r: bool)
        ensures
            r == (self.current >= self.source.len()),
    {
        self.current >= self.source.len()
    }

    fn peek(&self) -> (r: Option<char>)
        ensures
            r == char_at(self.source@, self.current as int),
    {
        if self.current < self.source.len() {
            Some(self.source[self.current])
        } else {
            None
        }
    }

    fn peek_next(&self) -> (r: Option<char>)
        requires
            self.current < usize::MAX,
        ensures
            r == char_at(self.source@, self.current + 1),
    {
        if self.current + 1 < self.source.len() {
            Some(self.source[self.current + 1])
        } else {
            None
        }
    }

    fn advance(&mut self) -> (r: char)
        requires
            old(self).current < old(self).source.len(),
        ensures
            r == old(self).source@[old(self).current as int],
            *final(self) == (Scanner { current: (old(self).current + 1) as usize, ..*old(self) }),
    {
        let r = self.source[self.current];
        self.current = self.current + 1;
        r
    }

    fn is_match(&mut self, expected: char) -> (r: bool)
        requires
            old(self).current < usize::MAX,
        ensures
            r == (char_at(old(self).source@, old(self).current as int) == Some(expected)),
            *final(self) == (Scanner {
                current: if r { (old(self).current + 1) as usize } else { old(self).current },
                ..*old(self)
            }),
    {
        if self.current < self.source.len() && self.source[self.current] == expected {
            self.current = self.current + 1;
            true
        } else {
            false
        }
    }

    /// Appends a token made of `source[start..current]`, begun on `line`.
    fn add_token_object(&mut self, t_type: TokenType, literal: Option<Object>, line: usize)
        requires
            old(self).start <= old(self).current <= old(self).source.len(),
        ensures
            views(final(self).tokens@) == views(old(self).tokens@).push(TokenView {
                kind: t_type,
                lexeme: old(self).source@.subrange(old(self).start as int, old(self).current as int),
                literal: literal_view(literal),
                line: line as nat,
            }),
            final(self).source == old(self).source,
            final(self).errors == old(self).errors,
            final(self).start == old(self).start,
            final(self).current == old(self).current,
            final(self).line == old(self).line,
    {
        let lexeme = collect_chars(&self.source, self.start, self.current);
        let t = Token::new(t_type, lexeme, literal, line);
        proof {
            lemma_views_push(self.tokens@, t);
        }
        self.tokens.push(t);
    }

    fn add_token(&mut self, t_type: TokenType)
        requires
            old(self).start <= old(self).current <= old(self).source.len(),
        ensures
            views(final(self).tokens@) == views(old(self).tokens@).push(TokenView {
                kind: t_type,
                lexeme: old(self).source@.subrange(old(self).start as int, old(self).current as int),
                literal: None,
                line: old(self).line as nat,
            }),
            final(self).source == old(self).source,
            final(self).errors == old(self).errors,
            final(self).start == old(self).start,
            final(self).current == old(self).current,
            final(self).line == old(self).line,
    {
        let line = self.line;
        self.add_token_object(t_type, None, line);
    }

    /// Emits `t_type` and consumes the next character if it is `expected`,
    /// else emits `else_type`.
    fn add_token_if_else(&mut self, expected: char, t_type: TokenType, else_type: TokenType)
        requires
            old(self).wf(),
            old(self).start + 1 == old(self).current,
        ensures
            final(self).wf(),
            ({
                let src = old(self).source@;
                let s = old(self).start as int;
                let l = old(self).line as nat;
                let st = if s + 1 < src.len() && src[s + 1] == expected {
                    Step { next: s + 2, line: l, token: Some(TokenView {
                        kind: t_type, lexeme: src.subrange(s, s + 2), literal: None, line: l }),
                        error: None }
                } else {
                    Step { next: s + 1, line: l, token: Some(TokenView {
                        kind: else_type, lexeme: src.subrange(s, s + 1), literal: None, line: l }),
                        error: None }
                };
                took(*old(self), *final(self), st)
            }),
    {
        if self.is_match(expected) {
            self.add_token(t_type);
        } else {
            self.add_token(else_type);
        }
    }

    fn is_digit(ch: Option<char>) -> (r: bool)
        ensures
            r == (ch matches Some(c) && is_digit(c)),
    {
        match ch {
            Some(c) => '0' <= c && c <= '9',
            None => false,
        }
    }

    fn is_alpha_numeric(ch: Option<char>) -> (r: bool)
        ensures
            r == (ch matches Some(c) && is_word_char(c)),
    {
        match ch {
            Some(c) => ('0' <= c && c <= '9') || ('a' <= c && c <= 'z') || ('A' <= c && c <= 'Z')
                || c == '_',
            None => false,
        }
    }

    fn scan_number(&mut self)
        requires
            old(self).wf(),
            old(self).start + 1 == old(self).current,
            is_digit(old(self).source@[old(self).start as int]),
        ensures
            final(self).wf(),
            took(*old(self), *final(self), scan_one(old(self).source@, old(self).start as int, old(self).line as nat)),
    {
        let ghost src = self.source@;
        let ghost s = self.start as int;
        while Scanner::is_digit(self.peek())
            invariant
                self.wf(),
                self.source@ == src,
                self.start == old(self).start,
                self.line == old(self).line,
                self.tokens == old(self).tokens,
                self.errors == old(self).errors,
                s < self.current,
                digits_end(src, self.current as int) == digits_end(src, s),
            decreases src.len() - self.current,
        {
            self.advance();
        }
        if self.peek() == Some('.') && Scanner::is_digit(self.peek_next()) {
            self.advance();
            while Scanner::is_digit(self.peek())
                invariant
                    self.wf(),
                    self.source@ == src,
                    self.start == old(self).start,
                    self.line == old(self).line,
                    self.tokens == old(self).tokens,
                    self.errors == old(self).errors,
                    s < self.current,
                    digits_end(src, self.current as int) == number_end(src, s),
                decreases src.len() - self.current,
            {
                self.advance();
            }
        }
        let value = collect_chars(&self.source, self.start, self.current);
        let line = self.line;
        self.add_token_object(TokenType::Number, Some(Object::Num(value)), line);
    }

    /// Whether `src[s..e]` is the word `w`.
    fn word_is(src: &Vec<char>, s: usize, e: usize, w: &[char]) -> (r: bool)
        requires
            s <= e <= src.len(),
        ensures
            r == (src@.subrange(s as int, e as int) == w@),
    {
        if e - s != w.len() {
            assert(src@.subrange(s as int, e as int).len() != w@.len());
            return false;
        }
        let mut i: usize = 0;
        while i < w.len()
            invariant
                e - s == w.len(),
                s <= e <= src.len(),
                i <= w.len(),
                forall|k: int| 0 <= k < i ==> src@[s + k] == w@[k],
            decreases w.len() - i,
        {
            if src[s + i] != w[i] {
                assert(src@.subrange(s as int, e as int)[i as int] != w@[i as int]);
                return false;
            }
            i = i + 1;
        }
        assert(src@.subrange(s as int, e as int) =~= w@);
        true
    }

    /// The kind of the reserved word `src[s..e]`, if it is one.
    fn keywords(src: &Vec<char>, s: usize, e: usize) -> (r: Option<TokenType>)
        requires
            s <= e <= src.len(),
        ensures
            r == keyword_kind(src@.subrange(s as int, e as int)),
    {
        let w_and = ['a', 'n', 'd'];
        assert(w_and@ =~= seq!['a', 'n', 'd']);
        if Scanner::word_is(src, s, e, &w_and) {
            return Some(TokenType::And);
        }
        let w_class = ['c', 'l', 'a', 's', 's'];
        assert(w_class@ =~= seq!['c', 'l', 'a', 's', 's']);
        if Scanner::word_is(src, s, e, &w_class) {
            return Some(TokenType::Class);
        }
        let w_else = ['e', 'l', 's', 'e'];
        assert(w_else@ =~= seq!['e', 'l', 's', 'e']);
        if Scanner::word_is(src, s, e, &w_else) {
            return Some(TokenType::Else);
        }
        let w_false = ['f', 'a', 'l', 's', 'e'];
        assert(w_false@ =~= seq!['f', 'a', 'l', 's', 'e']);
        if Scanner::word_is(src, s, e, &w_false) {
            return Some(TokenType::False);
        }
        let w_for = ['f', 'o', 'r'];
        assert(w_for@ =~= seq!['f', 'o', 'r']);
        if Scanner::word_is(src, s, e, &w_for) {
            return Some(TokenType::For);
        }
        let w_fun = ['f', 'u', 'n'];
        assert(w_fun@ =~= seq!['f', 'u', 'n']);
        if Scanner::word_is(src, s, e, &w_fun) {
            return Some(TokenType::Fun);
        }
        let w_if = ['i', 'f'];
        assert(w_if@ =~= seq!['i', 'f']);
        if Scanner::word_is(src, s, e, &w_if) {
            return Some(TokenType::If);
        }
        let w_nil = ['n', 'i', 'l'];
        assert(w_nil@ =~= seq!['n', 'i', 'l']);
        if Scanner::word_is(src, s, e, &w_nil) {
            return Some(TokenType::Nil);
        }
        let w_or = ['o', 'r'];
        assert(w_or@ =~= seq!['o', 'r']);
        if Scanner::word_is(src, s, e, &w_or) {
            return Some(TokenType::Or);
        }
        let w_print = ['p', 'r', 'i', 'n', 't'];
        assert(w_print@ =~= seq!['p', 'r', 'i', 'n', 't']);
        if Scanner::word_is(src, s, e, &w_print) {
            return Some(TokenType::Print);
        }
        let w_return = ['r', 'e', 't', 'u', 'r', 'n'];
        assert(w_return@ =~= seq!['r', 'e', 't', 'u', 'r', 'n']);
        if Scanner::word_is(src, s, e, &w_return) {
            return Some(TokenType::Return);
        }
        let w_super = ['s', 'u', 'p', 'e', 'r'];
        assert(w_super@ =~= seq!['s', 'u', 'p', 'e', 'r']);
        if Scanner::word_is(src, s, e, &w_super) {
            return Some(TokenType::Super);
        }
        let w_this = ['t', 'h', 'i', 's'];
        assert(w_this@ =~= seq!['t', 'h', 'i', 's']);
        if Scanner::word_is(src, s, e, &w_this) {
            return Some(TokenType::This);
        }
        let w_true = ['t', 'r', 'u', 'e'];
        assert(w_true@ =~= seq!['t', 'r', 'u', 'e']);
        if Scanner::word_is(src, s, e, &w_true) {
            return Some(TokenType::True);
        }
        let w_var = ['v', 'a', 'r'];
        assert(w_var@ =~= seq!['v', 'a', 'r']);
        if Scanner::word_is(src, s, e, &w_var) {
            return Some(TokenType::Var);
        }
        let w_while = ['w', 'h', 'i', 'l', 'e'];
        assert(w_while@ =~= seq!['w', 'h', 'i', 'l', 'e']);
        if Scanner::word_is(src, s, e, &w_while) {
            return Some(TokenType::While);
        }
        None
    }

    fn scan_identifier(&mut self)
        requires
            old(self).wf(),
            old(self).start + 1 == old(self).current,
            is_word_char(old(self).source@[old(self).start as int]),
            !is_digit(old(self).source@[old(self).start as int]),
        ensures
            final(self).wf(),
            took(*old(self), *final(self), scan_one(old(self).source@, old(self).start as int, old(self).line as nat)),
    {
        let ghost src = self.source@;
        let ghost s = self.start as int;
        while Scanner::is_alpha_numeric(self.peek())
            invariant
                self.wf(),
                self.source@ == src,
                self.start == old(self).start,
                self.line == old(self).line,
                self.tokens == old(self).tokens,
                self.errors == old(self).errors,
                s < self.current,
                word_end(src, self.current as int) == word_end(src, s),
            decreases src.len() - self.current,
        {
            self.advance();
        }
        match Scanner::keywords(&self.source, self.start, self.current) {
            Some(t_type) => self.add_token(t_type),
            None => self.add_token(TokenType::Identifier),
        }
    }

    fn scan_string(&mut self) -> (r: Result<(), ScanError>)
        requires
            old(self).wf(),
            old(self).start + 1 == old(self).current,
            old(self).source@[old(self).start as int] == '"',
        ensures
            final(self).wf(),
            ({
                let st = scan_one(old(self).source@, old(self).start as int, old(self).line as nat);
                took(*old(self), *final(self), st) && reports(r, st)
            }),
    {
        let ghost src = self.source@;
        let ghost s = self.start as int;
        let line0 = self.line;
        while !self.is_at_end() && self.peek() != Some('"')
            invariant
                self.wf(),
                self.source@ == src,
                self.start == old(self).start,
                self.tokens == old(self).tokens,
                self.errors == old(self).errors,
                s < self.current,
                quote_end(src, self.current as int) == quote_end(src, s + 1),
                self.line == line0 + newlines(src, s + 1, self.current as int),
            decreases src.len() - self.current,
        {
            proof {
                lemma_newlines_bound(src, s + 1, self.current as int);
            }
            if self.peek() == Some('\n') {
                self.line = self.line + 1;
            }
            self.advance();
        }
        if self.is_at_end() {
            return Err(ScanError::error(self.line, ScanErrorKind::UnterminatedString));
        }
        self.advance();
        let value = collect_chars(&self.source, self.start + 1, self.current - 1);
        self.add_token_object(TokenType::String, Some(Object::Str(value)), line0);
        Ok(())
    }

    fn scan_comment_block(&mut self) -> (r: Result<(), ScanError>)
        requires
            old(self).wf(),
            old(self).start + 2 == old(self).current,
            old(self).source@[old(self).start as int] == '/',
            old(self).source@[old(self).start + 1] == '*',
        ensures
            final(self).wf(),
            ({
                let st = scan_one(old(self).source@, old(self).start as int, old(self).line as nat);
                took(*old(self), *final(self), st) && reports(r, st)
            }),
    {
        let ghost src = self.source@;
        let ghost s = self.start as int;
        let mut depth: usize = 1;
        loop
            invariant
                self.wf(),
                self.source@ == src,
                self.start == old(self).start,
                self.tokens == old(self).tokens,
                self.errors == old(self).errors,
                s + 2 <= self.current,
                src[s] == '/',
                src[s + 1] == '*',
                old(self).source@ == src,
                old(self).start == s,
                1 <= depth <= self.current,
                comment_end(src, self.current as int, depth as nat) == comment_end(src, s + 2, 1),
                self.line == old(self).line + newlines(src, s + 2, self.current as int),
            decreases src.len() - self.current,
        {
            proof {
                lemma_newlines_bound(src, s + 2, self.current as int);
            }
            let c = self.peek();
            let n = self.peek_next();
            let ghost i = self.current as int;
            let ghost d = depth as nat;
            if c == Some('*') && n == Some('/') {
                self.advance();
                self.advance();
                proof {
                    assert(newlines(src, s + 2, self.current as int) == newlines(src, s + 2, self.current - 1));
                }
                if depth == 1 {
                    assert(comment_end(src, i, d) == Some(i + 2));
                    return Ok(());
                }
                depth = depth - 1;
            } else if c == Some('/') && n == Some('*') {
                self.advance();
                self.advance();
                proof {
                    assert(newlines(src, s + 2, self.current as int) == newlines(src, s + 2, self.current - 1));
                }
                depth = depth + 1;
            } else if c == Some('\n') {
                self.advance();
                self.line = self.line + 1;
            } else if c.is_some() {
                self.advance();
            } else {
                assert(comment_end(src, i, d) is None);
                return Err(ScanError::error(self.line, ScanErrorKind::UnterminatedComment));
            }
        }
    }

    fn handle_slash(&mut self) -> (r: Result<(), ScanError>)
        requires
            old(self).wf(),
            old(self).start + 1 == old(self).current,
            old(self).source@[old(self).start as int] == '/',
        ensures
            final(self).wf(),
            ({
                let st = scan_one(old(self).source@, old(self).start as int, old(self).line as nat);
                took(*old(self), *final(self), st) && reports(r, st)
            }),
    {
        let ghost src = self.source@;
        let ghost s = self.start as int;
        let c = self.peek();
        if c == Some('/') {
            self.advance();
            while !self.is_at_end() && self.peek() != Some('\n')
                invariant
                    self.wf(),
                    self.source@ == src,
                    self.start == old(self).start,
                    self.line == old(self).line,
                    self.tokens == old(self).tokens,
                    self.errors == old(self).errors,
                    s + 2 <= self.current,
                    line_end(src, self.current as int) == line_end(src, s + 2),
                decreases src.len() - self.current,
            {
                self.advance();
            }
            Ok(())
        } else if c == Some('*') {
            self.advance();
            self.scan_comment_block()
        } else {
            self.add_token(TokenType::Slash);
            Ok(())
        }
    }

    /// Scans the one lexical unit that begins at `start`.
    fn scan_token(&mut self) -> (r: Result<(), ScanError>)
        requires
            old(self).wf(),
            old(self).start == old(self).current,
            old(self).current < old(self).source.len(),
        ensures
            final(self).wf(),
            ({
                let st = scan_one(old(self).source@, old(self).start as int, old(self).line as nat);
                took(*old(self), *final(self), st) && reports(r, st)
            }),
    {
        let c = self.advance();
        match c {
            '(' => self.add_token(TokenType::LeftParen),
            ')' => self.add_token(TokenType::RightParen),
            '{' => self.add_token(TokenType::LeftBrace),
            '}' => self.add_token(TokenType::RightBrace),
            ',' => self.add_token(TokenType::Comma),
            '.' => self.add_token(TokenType::Dot),
            '-' => self.add_token(TokenType::Minus),
            '+' => self.add_token(TokenType::Plus),
            ';' => self.add_token(TokenType::SemiColon),
            '*' => self.add_token(TokenType::Star),
            '!' => self.add_token_if_else('=', TokenType::BangEqual, TokenType::Bang),
            '=' => self.add_token_if_else('=', TokenType::Equals, TokenType::Assign),
            '<' => self.add_token_if_else('=', TokenType::LessEqual, TokenType::Less),
            '>' => self.add_token_if_else('=', TokenType::GreaterEqual, TokenType::Greater),
            '/' => return self.handle_slash(),
            ' ' | '\r' | '\t' => {},
            '\n' => self.line = self.line + 1,
            '"' => return self.scan_string(),
            _ => {
                if Scanner::is_digit(Some(c)) {
                    self.scan_number();
                } else if Scanner::is_alpha_numeric(Some(c)) {
                    self.scan_identifier();
                } else {
                    return Err(ScanError::error(self.line, ScanErrorKind::UnexpectedCharacter));
                }
            },
        }
        Ok(())
    }

    /// Scans everything from the cursor to the end of the source, then
    /// appends the end-of-input marker. Each error met is recorded and
    /// scanning goes on; the call fails with the last error it met.
    pub fn scan_tokens(&mut self) -> (r: Result<&Vec<Token>, ScanError>)
        requires
            old(self).wf(),
        ensures
            final(self).wf(),
            ({
                let (toks, errs) = scan_from(
                    old(self)@.source,
                    old(self)@.current as int,
                    old(self)@.line,
                    old(self)@.tokens,
                    old(self)@.errors,
                );
                &&& final(self)@.source == old(self)@.source
                &&& final(self)@.current == old(self)@.source.len()
                &&& final(self)@.tokens == toks
                &&& final(self)@.errors == errs
                &&& match r {
                    Ok(v) => errs.len() == old(self)@.errors.len() && views(v@) == toks,
                    Err(e) => errs.len() > old(self)@.errors.len() && e == errs.last(),
                }
            }),
    {
        let ghost goal = scan_from(
            self@.source,
            self@.current as int,
            self@.line,
            self@.tokens,
            self@.errors,
        );
        let mut had_error: Option<ScanError> = None;
        while !self.is_at_end()
            invariant
                self.wf(),
                self.source@ == old(self).source@,
                scan_from(self@.source, self@.current as int, self@.line, self@.tokens, self@.errors)
                    == goal,
                self.errors@.len() >= old(self).errors@.len(),
                match had_error {
                    Some(e) => self.errors@.len() > old(self).errors@.len() && e == self.errors@.last(),
                    None => self.errors@.len() == old(self).errors@.len(),
                },
            decreases self.source.len() - self.current,
        {
            self.start = self.current;
            proof {
                lemma_step_progress(self.source@, self.current as int, self.line as nat);
            }
            let r = self.scan_token();
            if let Err(e) = r {
                self.errors.push(e);
                had_error = Some(e);
            }
        }
        let eof = Token::eof(self.line);
        proof {
            lemma_views_push(self.tokens@, eof);
        }
        self.tokens.push(eof);
        match had_error {
            Some(e) => Err(e),
            None => Ok(&self.tokens),
        }
    }
}

/// Scans a whole source: every token, ended by the end-of-input marker, or
/// the last error met.
pub fn scan_all(source: &str) -> (r: Result<Vec<Token>, ScanError>)
    requires
        source@.len() < usize::MAX,
    ensures
        match (r, scan_result(source@)) {
            (Ok(v), Ok(toks)) => views(v@) == toks,
            (Err(e), Err(f)) => e == f,
            _ => false,
        },
{
    let mut scanner = Scanner::from_chars(chars_of(source));
    let failed = match scanner.scan_tokens() {
        Ok(_) => None,
        Err(e) => Some(e),
    };
    match failed {
        Some(e) => Err(e),
        None => Ok(scanner.into_tokens()),
    }
}

} // verus!
