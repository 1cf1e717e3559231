use vstd::prelude::*;
use crate::text::{chars_of, collect_chars};

verus! {

/// The three kinds of lexical error.
#[derive(Clone, Copy, Debug, PartialEq, Eq, Structural)]
pub enum ScanErrorKind {
    UnexpectedCharacter,
    UnterminatedString,
    UnterminatedComment,
}

/// A lexical error tied to the source line on which it was detected.
#[derive(Clone, Copy, Debug, PartialEq, Eq, Structural)]
pub struct ScanError {
    pub line: usize,
    pub kind: ScanErrorKind,
}

/// The message text of each error kind.
pub open spec fn message_of(kind: ScanErrorKind) -> Seq<char> {
    match kind {
        ScanErrorKind::UnexpectedCharacter => "unexpected character"@,
        ScanErrorKind::UnterminatedString => "Unterminated string"@,
        ScanErrorKind::UnterminatedComment => "Unterminated comment"@,
    }
}

/// The decimal digit for `d < 10`.
pub open spec fn digit(d: nat) -> char {
    if d == 0 { '0' }
    else if d == 1 { '1' }
    else if d == 2 { '2' }
    else if d == 3 { '3' }
    else if d == 4 { '4' }
    else if d == 5 { '5' }
    else if d == 6 { '6' }
    else if d == 7 { '7' }
    else if d == 8 { '8' }
    else { '9' }
}

/// The decimal notation of `n`, without leading zeros.
pub open spec fn decimal(n: nat) -> Seq<char>
    decreases n,
{
    if n < 10 {
        seq![digit(n)]
    } else {
        decimal(n / 10).push(digit(n % 10))
    }
}

/// The diagnostic line for an error: `[line <n>] Error<context>: <message>`.
pub open spec fn report_text(e: ScanError, context: Seq<char>) -> Seq<char> {
    "[line "@ + decimal(e.line as nat) + "] Error"@ + context + ": "@ + message_of(e.kind)
}

fn digit_char(d: usize) -> (r: char)
    requires
        d < 10,
    ensures
        r == digit(d as nat),
{
    if d == 0 { '0' }
    else if d == 1 { '1' }
    else if d == 2 { '2' }
    else if d == 3 { '3' }
    else if d == 4 { '4' }
    else if d == 5 { '5' }
    else if d == 6 { '6' }
    else if d == 7 { '7' }
    else if d == 8 { '8' }
    else { '9' }
}

/// Appends the decimal notation of `n`.
fn push_decimal(out: &mut Vec<char>, n: usize)
    ensures
        final(out)@ == old(out)@ + decimal(n as nat),
    decreases n,
{
    if n >= 10 {
        push_decimal(out, n / 10);
    }
    out.push(digit_char(n % 10));
    assert(out@ =~= old(out)@ + decimal(n as nat));
}

impl ScanError {
    pub fn error(line: usize, kind: ScanErrorKind) -> (r: ScanError)
        ensures
            r == (ScanError { line, kind }),
    {
        ScanError { line, kind }
    }

    /// The human-readable message of this error.
    pub fn message(&self) -> (r: String)
        ensures
            r@ == message_of(self.kind),
    {
        match self.kind {
            ScanErrorKind::UnexpectedCharacter => "unexpected character".to_string(),
            ScanErrorKind::UnterminatedString => "Unterminated string".to_string(),
            ScanErrorKind::UnterminatedComment => "Unterminated comment".to_string(),
        }
    }

    /// The line that reports this error, with `context` after the word `Error`.
    pub fn report(&self, context: &str) -> (r: String)
        ensures
            r@ == report_text(*self, context@),
    {
        let mut head = chars_of("[line ");
        push_decimal(&mut head, self.line);
        let mut r = collect_chars(&head, 0, head.len());
        assert(head@.subrange(0, head@.len() as int) =~= head@);
        r.append("] Error");
        r.append(context);
        r.append(": ");
        let m = self.message();
        r.append(m.as_str());
        r
    }
}

} // verus!
