//! Structured parse errors and their rendering into the human-readable
//! messages the parser reports.

use vstd::prelude::*;
use vstd::string::StringExecFns;

verus! {

/// What went wrong, without the position at which it went wrong; the
/// position travels beside the kind in the intermediate parse result.
#[derive(Debug, Clone, Copy, PartialEq, Eq)]
pub enum ParseErrorKind {
    /// A specific character was required but another one was present.
    ExpectedCharFoundChar { expected: char, found: char },
    /// A specific character was required but the input ended.
    ExpectedCharFoundEof { expected: char },
    /// The input ended immediately after a backslash.
    EofInEscape,
    /// A `)` appeared where an atom was required.
    UnbalancedCloseParen,
    /// A valid sub-parse stopped before the end of the input; only the
    /// top-level driver reports this kind.
    UnexpectedTrailingCharacter { found: char },
}

/// The decimal digits of `n`, most significant first.
pub open spec fn spec_digits(n: nat) -> Seq<char>
    decreases n,
{
    if n < 10 {
        seq![spec_digit_char(n)]
    } else {
        spec_digits(n / 10).push(spec_digit_char(n % 10))
    }
}

/// The character for a single decimal digit.
pub open spec fn spec_digit_char(d: nat) -> char {
    ((48 + d) as u8) as char
}

/// The message text for an error kind, without the position prefix.
pub open spec fn spec_message(kind: ParseErrorKind) -> Seq<char> {
    match kind {
        ParseErrorKind::ExpectedCharFoundChar { expected, found } =>
            "expected '"@ + seq![expected] + "', found '"@ + seq![found] + "'"@,
        ParseErrorKind::ExpectedCharFoundEof { expected } =>
            "expected '"@ + seq![expected] + "', found EOF"@,
        ParseErrorKind::EofInEscape => "EOF in escape"@,
        ParseErrorKind::UnbalancedCloseParen => "Unbalanced close paren"@,
        ParseErrorKind::UnexpectedTrailingCharacter { found } =>
            "unexpected character '"@ + seq![found] + "'"@,
    }
}

/// The full error string reported by the parser: the position prefix
/// followed by the message for the kind.
pub open spec fn spec_error_text(pos: nat, kind: ParseErrorKind) -> Seq<char> {
    "at position "@ + spec_digits(pos) + ", "@ + spec_message(kind)
}

/// Relies on `String::push`: appends the one given character at the end
/// of the string.
#[verifier::external_body]
fn push_char(s: &mut String, c: char)
    ensures
        final(s)@ == old(s)@.push(c),
{
    s.push(c);
}

/// The character for the decimal digit `d`.
fn digit_char(d: u8) -> (c: char)
    requires
        d < 10,
    ensures
        c == spec_digit_char(d as nat),
{
    let c = (48 + d) as char;
    c
}

/// Appends the decimal digits of `n` to `out`.
fn push_digits(out: &mut String, n: usize)
    ensures
        final(out)@ == old(out)@ + spec_digits(n as nat),
    decreases n,
{
    if n < 10 {
        push_char(out, digit_char(n as u8));
    } else {
        push_digits(out, n / 10);
        push_char(out, digit_char((n % 10) as u8));
    }
    assert(out@ =~= old(out)@ + spec_digits(n as nat));
}

/// Renders an error kind at a byte position into the reported string.
pub fn render_error(pos: usize, kind: ParseErrorKind) -> (r: String)
    ensures
        r@ == spec_error_text(pos as nat, kind),
{
    let mut out = String::new();
    out.append("at position ");
    push_digits(&mut out, pos);
    out.append(", ");
    match kind {
        ParseErrorKind::ExpectedCharFoundChar { expected, found } => {
            out.append("expected '");
            push_char(&mut out, expected);
            out.append("', found '");
            push_char(&mut out, found);
            out.append("'");
        }
        ParseErrorKind::ExpectedCharFoundEof { expected } => {
            out.append("expected '");
            push_char(&mut out, expected);
            out.append("', found EOF");
        }
        ParseErrorKind::EofInEscape => {
            out.append("EOF in escape");
        }
        ParseErrorKind::UnbalancedCloseParen => {
            out.append("Unbalanced close paren");
        }
        ParseErrorKind::UnexpectedTrailingCharacter { found } => {
            out.append("unexpected character '");
            push_char(&mut out, found);
            out.append("'");
        }
    }
    assert(out@ =~= spec_error_text(pos as nat, kind));
    out
}

} // verus!
