//! The grammar routines and the top-level driver.
//!
//! The grammar is LL(1) and is given twice: once as total spec
//! functions over the byte sequence (the mathematical statement of what
//! a parse returns), and once as executable routines proved to return
//! exactly what the spec functions say.

use crate::ast::{lemma_view_children, view_children, Re, SpecRe};
use crate::error::{render_error, spec_error_text, ParseErrorKind};
use vstd::prelude::*;
use vstd::string::StringSliceAdditionalSpecFns;

verus! {

/// The byte scanned as the wildcard atom.
pub const DOT_BYTE: u8 = 46;

/// The byte that starts an escape.
pub const BACKSLASH_BYTE: u8 = 92;

/// The byte that opens a group.
pub const OPEN_PAREN_BYTE: u8 = 40;

/// The byte that closes a group.
pub const CLOSE_PAREN_BYTE: u8 = 41;

/// The zero-or-more quantifier byte.
pub const STAR_BYTE: u8 = 42;

/// The one-or-more quantifier byte.
pub const PLUS_BYTE: u8 = 43;

/// The outcome one grammar routine hands to its caller: a constructed
/// node plus the next unconsumed byte position, or a byte position plus
/// a structured error. Never returned to the driver's caller.
pub enum IntermediateResult {
    ParseOk(Re, usize),
    ParseErr(usize, ParseErrorKind),
}

/// The model of an `IntermediateResult` carrying one node.
pub enum SpecStep {
    Parsed(SpecRe, int),
    Failed(int, ParseErrorKind),
}

/// The model of the sequence routine's outcome: the children parsed so
/// far, not yet wrapped into a node.
pub enum SpecItems {
    Parsed(Seq<SpecRe>, int),
    Failed(int, ParseErrorKind),
}

/// What the expect helper returns: `ok` and the next position when the
/// byte at `pos` is `expected`, and otherwise an error at `pos` that
/// distinguishes a wrong byte from the end of the input.
pub open spec fn spec_expect(s: Seq<u8>, pos: int, expected: char, ok: SpecRe) -> SpecStep {
    if 0 <= pos < s.len() && s[pos] as char == expected {
        SpecStep::Parsed(ok, pos + 1)
    } else if 0 <= pos < s.len() {
        SpecStep::Failed(
            pos,
            ParseErrorKind::ExpectedCharFoundChar { expected, found: s[pos] as char },
        )
    } else {
        SpecStep::Failed(pos, ParseErrorKind::ExpectedCharFoundEof { expected })
    }
}

/// What the atom routine returns: a dispatch on the byte at `pos`,
/// which must exist. A `.` is the wildcard; a backslash takes the next
/// byte verbatim, or fails when the input ends; a `(` parses a nested
/// sequence and requires the matching `)`; a bare `)` is rejected; any
/// other byte is a literal.
pub open spec fn spec_base(s: Seq<u8>, pos: int) -> SpecStep
    recommends
        0 <= pos < s.len(),
    decreases s.len() - pos, 0int,
{
    if !(0 <= pos < s.len()) {
        arbitrary()
    } else if s[pos] == DOT_BYTE {
        SpecStep::Parsed(SpecRe::Dot, pos + 1)
    } else if s[pos] == BACKSLASH_BYTE {
        if pos + 1 == s.len() {
            SpecStep::Failed(pos + 1, ParseErrorKind::EofInEscape)
        } else {
            SpecStep::Parsed(SpecRe::Char(s[pos + 1] as char), pos + 2)
        }
    } else if s[pos] == OPEN_PAREN_BYTE {
        match spec_seq_items(s, pos + 1) {
            SpecItems::Failed(p, k) => SpecStep::Failed(p, k),
            SpecItems::Parsed(children, p) => spec_expect(
                s,
                p,
                ')',
                SpecRe::Group(Box::new(SpecRe::Sequence(children))),
            ),
        }
    } else if s[pos] == CLOSE_PAREN_BYTE {
        SpecStep::Failed(pos, ParseErrorKind::UnbalancedCloseParen)
    } else {
        SpecStep::Parsed(SpecRe::Char(s[pos] as char), pos + 1)
    }
}

/// What the repetition routine returns: one atom, wrapped in `Star` or
/// `Plus` when the single byte after the atom is `*` or `+`. Only one
/// quantifier is consumed per call, and none at the end of the input.
pub open spec fn spec_rep(s: Seq<u8>, pos: int) -> SpecStep
    recommends
        0 <= pos < s.len(),
    decreases s.len() - pos, 1int,
{
    match spec_base(s, pos) {
        SpecStep::Failed(p, k) => SpecStep::Failed(p, k),
        SpecStep::Parsed(r, p) => {
            if 0 <= p < s.len() && s[p] == STAR_BYTE {
                SpecStep::Parsed(SpecRe::Star(Box::new(r)), p + 1)
            } else if 0 <= p < s.len() && s[p] == PLUS_BYTE {
                SpecStep::Parsed(SpecRe::Plus(Box::new(r)), p + 1)
            } else {
                SpecStep::Parsed(r, p)
            }
        },
    }
}

/// What the sequence routine collects: repetitions, one after another,
/// until the input ends or a `)` appears (the `)` is left unconsumed
/// for the group that opened it). The recursion steps only over
/// positions the repetition routine actually reaches, which always
/// advance.
pub open spec fn spec_seq_items(s: Seq<u8>, pos: int) -> SpecItems
    recommends
        0 <= pos <= s.len(),
    decreases s.len() - pos, 2int,
{
    if !(0 <= pos <= s.len()) {
        arbitrary()
    } else if pos == s.len() || s[pos] == CLOSE_PAREN_BYTE {
        SpecItems::Parsed(Seq::empty(), pos)
    } else {
        match spec_rep(s, pos) {
            SpecStep::Failed(p, k) => SpecItems::Failed(p, k),
            SpecStep::Parsed(r, p1) => {
                if pos < p1 <= s.len() {
                    match spec_seq_items(s, p1) {
                        SpecItems::Failed(p, k) => SpecItems::Failed(p, k),
                        SpecItems::Parsed(rest, p2) => SpecItems::Parsed(seq![r] + rest, p2),
                    }
                } else {
                    arbitrary()
                }
            },
        }
    }
}

/// What `parse_regex` returns on the byte sequence `s`: the tree from a
/// full parse, or the rendered message of the first error, which is
/// either a grammar failure or input left over after a valid sub-parse.
pub open spec fn spec_parse(s: Seq<u8>) -> Result<SpecRe, Seq<char>> {
    match spec_seq_items(s, 0) {
        SpecItems::Failed(p, k) => Err(spec_error_text(p as nat, k)),
        SpecItems::Parsed(children, p) => {
            if p < s.len() {
                Err(
                    spec_error_text(
                        p as nat,
                        ParseErrorKind::UnexpectedTrailingCharacter { found: s[p] as char },
                    ),
                )
            } else {
                Ok(SpecRe::Sequence(children))
            }
        },
    }
}

/// Whether the executable result `r` is exactly the model `m`.
pub open spec fn step_matches(r: IntermediateResult, m: SpecStep) -> bool {
    match r {
        IntermediateResult::ParseOk(re, p) => m == SpecStep::Parsed(re@, p as int),
        IntermediateResult::ParseErr(p, k) => m == SpecStep::Failed(p as int, k),
    }
}

/// Whether the executable result `r` is the model `m` with its children
/// wrapped into a sequence node.
pub open spec fn items_match(r: IntermediateResult, m: SpecItems) -> bool {
    match r {
        IntermediateResult::ParseOk(re, p) => m matches SpecItems::Parsed(children, mp)
            && re@ == SpecRe::Sequence(children) && p as int == mp,
        IntermediateResult::ParseErr(p, k) => m == SpecItems::Failed(p as int, k),
    }
}

/// The expect helper: succeeds with `ok` when the byte at `pos` is
/// `expected`, consuming it.
fn expect_char(s: &[u8], pos: usize, expected: char, ok: Re) -> (r: IntermediateResult)
    ensures
        step_matches(r, spec_expect(s@, pos as int, expected, ok@)),
        r matches IntermediateResult::ParseOk(_, p) ==> p == pos + 1 <= s@.len(),
{
    if pos < s.len() && s[pos] as char == expected {
        IntermediateResult::ParseOk(ok, pos + 1)
    } else if pos < s.len() {
        IntermediateResult::ParseErr(
            pos,
            ParseErrorKind::ExpectedCharFoundChar { expected, found: s[pos] as char },
        )
    } else {
        IntermediateResult::ParseErr(pos, ParseErrorKind::ExpectedCharFoundEof { expected })
    }
}

/// The atom routine.
fn parse_base(s: &[u8], pos: usize) -> (r: IntermediateResult)
    requires
        pos < s@.len(),
    ensures
        step_matches(r, spec_base(s@, pos as int)),
        r matches IntermediateResult::ParseOk(_, p) ==> pos < p <= s@.len(),
    decreases s@.len() - pos, 0int,
{
    let c = s[pos];
    if c == DOT_BYTE {
        IntermediateResult::ParseOk(Re::ReDot, pos + 1)
    } else if c == BACKSLASH_BYTE {
        if pos + 1 == s.len() {
            IntermediateResult::ParseErr(pos + 1, ParseErrorKind::EofInEscape)
        } else {
            IntermediateResult::ParseOk(Re::ReChar(s[pos + 1] as char), pos + 2)
        }
    } else if c == OPEN_PAREN_BYTE {
        match parse_seq(s, pos + 1) {
            IntermediateResult::ParseErr(p, k) => IntermediateResult::ParseErr(p, k),
            IntermediateResult::ParseOk(inner, p) => expect_char(
                s,
                p,
                ')',
                Re::ReGroup(Box::new(inner)),
            ),
        }
    } else if c == CLOSE_PAREN_BYTE {
        IntermediateResult::ParseErr(pos, ParseErrorKind::UnbalancedCloseParen)
    } else {
        IntermediateResult::ParseOk(Re::ReChar(c as char), pos + 1)
    }
}

/// The repetition routine.
fn parse_rep(s: &[u8], pos: usize) -> (r: IntermediateResult)
    requires
        pos < s@.len(),
    ensures
        step_matches(r, spec_rep(s@, pos as int)),
        r matches IntermediateResult::ParseOk(_, p) ==> pos < p <= s@.len(),
    decreases s@.len() - pos, 1int,
{
    match parse_base(s, pos) {
        IntermediateResult::ParseErr(p, k) => IntermediateResult::ParseErr(p, k),
        IntermediateResult::ParseOk(inner, p) => {
            if p < s.len() && s[p] == STAR_BYTE {
                IntermediateResult::ParseOk(Re::ReStar(Box::new(inner)), p + 1)
            } else if p < s.len() && s[p] == PLUS_BYTE {
                IntermediateResult::ParseOk(Re::RePlus(Box::new(inner)), p + 1)
            } else {
                IntermediateResult::ParseOk(inner, p)
            }
        },
    }
}

/// Prepends already-parsed children in front of a sequence outcome.
pub open spec fn items_with_prefix(prefix: Seq<SpecRe>, m: SpecItems) -> SpecItems {
    match m {
        SpecItems::Parsed(rest, p) => SpecItems::Parsed(prefix + rest, p),
        SpecItems::Failed(p, k) => SpecItems::Failed(p, k),
    }
}

/// The sequence routine.
fn parse_seq(s: &[u8], pos: usize) -> (r: IntermediateResult)
    requires
        pos <= s@.len(),
    ensures
        items_match(r, spec_seq_items(s@, pos as int)),
        r matches IntermediateResult::ParseOk(_, p) ==> pos <= p <= s@.len(),
    decreases s@.len() - pos, 2int,
{
    let mut children: Vec<Re> = Vec::new();
    let mut cur: usize = pos;
    while cur < s.len() && s[cur] != CLOSE_PAREN_BYTE
        invariant
            pos <= cur <= s@.len(),
            spec_seq_items(s@, pos as int) == items_with_prefix(
                view_children(children@),
                spec_seq_items(s@, cur as int),
            ),
        decreases s@.len() - cur,
    {
        match parse_rep(s, cur) {
            IntermediateResult::ParseErr(p, k) => {
                return IntermediateResult::ParseErr(p, k);
            },
            IntermediateResult::ParseOk(node, p1) => {
                proof {
                    let prefix = view_children(children@);
                    let with_node = view_children(children@.push(node));
                    assert(children@.push(node).subrange(
                        0,
                        children@.push(node).len() - 1,
                    ) =~= children@);
                    assert(with_node == prefix.push(node@));
                    assert(prefix.push(node@) =~= prefix + seq![node@]);
                    match spec_seq_items(s@, p1 as int) {
                        SpecItems::Parsed(rest, p2) => {
                            assert(prefix + (seq![node@] + rest) =~= (prefix + seq![node@])
                                + rest);
                        },
                        SpecItems::Failed(_, _) => {},
                    }
                }
                children.push(node);
                cur = p1;
            },
        }
    }
    proof {
        let prefix = view_children(children@);
        assert(prefix + Seq::<SpecRe>::empty() =~= prefix);
        lemma_view_children(children@);
    }
    IntermediateResult::ParseOk(Re::ReSeq(children), cur)
}

/// Whether `b` has no special role in the grammar: it is not the
/// wildcard, not the escape, not a parenthesis, and not a quantifier.
pub open spec fn is_literal_byte(b: u8) -> bool {
    b != DOT_BYTE && b != BACKSLASH_BYTE && b != OPEN_PAREN_BYTE && b != CLOSE_PAREN_BYTE
        && b != STAR_BYTE && b != PLUS_BYTE
}

proof fn lemma_literal_bytes_items(s: Seq<u8>, pos: int)
    requires
        0 <= pos <= s.len(),
        forall|i: int| 0 <= i < s.len() ==> is_literal_byte(#[trigger] s[i]),
    ensures
        spec_seq_items(s, pos) == SpecItems::Parsed(
            Seq::new((s.len() - pos) as nat, |i: int| SpecRe::Char(s[pos + i] as char)),
            s.len() as int,
        ),
    decreases s.len() - pos,
{
    if pos < s.len() {
        assert(is_literal_byte(s[pos]));
        assert(spec_base(s, pos) == SpecStep::Parsed(SpecRe::Char(s[pos] as char), pos + 1));
        assert(pos + 1 < s.len() ==> is_literal_byte(s[pos + 1]));
        assert(spec_rep(s, pos) == SpecStep::Parsed(SpecRe::Char(s[pos] as char), pos + 1));
        lemma_literal_bytes_items(s, pos + 1);
        assert(seq![SpecRe::Char(s[pos] as char)] + Seq::new(
            (s.len() - pos - 1) as nat,
            |i: int| SpecRe::Char(s[pos + 1 + i] as char),
        ) =~= Seq::new((s.len() - pos) as nat, |i: int| SpecRe::Char(s[pos + i] as char)));
    } else {
        assert(Seq::<SpecRe>::empty() =~= Seq::new(
            0,
            |i: int| SpecRe::Char(s[pos + i] as char),
        ));
    }
}

/// Law: an input consisting solely of literal bytes parses successfully
/// to a sequence of literal-character nodes, one per byte and in input
/// order, with no quantifier or group wrapping.
pub proof fn lemma_literal_bytes_parse(s: Seq<u8>)
    requires
        forall|i: int| 0 <= i < s.len() ==> is_literal_byte(#[trigger] s[i]),
    ensures
        spec_parse(s) == Ok::<SpecRe, Seq<char>>(
            SpecRe::Sequence(Seq::new(s.len(), |i: int| SpecRe::Char(s[i] as char))),
        ),
{
    lemma_literal_bytes_items(s, 0);
    assert(Seq::new(s.len(), |i: int| SpecRe::Char(s[0 + i] as char)) =~= Seq::new(
        s.len(),
        |i: int| SpecRe::Char(s[i] as char),
    ));
}

/// Parses a pattern given as a byte string into its syntax tree.
///
/// The whole input must be consumed: a valid sub-parse that stops early
/// reports the first unconsumed byte. Every failure is rendered as
/// `"at position {pos}, {message}"`, with `pos` a byte offset. The
/// contract ties the result to `spec_parse` of the input's bytes alone,
/// so repeated calls on one input return identical results.
pub fn parse_regex(input: &str) -> (r: Result<Re, String>)
    ensures
        (r is Ok) == (spec_parse(input.spec_bytes()) is Ok),
        r matches Ok(re) ==> spec_parse(input.spec_bytes()) matches Ok(m) && re@ == m,
        r matches Err(msg) ==> spec_parse(input.spec_bytes()) matches Err(m) && msg@ == m,
{
    let s: &[u8] = input.as_bytes();
    match parse_seq(s, 0) {
        IntermediateResult::ParseErr(p, k) => Err(render_error(p, k)),
        IntermediateResult::ParseOk(re, p) => {
            if p < s.len() {
                Err(
                    render_error(
                        p,
                        ParseErrorKind::UnexpectedTrailingCharacter { found: s[p] as char },
                    ),
                )
            } else {
                Ok(re)
            }
        },
    }
}

} // verus!
