//! The abstract syntax tree built by the parser, together with its
//! mathematical model.

use vstd::prelude::*;

verus! {

/// A node of the pattern's abstract syntax tree. The tree is finite,
/// acyclic, and immutable once the parser returns it; equality is
/// structural.
#[derive(Debug, PartialEq, Eq)]
pub enum Re {
    /// Matches exactly the one literal character carried.
    ReChar(char),
    /// Matches any single character.
    ReDot,
    /// Zero-or-more repetition of the single child.
    ReStar(Box<Re>),
    /// One-or-more repetition of the single child.
    RePlus(Box<Re>),
    /// An ordered concatenation of zero or more children.
    ReSeq(Vec<Re>),
    /// A parenthesized sub-expression, kept distinct from a bare
    /// sequence for the benefit of later consumers.
    ReGroup(Box<Re>),
}

/// The mathematical model of an AST node: the same tree shape with a
/// `Seq` in place of the `Vec` of children.
pub enum SpecRe {
    Char(char),
    Dot,
    Star(Box<SpecRe>),
    Plus(Box<SpecRe>),
    Sequence(Seq<SpecRe>),
    Group(Box<SpecRe>),
}

impl View for Re {
    type V = SpecRe;

    open spec fn view(&self) -> SpecRe
        decreases self,
    {
        match self {
            Re::ReChar(c) => SpecRe::Char(*c),
            Re::ReDot => SpecRe::Dot,
            Re::ReStar(inner) => SpecRe::Star(Box::new((**inner).view())),
            Re::RePlus(inner) => SpecRe::Plus(Box::new((**inner).view())),
            Re::ReSeq(children) => SpecRe::Sequence(view_children(children@)),
            Re::ReGroup(inner) => SpecRe::Group(Box::new((**inner).view())),
        }
    }
}

/// The models of a sequence of AST nodes, in order.
pub open spec fn view_children(s: Seq<Re>) -> Seq<SpecRe>
    decreases s,
{
    if s.len() == 0 {
        Seq::empty()
    } else {
        view_children(s.subrange(0, s.len() - 1)).push(s[s.len() - 1].view())
    }
}

/// Each model in `view_children` is the model of the node at the same
/// index.
pub proof fn lemma_view_children(s: Seq<Re>)
    ensures
        view_children(s).len() == s.len(),
        forall|i: int| 0 <= i < s.len() ==> view_children(s)[i] == #[trigger] s[i]@,
    decreases s.len(),
{
    if s.len() > 0 {
        let prefix = s.subrange(0, s.len() - 1);
        lemma_view_children(prefix);
        assert(view_children(s) == view_children(prefix).push(s[s.len() - 1]@));
        assert forall|i: int| 0 <= i < s.len() implies view_children(s)[i] == #[trigger] s[i]@ by {
            if i < s.len() - 1 {
                assert(prefix[i] == s[i]);
                assert(view_children(prefix).push(s[s.len() - 1]@)[i] == view_children(prefix)[i]);
            } else {
                assert(view_children(prefix).push(s[s.len() - 1]@)[i] == s[s.len() - 1]@);
            }
        }
    }
}

} // verus!
