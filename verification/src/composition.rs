//! What a pattern is made of: matchers on strings, atoms on tokens, and
//! quantified parts in a row.

use crate::regex::CompiledRegex;
use vstd::prelude::*;

verus! {

/// The most repeats that one part of a pattern may ask for.
pub const MAX_MATCHES: usize = 20;

/// What a literal matcher compares its input with.
pub enum MatcherTarget {
    /// A fixed text.
    Text(String),
    /// The text that the part with this id matched earlier in the same pattern.
    Reference(usize),
}

/// [`MatcherTarget`] as a mathematical value.
pub enum MatcherTargetView {
    Text(Seq<char>),
    Reference(usize),
}

impl View for MatcherTarget {
    type V = MatcherTargetView;

    open spec fn view(&self) -> MatcherTargetView {
        match self {
            MatcherTarget::Text(t) => MatcherTargetView::Text(t@),
            MatcherTarget::Reference(id) => MatcherTargetView::Reference(*id),
        }
    }
}

/// A test on one string: against a literal or against a regular expression.
pub enum Matcher {
    /// Compares with a literal, with or without regard to case.
    String { target: MatcherTarget, negate: bool, case_sensitive: bool, inflected: bool },
    /// Runs a compiled pattern.
    Regex { regex: CompiledRegex, negate: bool, inflected: bool },
}

/// [`Matcher`] as a mathematical value.
pub enum MatcherView {
    String { target: MatcherTargetView, negate: bool, case_sensitive: bool, inflected: bool },
    Regex { pattern: Seq<char>, negate: bool, inflected: bool },
}

impl View for Matcher {
    type V = MatcherView;

    open spec fn view(&self) -> MatcherView {
        match self {
            Matcher::String { target, negate, case_sensitive, inflected } => MatcherView::String {
                target: target@,
                negate: *negate,
                case_sensitive: *case_sensitive,
                inflected: *inflected,
            },
            Matcher::Regex { regex, negate, inflected } => MatcherView::Regex {
                pattern: regex@,
                negate: *negate,
                inflected: *inflected,
            },
        }
    }
}

impl DeepView for Matcher {
    type V = MatcherView;

    open spec fn deep_view(&self) -> MatcherView {
        self@
    }
}

impl Matcher {
    /// A matcher against a literal or a back-reference.
    pub fn new_string(target: MatcherTarget, negate: bool, case_sensitive: bool, inflected: bool) -> (m:
        Matcher)
        ensures
            m@ == (MatcherView::String { target: target@, negate, case_sensitive, inflected }),
    {
        Matcher::String { target, negate, case_sensitive, inflected }
    }

    /// A matcher that runs `regex`.
    pub fn new_regex(regex: CompiledRegex, negate: bool, inflected: bool) -> (m: Matcher)
        ensures
            m@ == (MatcherView::Regex { pattern: regex@, negate, inflected }),
    {
        Matcher::Regex { regex, negate, inflected }
    }
}

/// A test on the token at one place of a sentence.
pub enum Atom {
    /// Holds of every token.
    True,
    /// Tests the token's text.
    Text(Matcher),
    /// Holds if one analysis of the token passes both matchers: `pos` on its
    /// tag and `lemma` on its lemma. A matcher that is absent passes.
    WordData { pos: Option<Matcher>, lemma: Option<Matcher>, case_sensitive: bool },
    /// Tests the token's chunk tags.
    Chunk(Matcher),
    /// Tests whether white space stands before the token.
    SpaceBefore(bool),
    /// Holds if all of the atoms hold.
    And(Vec<Atom>),
    /// Holds if one of the atoms holds.
    Or(Vec<Atom>),
    /// Holds if the atom does not.
    Not(Box<Atom>),
    /// Tests the token that stands the given number of places further on.
    Offset(Box<Atom>, isize),
}

/// [`Atom`] as a mathematical value.
pub enum AtomView {
    True,
    Text(MatcherView),
    WordData { pos: Option<MatcherView>, lemma: Option<MatcherView>, case_sensitive: bool },
    Chunk(MatcherView),
    SpaceBefore(bool),
    And(Seq<AtomView>),
    Or(Seq<AtomView>),
    Not(Box<AtomView>),
    Offset(Box<AtomView>, int),
}

impl Atom {
    /// The atom as a mathematical value.
    pub open spec fn model(&self) -> AtomView
        decreases self,
    {
        match self {
            Atom::True => AtomView::True,
            Atom::Text(m) => AtomView::Text(m@),
            Atom::WordData { pos, lemma, case_sensitive } => AtomView::WordData {
                pos: pos.deep_view(),
                lemma: lemma.deep_view(),
                case_sensitive: *case_sensitive,
            },
            Atom::Chunk(m) => AtomView::Chunk(m@),
            Atom::SpaceBefore(value) => AtomView::SpaceBefore(*value),
            Atom::And(atoms) => AtomView::And(
                Seq::new(
                    atoms.len() as nat,
                    |i: int|
                        if 0 <= i < atoms.len() {
                            atoms[i].model()
                        } else {
                            AtomView::True
                        },
                ),
            ),
            Atom::Or(atoms) => AtomView::Or(
                Seq::new(
                    atoms.len() as nat,
                    |i: int|
                        if 0 <= i < atoms.len() {
                            atoms[i].model()
                        } else {
                            AtomView::True
                        },
                ),
            ),
            Atom::Not(atom) => AtomView::Not(Box::new(atom.model())),
            Atom::Offset(atom, offset) => AtomView::Offset(Box::new(atom.model()), *offset as int),
        }
    }
}

impl View for Atom {
    type V = AtomView;

    open spec fn view(&self) -> AtomView {
        self.model()
    }
}

impl DeepView for Atom {
    type V = AtomView;

    open spec fn deep_view(&self) -> AtomView {
        self@
    }
}

impl AtomView {
    /// The conjunction of `atoms`: the atom itself where there is just one.
    pub open spec fn and(atoms: Seq<AtomView>) -> AtomView {
        if atoms.len() == 1 {
            atoms[0]
        } else {
            AtomView::And(atoms)
        }
    }

    /// The disjunction of `atoms`: the atom itself where there is just one.
    pub open spec fn or(atoms: Seq<AtomView>) -> AtomView {
        if atoms.len() == 1 {
            atoms[0]
        } else {
            AtomView::Or(atoms)
        }
    }

    /// The atom that tests with `atom` the token `offset` places further on:
    /// `atom` itself where `offset` is zero.
    pub open spec fn shifted(atom: AtomView, offset: int) -> AtomView {
        if offset == 0 {
            atom
        } else {
            AtomView::Offset(Box::new(atom), offset)
        }
    }
}

impl Atom {
    /// The conjunction of `atoms`. One atom stands for itself; none at all
    /// make a conjunction that holds of every token.
    pub fn and(atoms: Vec<Atom>) -> (atom: Atom)
        ensures
            atom@ == AtomView::and(atoms.deep_view()),
    {
        let mut atoms = atoms;
        let ghost all = atoms.deep_view();
        if atoms.len() == 1 {
            atoms.remove(0)
        } else {
            let atom = Atom::And(atoms);
            assert(atom@->And_0 =~= all);
            atom
        }
    }

    /// The disjunction of `atoms`. One atom stands for itself; none at all
    /// make a disjunction that holds of no token.
    pub fn or(atoms: Vec<Atom>) -> (atom: Atom)
        ensures
            atom@ == AtomView::or(atoms.deep_view()),
    {
        let mut atoms = atoms;
        let ghost all = atoms.deep_view();
        if atoms.len() == 1 {
            atoms.remove(0)
        } else {
            let atom = Atom::Or(atoms);
            assert(atom@->Or_0 =~= all);
            atom
        }
    }

    /// The negation of `atom`.
    pub fn not(atom: Atom) -> (negated: Atom)
        ensures
            negated@ == AtomView::Not(Box::new(atom@)),
    {
        Atom::Not(Box::new(atom))
    }

    /// `atom`, applied to the token `offset` places further on.
    pub fn offset(atom: Atom, offset: isize) -> (shifted: Atom)
        ensures
            shifted@ == AtomView::shifted(atom@, offset as int),
    {
        if offset == 0 {
            atom
        } else {
            Atom::Offset(Box::new(atom), offset)
        }
    }
}

/// How often a part may repeat: at least `min` times and at most `max` times,
/// where `min <= max <= 20`.
pub struct Quantifier {
    min: usize,
    max: usize,
}

/// [`Quantifier`] as a mathematical value.
pub struct QuantifierView {
    pub min: nat,
    pub max: nat,
}

impl QuantifierView {
    /// The bounds are in order and within the cap.
    pub open spec fn valid(self) -> bool {
        self.min <= self.max <= MAX_MATCHES
    }
}

impl View for Quantifier {
    type V = QuantifierView;

    closed spec fn view(&self) -> QuantifierView {
        QuantifierView { min: self.min as nat, max: self.max as nat }
    }
}

impl DeepView for Quantifier {
    type V = QuantifierView;

    open spec fn deep_view(&self) -> QuantifierView {
        self@
    }
}

impl Quantifier {
    #[verifier::type_invariant]
    spec fn well_formed(self) -> bool {
        self.min <= self.max <= MAX_MATCHES
    }

    /// The quantifier with these bounds, if they are in order and within the
    /// cap.
    pub fn new(min: usize, max: usize) -> (q: Option<Quantifier>)
        ensures
            q is Some <==> min <= max <= MAX_MATCHES,
            q matches Some(quantifier) ==> quantifier@ == (QuantifierView {
                min: min as nat,
                max: max as nat,
            }),
    {
        if min <= max && max <= MAX_MATCHES {
            Some(Quantifier { min, max })
        } else {
            None
        }
    }

    /// The quantifier of a part that matches exactly one token.
    pub fn once() -> (q: Quantifier)
        ensures
            q@ == (QuantifierView { min: 1, max: 1 }),
    {
        Quantifier { min: 1, max: 1 }
    }

    /// The least number of repeats.
    pub fn min(&self) -> (min: usize)
        ensures
            min == self@.min,
            self@.valid(),
    {
        proof {
            use_type_invariant(self);
        }
        self.min
    }

    /// The greatest number of repeats.
    pub fn max(&self) -> (max: usize)
        ensures
            max == self@.max,
            self@.valid(),
    {
        proof {
            use_type_invariant(self);
        }
        self.max
    }
}

/// One step of a pattern: an atom, how often it may repeat, and whether the
/// step counts when the steps are numbered.
pub struct Part {
    pub atom: Atom,
    pub quantifier: Quantifier,
    pub visible: bool,
}

/// [`Part`] as a mathematical value.
pub struct PartView {
    pub atom: AtomView,
    pub quantifier: QuantifierView,
    pub visible: bool,
}

impl View for Part {
    type V = PartView;

    open spec fn view(&self) -> PartView {
        PartView { atom: self.atom@, quantifier: self.quantifier@, visible: self.visible }
    }
}

impl DeepView for Part {
    type V = PartView;

    open spec fn deep_view(&self) -> PartView {
        self@
    }
}

impl Part {
    pub fn new(atom: Atom, quantifier: Quantifier, visible: bool) -> (part: Part)
        ensures
            part@ == (PartView { atom: atom@, quantifier: quantifier@, visible }),
    {
        Part { atom, quantifier, visible }
    }
}

/// How many of `parts` are visible.
pub open spec fn visible_count(parts: Seq<PartView>) -> nat
    decreases parts.len(),
{
    if parts.len() == 0 {
        0
    } else {
        visible_count(parts.drop_last()) + if parts.last().visible {
            1nat
        } else {
            0nat
        }
    }
}

/// The id that the next visible part after `parts` would get. Visible parts
/// are numbered from 1 in their order; the others have no number.
pub open spec fn last_id(parts: Seq<PartView>) -> nat {
    1 + visible_count(parts)
}

/// A pattern: parts that match a run of tokens one after the other.
pub struct Composition {
    pub parts: Vec<Part>,
}

/// [`Composition`] as a mathematical value.
pub struct CompositionView {
    pub parts: Seq<PartView>,
}

impl View for Composition {
    type V = CompositionView;

    open spec fn view(&self) -> CompositionView {
        CompositionView { parts: self.parts.deep_view() }
    }
}

impl DeepView for Composition {
    type V = CompositionView;

    open spec fn deep_view(&self) -> CompositionView {
        self@
    }
}

impl Composition {
    pub fn new(parts: Vec<Part>) -> (composition: Composition)
        ensures
            composition@.parts == parts.deep_view(),
    {
        Composition { parts }
    }
}

} // verus!
