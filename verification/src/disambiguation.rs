//! What a disambiguation rule does to the analyses of the tokens it matched.

use crate::regex::CompiledRegex;
use vstd::prelude::*;

verus! {

/// One analysis of a word: its base form and its part-of-speech tag.
#[derive(Debug)]
pub struct OwnedWordData {
    pub lemma: String,
    pub pos: String,
}

/// [`OwnedWordData`] as a mathematical value.
pub struct WordDataView {
    pub lemma: Seq<char>,
    pub pos: Seq<char>,
}

impl View for OwnedWordData {
    type V = WordDataView;

    open spec fn view(&self) -> WordDataView {
        WordDataView { lemma: self.lemma@, pos: self.pos@ }
    }
}

impl DeepView for OwnedWordData {
    type V = WordDataView;

    open spec fn deep_view(&self) -> WordDataView {
        self@
    }
}

impl OwnedWordData {
    pub fn new(lemma: String, pos: String) -> (data: OwnedWordData)
        ensures
            data@ == (WordDataView { lemma: lemma@, pos: pos@ }),
    {
        OwnedWordData { lemma, pos }
    }
}

impl Clone for OwnedWordData {
    fn clone(&self) -> (copy: OwnedWordData)
        ensures
            copy@ == self@,
    {
        OwnedWordData { lemma: self.lemma.clone(), pos: self.pos.clone() }
    }
}

/// A word with its candidate analyses.
#[derive(Debug)]
pub struct OwnedWord {
    pub text: String,
    pub tags: Vec<OwnedWordData>,
}

/// [`OwnedWord`] as a mathematical value.
pub struct WordView {
    pub text: Seq<char>,
    pub tags: Seq<WordDataView>,
}

impl View for OwnedWord {
    type V = WordView;

    open spec fn view(&self) -> WordView {
        WordView { text: self.text@, tags: self.tags.deep_view() }
    }
}

impl DeepView for OwnedWord {
    type V = WordView;

    open spec fn deep_view(&self) -> WordView {
        self@
    }
}

/// A test on part-of-speech tags.
pub enum POSFilter {
    /// Passes the tags that the regular expression matches.
    Regex(CompiledRegex),
    /// Passes this one tag.
    String(String),
}

/// [`POSFilter`] as a mathematical value.
pub enum POSFilterView {
    Regex(Seq<char>),
    String(Seq<char>),
}

impl View for POSFilter {
    type V = POSFilterView;

    open spec fn view(&self) -> POSFilterView {
        match self {
            POSFilter::Regex(regex) => POSFilterView::Regex(regex@),
            POSFilter::String(tag) => POSFilterView::String(tag@),
        }
    }
}

impl DeepView for POSFilter {
    type V = POSFilterView;

    open spec fn deep_view(&self) -> POSFilterView {
        self@
    }
}

/// What picks analyses out: one literal analysis, or a filter on tags.
pub enum Selector {
    WordData(OwnedWordData),
    Filter(POSFilter),
}

/// [`Selector`] as a mathematical value.
pub enum SelectorView {
    WordData(WordDataView),
    Filter(POSFilterView),
}

impl View for Selector {
    type V = SelectorView;

    open spec fn view(&self) -> SelectorView {
        match self {
            Selector::WordData(data) => SelectorView::WordData(data@),
            Selector::Filter(filter) => SelectorView::Filter(filter@),
        }
    }
}

impl DeepView for Selector {
    type V = SelectorView;

    open spec fn deep_view(&self) -> SelectorView {
        self@
    }
}

/// What is done to the analyses of the tokens in the marked span.
pub enum Disambiguation {
    /// Takes away the analyses that one of the selectors picks.
    Remove(Vec<Selector>),
    /// Adds these analyses.
    Add(Vec<OwnedWordData>),
    /// Puts these analyses in place of those that were there.
    Replace(Vec<OwnedWordData>),
    /// Keeps, for each token in turn, the analyses that its selector picks;
    /// a token without a selector keeps all.
    Filter(Vec<Option<Selector>>),
    /// Makes the tokens agree: the values that each feature can take, each
    /// token's own filter, and which tokens take part.
    Unify(Vec<Vec<POSFilter>>, Vec<Option<POSFilter>>, Vec<bool>),
    /// Leaves the tokens as they are.
    Nop,
}

/// [`Disambiguation`] as a mathematical value.
pub enum DisambiguationView {
    Remove(Seq<SelectorView>),
    Add(Seq<WordDataView>),
    Replace(Seq<WordDataView>),
    Filter(Seq<Option<SelectorView>>),
    Unify(Seq<Seq<POSFilterView>>, Seq<Option<POSFilterView>>, Seq<bool>),
    Nop,
}

impl View for Disambiguation {
    type V = DisambiguationView;

    open spec fn view(&self) -> DisambiguationView {
        match self {
            Disambiguation::Remove(selectors) => DisambiguationView::Remove(selectors.deep_view()),
            Disambiguation::Add(datas) => DisambiguationView::Add(datas.deep_view()),
            Disambiguation::Replace(datas) => DisambiguationView::Replace(datas.deep_view()),
            Disambiguation::Filter(selectors) => DisambiguationView::Filter(selectors.deep_view()),
            Disambiguation::Unify(features, filters, mask) => DisambiguationView::Unify(
                features.deep_view(),
                filters.deep_view(),
                mask@,
            ),
            Disambiguation::Nop => DisambiguationView::Nop,
        }
    }
}

impl DeepView for Disambiguation {
    type V = DisambiguationView;

    open spec fn deep_view(&self) -> DisambiguationView {
        self@
    }
}

/// What a disambiguation rule is expected to change in an example sentence.
pub struct DisambiguationChange {
    pub text: String,
    /// Where the changed word stands, in characters.
    pub char_span: (usize, usize),
    pub before: OwnedWord,
    pub after: OwnedWord,
}

/// [`DisambiguationChange`] as a mathematical value.
pub struct DisambiguationChangeView {
    pub text: Seq<char>,
    pub char_span: (nat, nat),
    pub before: WordView,
    pub after: WordView,
}

impl View for DisambiguationChange {
    type V = DisambiguationChangeView;

    open spec fn view(&self) -> DisambiguationChangeView {
        DisambiguationChangeView {
            text: self.text@,
            char_span: (self.char_span.0 as nat, self.char_span.1 as nat),
            before: self.before@,
            after: self.after@,
        }
    }
}

impl DeepView for DisambiguationChange {
    type V = DisambiguationChangeView;

    open spec fn deep_view(&self) -> DisambiguationChangeView {
        self@
    }
}

/// An example sentence of a disambiguation rule.
pub enum DisambiguationTest {
    /// The rule leaves the sentence as it is.
    Unchanged(String),
    /// The rule changes the analyses of one word.
    Changed(DisambiguationChange),
}

/// [`DisambiguationTest`] as a mathematical value.
pub enum DisambiguationTestView {
    Unchanged(Seq<char>),
    Changed(DisambiguationChangeView),
}

impl View for DisambiguationTest {
    type V = DisambiguationTestView;

    open spec fn view(&self) -> DisambiguationTestView {
        match self {
            DisambiguationTest::Unchanged(text) => DisambiguationTestView::Unchanged(text@),
            DisambiguationTest::Changed(change) => DisambiguationTestView::Changed(change@),
        }
    }
}

impl DeepView for DisambiguationTest {
    type V = DisambiguationTestView;

    open spec fn deep_view(&self) -> DisambiguationTestView {
        self@
    }
}

} // verus!
