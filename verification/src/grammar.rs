//! Templates that turn a match into the text of a suggestion or a message.

use crate::composition::{Matcher, MatcherView};
use crate::regex::CompiledRegex;
use vstd::prelude::*;

verus! {

/// A change of case made to the text that a reference resolves to.
#[derive(Debug, Clone, Copy, PartialEq, Eq, Structural)]
pub enum Conversion {
    Nop,
    AllLower,
    StartLower,
    StartUpper,
    AllUpper,
}

/// Replaces a word by a form of it that has a wanted tag.
pub struct PosReplacer {
    pub matcher: Matcher,
}

/// [`PosReplacer`] as a mathematical value.
pub struct PosReplacerView {
    pub matcher: MatcherView,
}

impl View for PosReplacer {
    type V = PosReplacerView;

    open spec fn view(&self) -> PosReplacerView {
        PosReplacerView { matcher: self.matcher@ }
    }
}

impl DeepView for PosReplacer {
    type V = PosReplacerView;

    open spec fn deep_view(&self) -> PosReplacerView {
        self@
    }
}

impl PosReplacer {
    pub fn new(matcher: Matcher) -> (replacer: PosReplacer)
        ensures
            replacer@.matcher == matcher@,
    {
        PosReplacer { matcher }
    }
}

/// A reference to what the part with number `id` matched, and what is done
/// to that text: in turn a replacement of the word's form, a replacement by
/// regular expression, and a change of case.
pub struct Match {
    pub id: usize,
    pub conversion: Conversion,
    pub pos_replacer: Option<PosReplacer>,
    pub regex_replacer: Option<(CompiledRegex, String)>,
}

/// [`Match`] as a mathematical value.
pub struct MatchView {
    pub id: nat,
    pub conversion: Conversion,
    pub pos_replacer: Option<PosReplacerView>,
    /// The pattern to find and the text to put in its place.
    pub regex_replacer: Option<(Seq<char>, Seq<char>)>,
}

impl MatchView {
    /// The reference to part `id` that changes nothing.
    pub open spec fn plain(id: nat) -> MatchView {
        MatchView { id, conversion: Conversion::Nop, pos_replacer: None, regex_replacer: None }
    }
}

impl View for Match {
    type V = MatchView;

    open spec fn view(&self) -> MatchView {
        MatchView {
            id: self.id as nat,
            conversion: self.conversion,
            pos_replacer: self.pos_replacer.deep_view(),
            regex_replacer: match self.regex_replacer {
                Some((regex, replacement)) => Some((regex@, replacement@)),
                None => None,
            },
        }
    }
}

impl Match {
    pub fn new(
        id: usize,
        conversion: Conversion,
        pos_replacer: Option<PosReplacer>,
        regex_replacer: Option<(CompiledRegex, String)>,
    ) -> (m: Match)
        ensures
            m.id == id,
            m.conversion == conversion,
            m.pos_replacer == pos_replacer,
            m.regex_replacer == regex_replacer,
    {
        Match { id, conversion, pos_replacer, regex_replacer }
    }
}

/// One piece of a template.
pub enum SynthesizerPart {
    /// Text that is copied as it stands.
    Text(String),
    /// Text taken from the match.
    Match(Match),
}

/// [`SynthesizerPart`] as a mathematical value.
pub enum SynthesizerPartView {
    Text(Seq<char>),
    Match(MatchView),
}

impl View for SynthesizerPart {
    type V = SynthesizerPartView;

    open spec fn view(&self) -> SynthesizerPartView {
        match self {
            SynthesizerPart::Text(text) => SynthesizerPartView::Text(text@),
            SynthesizerPart::Match(m) => SynthesizerPartView::Match(m@),
        }
    }
}

impl DeepView for SynthesizerPart {
    type V = SynthesizerPartView;

    open spec fn deep_view(&self) -> SynthesizerPartView {
        self@
    }
}

/// A template: its pieces in order, and whether the text made from it takes
/// a capital first letter where the matched text had one.
pub struct Synthesizer {
    pub parts: Vec<SynthesizerPart>,
    pub use_titlecase_adjust: bool,
}

/// [`Synthesizer`] as a mathematical value.
pub struct SynthesizerView {
    pub parts: Seq<SynthesizerPartView>,
    pub use_titlecase_adjust: bool,
}

impl View for Synthesizer {
    type V = SynthesizerView;

    open spec fn view(&self) -> SynthesizerView {
        SynthesizerView {
            parts: self.parts.deep_view(),
            use_titlecase_adjust: self.use_titlecase_adjust,
        }
    }
}

impl DeepView for Synthesizer {
    type V = SynthesizerView;

    open spec fn deep_view(&self) -> SynthesizerView {
        self@
    }
}

} // verus!
