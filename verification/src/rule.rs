//! Rules as they are applied: what matches, what is marked, and what is made
//! of a match.

use crate::composition::{Composition, CompositionView};
use crate::disambiguation::{
    Disambiguation,
    DisambiguationTest,
    DisambiguationTestView,
    DisambiguationView,
};
use crate::grammar::{Synthesizer, SynthesizerView};
use crate::regex::CompiledRegex;
use std::collections::HashMap;
use vstd::prelude::*;

verus! {

/// What matches tokens: a composition, and the compositions that forbid a
/// match where they match too.
pub struct TokenEngine {
    pub composition: Composition,
    pub antipatterns: Vec<Composition>,
}

/// What a rule matches with.
pub enum Engine {
    /// A pattern on the tokens of a sentence.
    Token(TokenEngine),
    /// A regular expression on the text of a sentence, with the capture
    /// group that each id stands for.
    Text(CompiledRegex, HashMap<usize, usize>),
}

/// [`Engine`] as a mathematical value.
pub enum EngineView {
    Token { composition: CompositionView, antipatterns: Seq<CompositionView> },
    Text { pattern: Seq<char>, id_to_idx: Map<usize, usize> },
}

impl View for Engine {
    type V = EngineView;

    open spec fn view(&self) -> EngineView {
        match self {
            Engine::Token(engine) => EngineView::Token {
                composition: engine.composition@,
                antipatterns: engine.antipatterns.deep_view(),
            },
            Engine::Text(regex, id_to_idx) => EngineView::Text {
                pattern: regex@,
                id_to_idx: id_to_idx@,
            },
        }
    }
}

impl DeepView for Engine {
    type V = EngineView;

    open spec fn deep_view(&self) -> EngineView {
        self@
    }
}

/// A correction offered to the writer of a text.
#[derive(Debug)]
pub struct Suggestion {
    /// The id of the rule that made the suggestion.
    pub source: String,
    pub message: String,
    /// Where the text to replace begins, in characters.
    pub start: usize,
    /// Where the text to replace ends, in characters.
    pub end: usize,
    /// The texts to put in its place, the best first.
    pub replacements: Vec<String>,
}

/// [`Suggestion`] as a mathematical value.
pub struct SuggestionView {
    pub source: Seq<char>,
    pub message: Seq<char>,
    pub start: nat,
    pub end: nat,
    pub replacements: Seq<Seq<char>>,
}

impl View for Suggestion {
    type V = SuggestionView;

    open spec fn view(&self) -> SuggestionView {
        SuggestionView {
            source: self.source@,
            message: self.message@,
            start: self.start as nat,
            end: self.end as nat,
            replacements: self.replacements.deep_view(),
        }
    }
}

impl DeepView for Suggestion {
    type V = SuggestionView;

    open spec fn deep_view(&self) -> SuggestionView {
        self@
    }
}

/// An example sentence of a rule, with the suggestion expected for it.
#[derive(Debug)]
pub struct Test {
    pub text: String,
    pub suggestion: Option<Suggestion>,
}

/// [`Test`] as a mathematical value.
pub struct TestView {
    pub text: Seq<char>,
    pub suggestion: Option<SuggestionView>,
}

impl View for Test {
    type V = TestView;

    open spec fn view(&self) -> TestView {
        TestView { text: self.text@, suggestion: self.suggestion.deep_view() }
    }
}

impl DeepView for Test {
    type V = TestView;

    open spec fn deep_view(&self) -> TestView {
        self@
    }
}

/// A rule that finds errors and suggests corrections.
pub struct Rule {
    pub id: String,
    pub engine: Engine,
    pub tests: Vec<Test>,
    /// The id of the first part that is marked.
    pub start: usize,
    /// The id of the part after the last that is marked.
    pub end: usize,
    /// The templates of the replacements, one for each alternative.
    pub suggesters: Vec<Synthesizer>,
    /// The template of the message.
    pub message: Synthesizer,
    /// Whether the rule is applied.
    pub on: bool,
}

/// [`Rule`] as a mathematical value.
pub struct RuleView {
    pub id: Seq<char>,
    pub engine: EngineView,
    pub tests: Seq<TestView>,
    pub start: usize,
    pub end: usize,
    pub suggesters: Seq<SynthesizerView>,
    pub message: SynthesizerView,
    pub on: bool,
}

impl View for Rule {
    type V = RuleView;

    open spec fn view(&self) -> RuleView {
        RuleView {
            id: self.id@,
            engine: self.engine@,
            tests: self.tests.deep_view(),
            start: self.start,
            end: self.end,
            suggesters: self.suggesters.deep_view(),
            message: self.message@,
            on: self.on,
        }
    }
}

impl DeepView for Rule {
    type V = RuleView;

    open spec fn deep_view(&self) -> RuleView {
        self@
    }
}

/// A filter asked for by name, with the arguments it was given.
#[derive(Debug)]
pub struct FilterRequest {
    pub name: String,
    pub args: Vec<(String, String)>,
}

/// [`FilterRequest`] as a mathematical value.
pub struct FilterRequestView {
    pub name: Seq<char>,
    pub args: Seq<(Seq<char>, Seq<char>)>,
}

impl View for FilterRequest {
    type V = FilterRequestView;

    open spec fn view(&self) -> FilterRequestView {
        FilterRequestView { name: self.name@, args: self.args.deep_view() }
    }
}

impl DeepView for FilterRequest {
    type V = FilterRequestView;

    open spec fn deep_view(&self) -> FilterRequestView {
        self@
    }
}

/// A rule that narrows down the analyses of the tokens it marks.
pub struct DisambiguationRule {
    pub id: String,
    pub engine: Engine,
    /// The filter from outside that may forbid the rule's action.
    pub filter: Option<FilterRequest>,
    pub disambiguations: Disambiguation,
    /// The id of the first part that is marked.
    pub start: usize,
    /// The id of the part after the last that is marked.
    pub end: usize,
    pub tests: Vec<DisambiguationTest>,
}

/// [`DisambiguationRule`] as a mathematical value.
pub struct DisambiguationRuleView {
    pub id: Seq<char>,
    pub engine: EngineView,
    pub filter: Option<FilterRequestView>,
    pub disambiguations: DisambiguationView,
    pub start: usize,
    pub end: usize,
    pub tests: Seq<DisambiguationTestView>,
}

impl View for DisambiguationRule {
    type V = DisambiguationRuleView;

    open spec fn view(&self) -> DisambiguationRuleView {
        DisambiguationRuleView {
            id: self.id@,
            engine: self.engine@,
            filter: self.filter.deep_view(),
            disambiguations: self.disambiguations@,
            start: self.start,
            end: self.end,
            tests: self.tests.deep_view(),
        }
    }
}

impl DeepView for DisambiguationRule {
    type V = DisambiguationRuleView;

    open spec fn deep_view(&self) -> DisambiguationRuleView {
        self@
    }
}

} // verus!
