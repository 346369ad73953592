//! Applying rules to sentences.

use crate::composition::{Composition, CompositionView};
use crate::engine::match_at;
use crate::find::{all_matches, find_all};
use crate::grammar::SynthesizerView;
use crate::rule::{
    DisambiguationRule,
    DisambiguationRuleView,
    Engine,
    EngineView,
    Rule,
    RuleView,
    Suggestion,
    SuggestionView,
};
use crate::tokens::{Sentence, SentenceView, Token, TokenView};
use crate::views::{empty_view, push_view};
use std::collections::HashMap;
use vstd::prelude::*;

verus! {

/// Whether two runs of tokens have a token in common.
pub open spec fn overlaps(a: (usize, usize), b: (usize, usize)) -> bool {
    a.0 < b.1 && b.0 < a.1
}

/// Whether `antipattern` matches from the token at `j` on and its match has
/// a token in common with `run`.
pub open spec fn veto_at(
    antipattern: CompositionView,
    tokens: Seq<TokenView>,
    j: int,
    run: (usize, usize),
) -> bool {
    match match_at(antipattern.parts, tokens, j) {
        Some(graph) => overlaps(graph[0], run),
        None => false,
    }
}

/// Whether one of `antipatterns` matches somewhere in the sentence with a
/// token in common with `run`.
pub open spec fn vetoed(
    antipatterns: Seq<CompositionView>,
    tokens: Seq<TokenView>,
    run: (usize, usize),
) -> bool {
    exists|k: int, j: int|
        0 <= k < antipatterns.len() && 0 <= j < tokens.len() && #[trigger] veto_at(
            antipatterns[k],
            tokens,
            j,
            run,
        )
}

impl EngineView {
    /// The match of the engine from the token at `i` on, unless an
    /// antipattern forbids it. An engine on text matches no tokens.
    pub open spec fn allowed_match(self, tokens: Seq<TokenView>, i: int) -> Option<
        Seq<(usize, usize)>,
    > {
        match self {
            EngineView::Token { composition, antipatterns } => match match_at(
                composition.parts,
                tokens,
                i,
            ) {
                Some(graph) => if vetoed(antipatterns, tokens, graph[0]) {
                    None
                } else {
                    Some(graph)
                },
                None => None,
            },
            EngineView::Text { .. } => None,
        }
    }

    /// The matches of the engine that begin at the token at `i` or later
    /// and that no antipattern forbids, in the order of where they begin.
    pub open spec fn allowed_matches(self, tokens: Seq<TokenView>, i: int) -> Seq<
        Seq<(usize, usize)>,
    >
        decreases tokens.len() - i,
    {
        if 0 <= i < tokens.len() {
            (match self.allowed_match(tokens, i) {
                Some(graph) => seq![graph],
                None => seq![],
            }) + self.allowed_matches(tokens, i + 1)
        } else {
            seq![]
        }
    }
}

/// A match that an antipattern overlaps is no match of the engine.
pub proof fn lemma_antipattern_veto(
    composition: CompositionView,
    antipatterns: Seq<CompositionView>,
    tokens: Seq<TokenView>,
    i: int,
    k: int,
    j: int,
)
    requires
        0 <= k < antipatterns.len(),
        0 <= j < tokens.len(),
        match_at(composition.parts, tokens, i) matches Some(graph) && veto_at(
            antipatterns[k],
            tokens,
            j,
            graph[0],
        ),
    ensures
        (EngineView::Token { composition, antipatterns }).allowed_match(tokens, i) is None,
{
}

/// A rule on tokens of which every match is overlapped by an antipattern
/// makes no suggestion.
pub proof fn lemma_vetoed_rule_is_silent(rule: RuleView, sentence: SentenceView)
    requires
        rule.engine is Token,
        forall|i: int|
            0 <= i < sentence.tokens.len() ==> (#[trigger] match_at(
                rule.engine->Token_composition.parts,
                sentence.tokens,
                i,
            ) matches Some(graph) ==> vetoed(
                rule.engine->Token_antipatterns,
                sentence.tokens,
                graph[0],
            )),
    ensures
        rule.suggestions(sentence) == Seq::<SuggestionView>::empty(),
{
    lemma_no_allowed_matches(rule.engine, sentence.tokens, 0);
    assert(rule.matches(sentence) =~= Seq::empty());
}

proof fn lemma_no_allowed_matches(engine: EngineView, tokens: Seq<TokenView>, i: int)
    requires
        engine is Token,
        forall|j: int|
            0 <= j < tokens.len() ==> (#[trigger] match_at(
                engine->Token_composition.parts,
                tokens,
                j,
            ) matches Some(graph) ==> vetoed(engine->Token_antipatterns, tokens, graph[0])),
    ensures
        engine.allowed_matches(tokens, i) == Seq::<Seq<(usize, usize)>>::empty(),
    decreases tokens.len() - i,
{
    if 0 <= i < tokens.len() {
        lemma_no_allowed_matches(engine, tokens, i + 1);
        assert(engine.allowed_match(tokens, i) is None);
        assert(Seq::<Seq<(usize, usize)>>::empty() + Seq::<Seq<(usize, usize)>>::empty()
            =~= Seq::<Seq<(usize, usize)>>::empty());
    }
}

fn is_vetoed(antipatterns: &Vec<Composition>, tokens: &Vec<Token>, run: (usize, usize)) -> (r:
    bool)
    ensures
        r == vetoed(antipatterns.deep_view(), tokens.deep_view(), run),
{
    let ghost all = antipatterns.deep_view();
    let mut k: usize = 0;
    while k < antipatterns.len()
        invariant
            k <= antipatterns.len(),
            all == antipatterns.deep_view(),
            forall|a: int, j: int|
                0 <= a < k && 0 <= j < tokens.len() ==> !#[trigger] veto_at(
                    all[a],
                    tokens.deep_view(),
                    j,
                    run,
                ),
        decreases antipatterns.len() - k,
    {
        assert(all[k as int] == antipatterns@[k as int]@);
        let antipattern = &antipatterns[k];
        let mut j: usize = 0;
        while j < tokens.len()
            invariant
                j <= tokens.len(),
                k < antipatterns.len(),
                all == antipatterns.deep_view(),
                all[k as int] == antipattern@,
                forall|b: int|
                    0 <= b < j ==> !#[trigger] veto_at(all[k as int], tokens.deep_view(), b, run),
            decreases tokens.len() - j,
        {
            match antipattern.apply(tokens, j) {
                Some(graph) => {
                    if graph[0].0 < run.1 && run.0 < graph[0].1 {
                        assert(veto_at(all[k as int], tokens.deep_view(), j as int, run));
                        return true;
                    }
                },
                None => {},
            }
            j += 1;
        }
        k += 1;
    }
    false
}

impl Engine {
    /// The match of the engine from the token at `i` on, unless an
    /// antipattern forbids it.
    pub fn allowed_match(&self, tokens: &Vec<Token>, i: usize) -> (graph: Option<
        Vec<(usize, usize)>,
    >)
        ensures
            graph.deep_view() == self@.allowed_match(tokens.deep_view(), i as int),
    {
        match self {
            Engine::Token(engine) => {
                match engine.composition.apply(tokens, i) {
                    Some(graph) => {
                        if is_vetoed(&engine.antipatterns, tokens, graph[0]) {
                            None
                        } else {
                            Some(graph)
                        }
                    },
                    None => None,
                }
            },
            Engine::Text(_, _) => None,
        }
    }

    /// The matches of the engine in the sentence that no antipattern
    /// forbids, in the order of where they begin.
    pub fn allowed_matches(&self, tokens: &Vec<Token>) -> (graphs: Vec<Vec<(usize, usize)>>)
        ensures
            graphs.deep_view() == self@.allowed_matches(tokens.deep_view(), 0),
    {
        let mut graphs: Vec<Vec<(usize, usize)>> = Vec::new();
        let mut i: usize = 0;
        let ghost all = self@.allowed_matches(tokens.deep_view(), 0);
        assert(graphs.deep_view() + all =~= all);
        while i < tokens.len()
            invariant
                i <= tokens.len(),
                all == self@.allowed_matches(tokens.deep_view(), 0),
                all == graphs.deep_view() + self@.allowed_matches(tokens.deep_view(), i as int),
            decreases tokens.len() - i,
        {
            let ghost done = graphs.deep_view();
            let ghost rest = self@.allowed_matches(tokens.deep_view(), i + 1);
            match self.allowed_match(tokens, i) {
                Some(graph) => {
                    push_view(&mut graphs, graph);
                    assert(done + (seq![graph.deep_view()] + rest) =~= done.push(graph.deep_view())
                        + rest);
                },
                None => {
                    assert(done + (Seq::<Seq<(usize, usize)>>::empty() + rest) =~= done + rest);
                },
            }
            i += 1;
        }
        assert(graphs.deep_view() + Seq::<Seq<(usize, usize)>>::empty() =~= graphs.deep_view());
        graphs
    }
}

/// The run of tokens that the parts with the ids from `start` up to `end`
/// matched together: from the first token of the first to the last token of
/// the last.
pub open spec fn marked_run(graph: Seq<(usize, usize)>, start: usize, end: usize) -> Option<
    (usize, usize),
> {
    if start < end <= graph.len() {
        Some((graph[start as int].0, graph[end - 1].1))
    } else {
        None
    }
}

/// Where the tokens of `run` stand in the text, in characters: from the
/// start of the first to the end of the last. A run without a token, or
/// with tokens out of order, stands nowhere.
pub open spec fn char_span(tokens: Seq<TokenView>, run: (usize, usize)) -> Option<(usize, usize)> {
    if run.0 < run.1 <= tokens.len() && tokens[run.0 as int].char_span.0 <= tokens[run.1
        - 1].char_span.1 {
        Some((tokens[run.0 as int].char_span.0, tokens[run.1 - 1].char_span.1))
    } else {
        None
    }
}

/// What a match on tokens says to a template: for every id the characters
/// that its part spans, and the characters that the marked parts span.
pub open spec fn token_spans(
    tokens: Seq<TokenView>,
    graph: Seq<(usize, usize)>,
    start: usize,
    end: usize,
) -> (Seq<Option<(usize, usize)>>, Option<(usize, usize)>) {
    (
        Seq::new(graph.len(), |id: int| char_span(tokens, graph[id])),
        match marked_run(graph, start, end) {
            Some(run) => char_span(tokens, run),
            None => None,
        },
    )
}

/// The span of the group that `id` stands for in a match on text.
pub open spec fn group_of(
    groups: Seq<Option<(usize, usize)>>,
    id_to_idx: Map<usize, usize>,
    id: int,
) -> Option<(usize, usize)> {
    if 0 <= id <= usize::MAX && id_to_idx.contains_key(id as usize) && id_to_idx[id as usize]
        < groups.len() {
        groups[id_to_idx[id as usize] as int]
    } else {
        None
    }
}

/// The characters that the ids from `start` up to `end` span together in a
/// match on text: from the start of the first to the end of the last.
pub open spec fn marked_span(spans: Seq<Option<(usize, usize)>>, start: usize, end: usize) -> Option<
    (usize, usize),
> {
    if start < end <= spans.len() {
        match (spans[start as int], spans[end - 1]) {
            (Some(first), Some(last)) if first.0 <= last.1 => Some((first.0, last.1)),
            _ => None,
        }
    } else {
        None
    }
}

/// What a match on text says to a template: for every id the characters of
/// its group, and the characters that the marked ids span.
pub open spec fn text_spans(
    groups: Seq<Option<(usize, usize)>>,
    id_to_idx: Map<usize, usize>,
    start: usize,
    end: usize,
) -> (Seq<Option<(usize, usize)>>, Option<(usize, usize)>) {
    let spans = Seq::new(groups.len(), |id: int| group_of(groups, id_to_idx, id));
    (spans, marked_span(spans, start, end))
}

/// The texts that the templates `suggesters` come to for a match, leaving
/// out those that come to nothing.
pub open spec fn replacements_model(
    suggesters: Seq<SynthesizerView>,
    text: Seq<char>,
    groups: Seq<Option<(usize, usize)>>,
    marked: Option<(usize, usize)>,
) -> Seq<Seq<char>>
    decreases suggesters.len(),
{
    if suggesters.len() == 0 {
        seq![]
    } else {
        (match suggesters[0].applied(text, groups, marked) {
            Some(made) => seq![made],
            None => seq![],
        }) + replacements_model(suggesters.drop_first(), text, groups, marked)
    }
}

impl RuleView {
    /// What the matches of the rule in a sentence say to its templates, in
    /// the order of where the matches begin. A rule on tokens matches where
    /// its composition does and no antipattern forbids it; a rule on text
    /// matches where its regular expression does.
    pub open spec fn matches(self, sentence: SentenceView) -> Seq<
        (Seq<Option<(usize, usize)>>, Option<(usize, usize)>),
    > {
        match self.engine {
            EngineView::Token { .. } => {
                let graphs = self.engine.allowed_matches(sentence.tokens, 0);
                Seq::new(
                    graphs.len(),
                    |i: int| token_spans(sentence.tokens, graphs[i], self.start, self.end),
                )
            },
            EngineView::Text { pattern, id_to_idx } => {
                let found = all_matches(pattern, sentence.text);
                Seq::new(
                    found.len(),
                    |i: int| text_spans(found[i], id_to_idx, self.start, self.end),
                )
            },
        }
    }

    /// The suggestion that the rule makes for a match: for the characters
    /// that it marks, the replacements that its templates come to, with its
    /// message. It makes none where the marked span is empty of tokens or
    /// does not lie in the text, where no replacement can be made, and
    /// where the message cannot.
    pub open spec fn suggestion(
        self,
        text: Seq<char>,
        groups: Seq<Option<(usize, usize)>>,
        marked: Option<(usize, usize)>,
    ) -> Option<SuggestionView> {
        match marked {
            Some(span) if span.0 <= span.1 <= text.len() => {
                let replacements = replacements_model(self.suggesters, text, groups, marked);
                match self.message.applied(text, groups, marked) {
                    Some(message) if replacements.len() > 0 => Some(
                        SuggestionView {
                            source: self.id,
                            message,
                            start: span.0 as nat,
                            end: span.1 as nat,
                            replacements,
                        },
                    ),
                    _ => None,
                }
            },
            _ => None,
        }
    }

    /// The suggestions that the rule makes for `matches`, in their order.
    pub open spec fn suggestions_for(
        self,
        text: Seq<char>,
        matches: Seq<(Seq<Option<(usize, usize)>>, Option<(usize, usize)>)>,
    ) -> Seq<SuggestionView>
        decreases matches.len(),
    {
        if matches.len() == 0 {
            seq![]
        } else {
            (match self.suggestion(text, matches[0].0, matches[0].1) {
                Some(s) => seq![s],
                None => seq![],
            }) + self.suggestions_for(text, matches.drop_first())
        }
    }

    /// The suggestions that the rule makes for a sentence: one for each of
    /// its matches, in the order of where the matches begin.
    pub open spec fn suggestions(self, sentence: SentenceView) -> Seq<SuggestionView> {
        self.suggestions_for(sentence.text, self.matches(sentence))
    }
}

/// Finds the run of tokens that the parts with the ids from `start` up to
/// `end` matched together.
pub fn find_marked_run(graph: &Vec<(usize, usize)>, start: usize, end: usize) -> (run: Option<
    (usize, usize),
>)
    ensures
        run == marked_run(graph@, start, end),
{
    if start < end && end <= graph.len() {
        Some((graph[start].0, graph[end - 1].1))
    } else {
        None
    }
}

/// Finds where the tokens of `run` stand in the text.
pub fn find_char_span(tokens: &Vec<Token>, run: (usize, usize)) -> (span: Option<(usize, usize)>)
    ensures
        span == char_span(tokens.deep_view(), run),
{
    if run.0 < run.1 && run.1 <= tokens.len() {
        assert(tokens.deep_view()[run.0 as int] == tokens@[run.0 as int]@);
        assert(tokens.deep_view()[run.1 - 1] == tokens@[run.1 - 1]@);
        let from = tokens[run.0].char_span.0;
        let to = tokens[run.1 - 1].char_span.1;
        if from <= to {
            Some((from, to))
        } else {
            None
        }
    } else {
        None
    }
}

fn spans_of_tokens(tokens: &Vec<Token>, graph: &Vec<(usize, usize)>, start: usize, end: usize) -> (spans:
    (Vec<Option<(usize, usize)>>, Option<(usize, usize)>))
    ensures
        spans.deep_view() == token_spans(tokens.deep_view(), graph@, start, end),
{
    let mut groups: Vec<Option<(usize, usize)>> = Vec::new();
    let mut id: usize = 0;
    while id < graph.len()
        invariant
            id <= graph.len(),
            groups.len() == id,
            forall|k: int|
                0 <= k < id ==> #[trigger] groups@[k] == char_span(tokens.deep_view(), graph@[k]),
        decreases graph.len() - id,
    {
        groups.push(find_char_span(tokens, graph[id]));
        id += 1;
    }
    let marked = match find_marked_run(graph, start, end) {
        Some(run) => find_char_span(tokens, run),
        None => None,
    };
    assert(groups.deep_view() =~= token_spans(tokens.deep_view(), graph@, start, end).0) by {
        assert(groups.deep_view() =~= groups@);
    }
    (groups, marked)
}

fn spans_of_text(
    found: &Vec<Option<(usize, usize)>>,
    id_to_idx: &HashMap<usize, usize>,
    start: usize,
    end: usize,
) -> (spans: (Vec<Option<(usize, usize)>>, Option<(usize, usize)>))
    ensures
        spans.deep_view() == text_spans(found@, id_to_idx@, start, end),
{
    broadcast use vstd::std_specs::hash::group_hash_axioms;

    let mut groups: Vec<Option<(usize, usize)>> = Vec::new();
    let mut id: usize = 0;
    while id < found.len()
        invariant
            id <= found.len(),
            groups.len() == id,
            forall|k: int|
                0 <= k < id ==> #[trigger] groups@[k] == group_of(found@, id_to_idx@, k),
        decreases found.len() - id,
    {
        let group = match id_to_idx.get(&id) {
            Some(idx) => if *idx < found.len() {
                found[*idx]
            } else {
                None
            },
            None => None,
        };
        groups.push(group);
        id += 1;
    }
    let marked = if start < end && end <= groups.len() {
        match (groups[start], groups[end - 1]) {
            (Some(first), Some(last)) => if first.0 <= last.1 {
                Some((first.0, last.1))
            } else {
                None
            },
            _ => None,
        }
    } else {
        None
    };
    assert(groups.deep_view() =~= text_spans(found@, id_to_idx@, start, end).0) by {
        assert(groups.deep_view() =~= groups@);
    }
    (groups, marked)
}

impl Rule {
    /// What the matches of the rule in a sentence say to its templates.
    pub fn matches(&self, sentence: &Sentence) -> (matches: Vec<
        (Vec<Option<(usize, usize)>>, Option<(usize, usize)>),
    >)
        ensures
            matches.deep_view() == self@.matches(sentence@),
    {
        let mut matches: Vec<(Vec<Option<(usize, usize)>>, Option<(usize, usize)>)> = Vec::new();
        match &self.engine {
            Engine::Token(_) => {
                let tokens = sentence.tokens();
                let graphs = self.engine.allowed_matches(tokens);
                let mut i: usize = 0;
                while i < graphs.len()
                    invariant
                        i <= graphs.len(),
                        matches.len() == i,
                        forall|k: int|
                            0 <= k < i ==> (#[trigger] matches@[k]).deep_view() == token_spans(
                                tokens.deep_view(),
                                graphs@[k]@,
                                self.start,
                                self.end,
                            ),
                    decreases graphs.len() - i,
                {
                    matches.push(spans_of_tokens(tokens, &graphs[i], self.start, self.end));
                    i += 1;
                }
                assert(matches.deep_view() =~= self@.matches(sentence@)) by {
                    let wanted = self@.engine.allowed_matches(sentence@.tokens, 0);
                    assert(graphs.deep_view() == wanted);
                    assert forall|k: int| 0 <= k < graphs.len() implies graphs@[k]@
                        == #[trigger] wanted[k] by {
                        assert(graphs.deep_view()[k] == graphs@[k].deep_view());
                        assert(graphs@[k].deep_view() =~= graphs@[k]@);
                    }
                }
            },
            Engine::Text(regex, id_to_idx) => {
                let found = find_all(regex, sentence.text());
                let mut i: usize = 0;
                while i < found.len()
                    invariant
                        i <= found.len(),
                        matches.len() == i,
                        forall|k: int|
                            0 <= k < i ==> (#[trigger] matches@[k]).deep_view() == text_spans(
                                found@[k]@,
                                id_to_idx@,
                                self.start,
                                self.end,
                            ),
                    decreases found.len() - i,
                {
                    matches.push(spans_of_text(&found[i], id_to_idx, self.start, self.end));
                    i += 1;
                }
                assert(matches.deep_view() =~= self@.matches(sentence@)) by {
                    let wanted = all_matches(regex@, sentence@.text);
                    assert(found.deep_view() == wanted);
                    assert forall|k: int| 0 <= k < found.len() implies found@[k]@
                        == #[trigger] wanted[k] by {
                        assert(found.deep_view()[k] == found@[k].deep_view());
                        assert(found@[k].deep_view() =~= found@[k]@);
                    }
                }
            },
        }
        matches
    }

    fn replacements(&self, text: &str, groups: &Vec<Option<(usize, usize)>>, marked: Option<(usize, usize)>) -> (out:
        Vec<String>)
        ensures
            out.deep_view() == replacements_model(self@.suggesters, text@, groups@, marked),
    {
        let mut out: Vec<String> = empty_view();
        let mut i: usize = 0;
        let ghost all = self.suggesters.deep_view();
        assert(all.skip(0) =~= all);
        assert(out.deep_view() + replacements_model(all, text@, groups@, marked)
            =~= replacements_model(all, text@, groups@, marked));
        while i < self.suggesters.len()
            invariant
                i <= self.suggesters.len(),
                all == self.suggesters.deep_view(),
                replacements_model(all, text@, groups@, marked) == out.deep_view()
                    + replacements_model(all.skip(i as int), text@, groups@, marked),
            decreases self.suggesters.len() - i,
        {
            let ghost done = out.deep_view();
            let ghost rest = replacements_model(all.skip(i + 1), text@, groups@, marked);
            assert(all.skip(i as int).drop_first() =~= all.skip(i + 1));
            assert(all.skip(i as int)[0] == self.suggesters@[i as int]@);
            match self.suggesters[i].apply(text, groups, marked) {
                Some(made) => {
                    push_view(&mut out, made);
                    assert(done + (seq![made@] + rest) =~= done.push(made@) + rest);
                },
                None => {
                    assert(done + (Seq::<Seq<char>>::empty() + rest) =~= done + rest);
                },
            }
            i += 1;
        }
        assert(out.deep_view() + Seq::<Seq<char>>::empty() =~= out.deep_view());
        out
    }

    /// The suggestion that the rule makes for a match in `text`, of which
    /// `groups` holds the span of every id and `marked` is the span that
    /// the rule marks.
    pub fn suggest(
        &self,
        text: &str,
        groups: &Vec<Option<(usize, usize)>>,
        marked: Option<(usize, usize)>,
    ) -> (suggestion: Option<Suggestion>)
        ensures
            suggestion.deep_view() == self@.suggestion(text@, groups@, marked),
    {
        let span = marked?;
        if !(span.0 <= span.1 && span.1 <= vstd::string::StrSliceExecFns::unicode_len(text)) {
            return None;
        }
        let replacements = self.replacements(text, groups, marked);
        let message = self.message.apply(text, groups, marked)?;
        if replacements.len() > 0 {
            Some(
                Suggestion {
                    source: self.id.clone(),
                    message,
                    start: span.0,
                    end: span.1,
                    replacements,
                },
            )
        } else {
            None
        }
    }

    /// The suggestions that the rule makes for a sentence.
    pub fn apply(&self, sentence: &Sentence) -> (suggestions: Vec<Suggestion>)
        ensures
            suggestions.deep_view() == self@.suggestions(sentence@),
    {
        let matches = self.matches(sentence);
        let text = sentence.text();
        let mut suggestions: Vec<Suggestion> = empty_view();
        let mut i: usize = 0;
        let ghost all = matches.deep_view();
        assert(all.skip(0) =~= all);
        assert(suggestions.deep_view() + self@.suggestions_for(text@, all)
            =~= self@.suggestions_for(text@, all));
        while i < matches.len()
            invariant
                i <= matches.len(),
                all == matches.deep_view(),
                self@.suggestions_for(text@, all) == suggestions.deep_view()
                    + self@.suggestions_for(text@, all.skip(i as int)),
            decreases matches.len() - i,
        {
            let ghost done = suggestions.deep_view();
            let ghost rest = self@.suggestions_for(text@, all.skip(i + 1));
            assert(all.skip(i as int).drop_first() =~= all.skip(i + 1));
            assert(all.skip(i as int)[0] == matches@[i as int].deep_view());
            assert(matches@[i as int].0.deep_view() =~= matches@[i as int].0@);
            match self.suggest(text, &matches[i].0, matches[i].1) {
                Some(suggestion) => {
                    push_view(&mut suggestions, suggestion);
                    assert(done + (seq![suggestion@] + rest) =~= done.push(suggestion@) + rest);
                },
                None => {
                    assert(done + (Seq::<SuggestionView>::empty() + rest) =~= done + rest);
                },
            }
            i += 1;
        }
        assert(suggestions.deep_view() + Seq::<SuggestionView>::empty()
            =~= suggestions.deep_view());
        suggestions
    }
}

impl DisambiguationRuleView {
    /// The tokens after the rule has changed them for the match `graph`:
    /// its disambiguation is carried out on the tokens that the marked
    /// parts matched.
    pub open spec fn changed(self, tokens: Seq<TokenView>, graph: Seq<(usize, usize)>) -> Seq<
        TokenView,
    > {
        match marked_run(graph, self.start, self.end) {
            Some(run) => self.disambiguations.applied(tokens, run.0 as int, run.1 as int),
            None => tokens,
        }
    }

    /// The tokens after the rule has changed them for the matches `graphs`
    /// from the `k`th on, one after the other, leaving out those that the
    /// filter forbids: `vetoes` says for each match in turn whether it
    /// does, and what it does not speak of is allowed.
    pub open spec fn changed_all(
        self,
        tokens: Seq<TokenView>,
        graphs: Seq<Seq<(usize, usize)>>,
        vetoes: Seq<bool>,
        k: int,
    ) -> Seq<TokenView>
        decreases graphs.len() - k,
    {
        if 0 <= k < graphs.len() {
            self.changed_all(
                if k < vetoes.len() && vetoes[k] {
                    tokens
                } else {
                    self.changed(tokens, graphs[k])
                },
                graphs,
                vetoes,
                k + 1,
            )
        } else {
            tokens
        }
    }
}

impl DisambiguationRule {
    /// The matches of the rule in the sentence that no antipattern forbids,
    /// in the order of where they begin.
    pub fn find(&self, tokens: &Vec<Token>) -> (graphs: Vec<Vec<(usize, usize)>>)
        ensures
            graphs.deep_view() == self@.engine.allowed_matches(tokens.deep_view(), 0),
    {
        self.engine.allowed_matches(tokens)
    }

    /// Carries out the disambiguation for the match `graph`, on the tokens
    /// that the marked parts matched.
    pub fn change(&self, tokens: &mut Vec<Token>, graph: &Vec<(usize, usize)>)
        ensures
            final(tokens).deep_view() == self@.changed(old(tokens).deep_view(), graph@),
    {
        match find_marked_run(graph, self.start, self.end) {
            Some(run) => {
                self.disambiguations.apply(tokens, run.0, run.1);
            },
            None => {},
        }
    }

    /// Applies the rule to a sentence: finds its matches and carries out
    /// the disambiguation for each in turn, but for those that the filter
    /// of the rule forbids. `vetoes` says for each match in turn whether it
    /// does; what it does not speak of is allowed.
    pub fn apply(&self, tokens: &mut Vec<Token>, vetoes: &Vec<bool>)
        ensures
            final(tokens).deep_view() == self@.changed_all(
                old(tokens).deep_view(),
                self@.engine.allowed_matches(old(tokens).deep_view(), 0),
                vetoes@,
                0,
            ),
    {
        let graphs = self.find(tokens);
        let ghost before = tokens.deep_view();
        let ghost all = graphs.deep_view();
        let mut k: usize = 0;
        while k < graphs.len()
            invariant
                k <= graphs.len(),
                all == graphs.deep_view(),
                self@.changed_all(before, all, vetoes@, 0) == self@.changed_all(
                    tokens.deep_view(),
                    all,
                    vetoes@,
                    k as int,
                ),
            decreases graphs.len() - k,
        {
            assert(all[k as int] == graphs@[k as int].deep_view());
            assert(graphs@[k as int].deep_view() =~= graphs@[k as int]@);
            if !(k < vetoes.len() && vetoes[k]) {
                self.change(tokens, &graphs[k]);
            }
            k += 1;
        }
    }
}

} // verus!
