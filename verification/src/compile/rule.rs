//! From the definition of a rule to the rule.

use crate::compile::attributes::{yes_no, yes_no_model};
use crate::compile::pattern::{parse_pattern, pattern_model};
use crate::compile::suggest::{
    match_model,
    parse_match,
    parse_suggestion,
    parse_synthesizer_text,
    suggestion_model,
    template_model,
};
use crate::compile::token::not_a_number;
use crate::composition::{Composition, CompositionView};
use crate::error::{prepend, result_view, Error, ErrorView};
use crate::grammar::{Synthesizer, SynthesizerPart, SynthesizerPartView, SynthesizerView};
use crate::regex::{capture_count, compiled, CompiledRegex};
use crate::rule::{
    Engine,
    EngineView,
    Rule,
    RuleView,
    Suggestion,
    SuggestionView,
    Test,
    TestView,
    TokenEngine,
};
use crate::structure;
use crate::text::{capitalize, capitalized, decimal_usize, parse_usize, pieces, same_text, split};
use crate::views::{append_view, empty_view, push_view};
use std::collections::HashMap;
use vstd::prelude::*;
use vstd::string::StrSliceExecFns;
use vstd::string::StringExecFns;

verus! {

/// The composition that `pattern` describes, without the span it marks.
pub open spec fn composition_model(pattern: structure::Pattern) -> Result<
    CompositionView,
    ErrorView,
> {
    match pattern_model(pattern) {
        Err(e) => Err(e),
        Ok(read) => Ok(read.0),
    }
}

fn parse_composition(pattern: &structure::Pattern) -> (res: Result<Composition, Error>)
    ensures
        result_view(res) == composition_model(*pattern),
{
    let (composition, _, _) = parse_pattern(pattern)?;
    Ok(composition)
}

/// The compositions of the patterns `patterns`, in their order.
pub open spec fn compositions_model(patterns: Seq<structure::Pattern>) -> Result<
    Seq<CompositionView>,
    ErrorView,
>
    decreases patterns.len(),
{
    if patterns.len() == 0 {
        Ok(seq![])
    } else {
        match composition_model(patterns[0]) {
            Err(e) => Err(e),
            Ok(first) => prepend(seq![first], compositions_model(patterns.drop_first())),
        }
    }
}

/// The compositions of the antipatterns of a rule: none where it names none.
pub open spec fn antipatterns_model(patterns: Option<Vec<structure::Pattern>>) -> Result<
    Seq<CompositionView>,
    ErrorView,
> {
    match patterns {
        Some(patterns) => compositions_model(patterns@),
        None => Ok(seq![]),
    }
}

fn parse_compositions(patterns: &Vec<structure::Pattern>) -> (res: Result<Vec<Composition>, Error>)
    ensures
        result_view(res) == compositions_model(patterns@),
{
    let mut out: Vec<Composition> = empty_view();
    let mut i: usize = 0;
    proof {
        assert(patterns@.skip(0) =~= patterns@);
        let all = compositions_model(patterns@);
        if all is Ok {
            assert(out.deep_view() + all->Ok_0 =~= all->Ok_0);
        }
    }
    while i < patterns.len()
        invariant
            i <= patterns.len(),
            compositions_model(patterns@) == prepend(
                out.deep_view(),
                compositions_model(patterns@.skip(i as int)),
            ),
        decreases patterns.len() - i,
    {
        let ghost done = out.deep_view();
        let ghost rest = compositions_model(patterns@.skip(i + 1));
        assert(patterns@.skip(i as int).drop_first() =~= patterns@.skip(i + 1));
        assert(patterns@.skip(i as int)[0] == patterns@[i as int]);
        let composition = parse_composition(&patterns[i])?;
        push_view(&mut out, composition);
        proof {
            if rest is Ok {
                assert(done + (seq![composition@] + rest->Ok_0) =~= done.push(composition@)
                    + rest->Ok_0);
            }
        }
        i += 1;
    }
    assert(out.deep_view() + Seq::<CompositionView>::empty() =~= out.deep_view());
    Ok(out)
}

/// Builds the compositions of the antipatterns of a rule.
pub fn parse_antipatterns(patterns: &Option<Vec<structure::Pattern>>) -> (res: Result<
    Vec<Composition>,
    Error,
>)
    ensures
        result_view(res) == antipatterns_model(*patterns),
{
    match patterns {
        Some(patterns) => parse_compositions(patterns),
        None => Ok(empty_view()),
    }
}

/// The map that takes every number up to `n` to itself.
pub open spec fn identity_map(n: usize) -> Map<usize, usize> {
    Map::new(|i: usize| i <= n, |i: usize| i)
}

fn identity_up_to(n: usize) -> (m: HashMap<usize, usize>)
    requires
        n < usize::MAX,
    ensures
        m@ == identity_map(n),
{
    broadcast use vstd::std_specs::hash::group_hash_axioms;

    let mut m: HashMap<usize, usize> = HashMap::new();
    let mut i: usize = 0;
    assert(m@ =~= Map::new(|k: usize| k < 0, |k: usize| k));
    while i <= n
        invariant
            i <= n + 1,
            n < usize::MAX,
            m@ == Map::new(|k: usize| k < i, |k: usize| k),
        decreases n + 1 - i,
    {
        m.insert(i, i);
        assert(m@ =~= Map::new(|k: usize| k < i + 1, |k: usize| k));
        i += 1;
    }
    assert(m@ =~= identity_map(n));
    m
}

/// The error for a regular expression with more capture groups than can be
/// numbered.
pub open spec fn too_many_groups() -> ErrorView {
    ErrorView::Unexpected("regular expression has too many groups"@)
}

/// The id that a rule on text marks: zero, which stands for the whole
/// match, where it names none.
pub open spec fn mark_model(mark: Option<String>) -> Result<usize, ErrorView> {
    match mark {
        None => Ok(0),
        Some(m) => match decimal_usize(m@) {
            Some(id) if id < usize::MAX => Ok(id),
            _ => Err(not_a_number("mark"@)),
        },
    }
}

/// What a rule on text matches with, and the span it marks: the regular
/// expression, searched for anywhere in the text, with every capture group
/// under its own number as id; and the one id that is marked.
pub open spec fn text_engine_model(regex: structure::Regexp) -> Result<
    (EngineView, usize, usize),
    ErrorView,
> {
    match yes_no_model(regex.case_sensitive, false, "case_sensitive"@) {
        Err(e) => Err(e),
        Ok(case_sensitive) => match mark_model(regex.mark) {
            Err(e) => Err(e),
            Ok(mark) => match compiled(regex.text@, false, case_sensitive) {
                Err(e) => Err(e),
                Ok(pattern) => if capture_count(pattern) < usize::MAX {
                    Ok(
                        (
                            EngineView::Text {
                                pattern,
                                id_to_idx: identity_map(capture_count(pattern)),
                            },
                            mark,
                            (mark + 1) as usize,
                        ),
                    )
                } else {
                    Err(too_many_groups())
                },
            },
        },
    }
}

/// What a rule on tokens matches with, and the span it marks.
pub open spec fn token_engine_model(
    pattern: structure::Pattern,
    antipatterns: Option<Vec<structure::Pattern>>,
) -> Result<(EngineView, usize, usize), ErrorView> {
    match pattern_model(pattern) {
        Err(e) => Err(e),
        Ok(read) => match antipatterns_model(antipatterns) {
            Err(e) => Err(e),
            Ok(antipatterns) => Ok(
                (EngineView::Token { composition: read.0, antipatterns }, read.1, read.2),
            ),
        },
    }
}

/// What a rule matches with, and the span it marks. A rule has a pattern or
/// a regular expression, and not both.
pub open spec fn engine_model(data: structure::Rule) -> Result<
    (EngineView, usize, usize),
    ErrorView,
> {
    match (data.pattern, data.regex) {
        (Some(_), Some(_)) => Err(
            ErrorView::Unexpected("must not contain both `pattern` and `regexp`."@),
        ),
        (None, None) => Err(
            ErrorView::Unexpected("either `pattern` or `regexp` must be supplied."@),
        ),
        (Some(pattern), None) => token_engine_model(pattern, data.antipatterns),
        (None, Some(regex)) => text_engine_model(regex),
    }
}

fn parse_mark(mark: &Option<String>) -> (res: Result<usize, Error>)
    ensures
        result_view(res) == mark_model(*mark),
{
    match mark {
        None => Ok(0),
        Some(m) => match parse_usize(m.as_str()) {
            Some(id) => {
                if id < usize::MAX {
                    Ok(id)
                } else {
                    Err(crate::compile::token::number_error("mark"))
                }
            },
            None => Err(crate::compile::token::number_error("mark")),
        },
    }
}

fn text_engine(regex: &structure::Regexp) -> (res: Result<(Engine, usize, usize), Error>)
    ensures
        result_view(res) == text_engine_model(*regex),
{
    let case_sensitive = yes_no(&regex.case_sensitive, false, "case_sensitive")?;
    let mark = parse_mark(&regex.mark)?;
    let compiled = CompiledRegex::new(regex.text.as_str(), false, case_sensitive)?;
    let groups = compiled.captures_len();
    if groups < usize::MAX {
        Ok((Engine::Text(compiled, identity_up_to(groups)), mark, mark + 1))
    } else {
        Err(Error::unexpected("regular expression has too many groups"))
    }
}

fn token_engine(
    pattern: &structure::Pattern,
    antipatterns: &Option<Vec<structure::Pattern>>,
) -> (res: Result<(Engine, usize, usize), Error>)
    ensures
        result_view(res) == token_engine_model(*pattern, *antipatterns),
{
    let (composition, start, end) = parse_pattern(pattern)?;
    let antipatterns = parse_antipatterns(antipatterns)?;
    Ok((Engine::Token(TokenEngine { composition, antipatterns }), start, end))
}

fn parse_engine(data: &structure::Rule) -> (res: Result<(Engine, usize, usize), Error>)
    ensures
        result_view(res) == engine_model(*data),
{
    match (&data.pattern, &data.regex) {
        (Some(_), Some(_)) => Err(
            Error::unexpected("must not contain both `pattern` and `regexp`."),
        ),
        (None, None) => Err(Error::unexpected("either `pattern` or `regexp` must be supplied.")),
        (Some(pattern), None) => token_engine(pattern, &data.antipatterns),
        (None, Some(regex)) => text_engine(regex),
    }
}

/// What has been read of a message: the pieces of its template, and the
/// templates of the suggestions it holds.
pub struct MessageRead {
    pub parts: Seq<SynthesizerPartView>,
    pub suggesters: Seq<SynthesizerView>,
}

/// What one piece of a message adds to it. A suggestion inside a message is
/// part of the message and an alternative of its own.
pub open spec fn message_part_model(
    part: structure::MessagePart,
    composition: Option<CompositionView>,
) -> Result<MessageRead, ErrorView> {
    match part {
        structure::MessagePart::Suggestion(suggestion) => match suggestion_model(
            suggestion,
            composition,
        ) {
            Err(e) => Err(e),
            Ok(template) => Ok(MessageRead { parts: template.parts, suggesters: seq![template] }),
        },
        structure::MessagePart::Text(text) => Ok(
            MessageRead { parts: template_model(text@), suggesters: seq![] },
        ),
        structure::MessagePart::Match(m) => match match_model(m, composition) {
            Err(e) => Err(e),
            Ok(reference) => Ok(
                MessageRead {
                    parts: seq![SynthesizerPartView::Match(reference)],
                    suggesters: seq![],
                },
            ),
        },
    }
}

/// What has been read of a message after the pieces `parts` are added to
/// `before`, one after the other.
pub open spec fn message_model(
    before: MessageRead,
    parts: Seq<structure::MessagePart>,
    composition: Option<CompositionView>,
) -> Result<MessageRead, ErrorView>
    decreases parts.len(),
{
    if parts.len() == 0 {
        Ok(before)
    } else {
        match message_part_model(parts[0], composition) {
            Err(e) => Err(e),
            Ok(more) => message_model(
                MessageRead {
                    parts: before.parts + more.parts,
                    suggesters: before.suggesters + more.suggesters,
                },
                parts.drop_first(),
                composition,
            ),
        }
    }
}

/// The templates of the suggestions `suggestions`, in their order.
pub open spec fn suggesters_model(
    suggestions: Seq<structure::Suggestion>,
    composition: Option<CompositionView>,
) -> Result<Seq<SynthesizerView>, ErrorView>
    decreases suggestions.len(),
{
    if suggestions.len() == 0 {
        Ok(seq![])
    } else {
        match suggestion_model(suggestions[0], composition) {
            Err(e) => Err(e),
            Ok(template) => prepend(
                seq![template],
                suggesters_model(suggestions.drop_first(), composition),
            ),
        }
    }
}

/// The message of a rule and all its alternatives: those inside the message
/// first, then those beside it. A rule needs an alternative and a message.
pub open spec fn templates_model(data: structure::Rule, composition: Option<CompositionView>) -> Result<
    MessageRead,
    ErrorView,
> {
    match message_model(
        MessageRead { parts: seq![], suggesters: seq![] },
        data.message.parts@,
        composition,
    ) {
        Err(e) => Err(e),
        Ok(message) => {
            let beside = match data.suggestions {
                Some(suggestions) => suggesters_model(suggestions@, composition),
                None => Ok(seq![]),
            };
            match beside {
                Err(e) => Err(e),
                Ok(beside) => if message.suggesters.len() + beside.len() == 0 {
                    Err(ErrorView::Unimplemented("rules with no suggestion are not implemented."@))
                } else if message.parts.len() == 0 {
                    Err(ErrorView::Unexpected("Rules must have a message."@))
                } else {
                    Ok(MessageRead { parts: message.parts, suggesters: message.suggesters + beside })
                },
            }
        },
    }
}

fn read_message(parts: &Vec<structure::MessagePart>, composition: Option<&Composition>) -> (res:
    Result<(Vec<SynthesizerPart>, Vec<Synthesizer>), Error>)
    ensures
        match res {
            Ok(read) => message_model(
                MessageRead { parts: seq![], suggesters: seq![] },
                parts@,
                composition.deep_view(),
            ) == Ok::<MessageRead, ErrorView>(
                MessageRead { parts: read.0.deep_view(), suggesters: read.1.deep_view() },
            ),
            Err(e) => message_model(
                MessageRead { parts: seq![], suggesters: seq![] },
                parts@,
                composition.deep_view(),
            ) == Err::<MessageRead, ErrorView>(e@),
        },
{
    let mut message_parts: Vec<SynthesizerPart> = empty_view();
    let mut suggesters: Vec<Synthesizer> = empty_view();
    let mut i: usize = 0;
    let ghost c = composition.deep_view();
    let ghost first = MessageRead { parts: seq![], suggesters: seq![] };
    assert(parts@.skip(0) =~= parts@);
    while i < parts.len()
        invariant
            i <= parts.len(),
            c == composition.deep_view(),
            first == (MessageRead { parts: seq![], suggesters: seq![] }),
            message_model(first, parts@, c) == message_model(
                MessageRead { parts: message_parts.deep_view(), suggesters: suggesters.deep_view() },
                parts@.skip(i as int),
                c,
            ),
        decreases parts.len() - i,
    {
        let ghost done_parts = message_parts.deep_view();
        let ghost done_suggesters = suggesters.deep_view();
        assert(parts@.skip(i as int).drop_first() =~= parts@.skip(i + 1));
        assert(parts@.skip(i as int)[0] == parts@[i as int]);
        match &parts[i] {
            structure::MessagePart::Suggestion(suggestion) => {
                let suggester = parse_suggestion(suggestion, composition)?;
                let again = parse_suggestion(suggestion, composition)?;
                append_view(&mut message_parts, again.parts);
                push_view(&mut suggesters, suggester);
                assert(suggesters.deep_view() =~= done_suggesters + seq![suggester@]);
            },
            structure::MessagePart::Text(text) => {
                append_view(&mut message_parts, parse_synthesizer_text(text.as_str()));
                assert(suggesters.deep_view() =~= done_suggesters + Seq::<SynthesizerView>::empty());
            },
            structure::MessagePart::Match(m) => {
                let reference = parse_match(m, composition)?;
                push_view(&mut message_parts, SynthesizerPart::Match(reference));
                assert(message_parts.deep_view() =~= done_parts + seq![
                    SynthesizerPartView::Match(reference@),
                ]);
                assert(suggesters.deep_view() =~= done_suggesters + Seq::<SynthesizerView>::empty());
            },
        }
        i += 1;
    }
    Ok((message_parts, suggesters))
}

fn read_suggestions(
    suggestions: &Vec<structure::Suggestion>,
    composition: Option<&Composition>,
) -> (res: Result<Vec<Synthesizer>, Error>)
    ensures
        result_view(res) == suggesters_model(suggestions@, composition.deep_view()),
{
    let mut out: Vec<Synthesizer> = empty_view();
    let mut i: usize = 0;
    let ghost c = composition.deep_view();
    proof {
        assert(suggestions@.skip(0) =~= suggestions@);
        let all = suggesters_model(suggestions@, c);
        if all is Ok {
            assert(out.deep_view() + all->Ok_0 =~= all->Ok_0);
        }
    }
    while i < suggestions.len()
        invariant
            i <= suggestions.len(),
            c == composition.deep_view(),
            suggesters_model(suggestions@, c) == prepend(
                out.deep_view(),
                suggesters_model(suggestions@.skip(i as int), c),
            ),
        decreases suggestions.len() - i,
    {
        let ghost done = out.deep_view();
        let ghost rest = suggesters_model(suggestions@.skip(i + 1), c);
        assert(suggestions@.skip(i as int).drop_first() =~= suggestions@.skip(i + 1));
        assert(suggestions@.skip(i as int)[0] == suggestions@[i as int]);
        let suggester = parse_suggestion(&suggestions[i], composition)?;
        push_view(&mut out, suggester);
        proof {
            if rest is Ok {
                assert(done + (seq![suggester@] + rest->Ok_0) =~= done.push(suggester@)
                    + rest->Ok_0);
            }
        }
        i += 1;
    }
    assert(out.deep_view() + Seq::<SynthesizerView>::empty() =~= out.deep_view());
    Ok(out)
}

fn read_templates(data: &structure::Rule, composition: Option<&Composition>) -> (res: Result<
    (Vec<SynthesizerPart>, Vec<Synthesizer>),
    Error,
>)
    ensures
        match res {
            Ok(read) => templates_model(*data, composition.deep_view()) == Ok::<
                MessageRead,
                ErrorView,
            >(MessageRead { parts: read.0.deep_view(), suggesters: read.1.deep_view() }),
            Err(e) => templates_model(*data, composition.deep_view()) == Err::<
                MessageRead,
                ErrorView,
            >(e@),
        },
{
    let (message_parts, mut suggesters) = read_message(&data.message.parts, composition)?;
    let beside = match &data.suggestions {
        Some(suggestions) => read_suggestions(suggestions, composition)?,
        None => empty_view(),
    };
    let ghost inside = suggesters.deep_view();
    append_view(&mut suggesters, beside);
    if suggesters.len() == 0 {
        Err(Error::unimplemented("rules with no suggestion are not implemented."))
    } else if message_parts.len() == 0 {
        Err(Error::unexpected("Rules must have a message."))
    } else {
        Ok((message_parts, suggesters))
    }
}

/// The corrections that an example expects: the alternatives between the
/// bars of `correction`, each with a capital where the marker stands at the
/// start of the sentence.
pub open spec fn corrections_model(correction: Seq<char>, at_start: bool) -> Seq<Seq<char>> {
    let alternatives = pieces(correction, '|');
    if at_start {
        Seq::new(alternatives.len(), |i: int| capitalized(alternatives[i]))
    } else {
        alternatives
    }
}

/// What has been read of an example: its text so far, whether a marker was
/// seen, and the suggestion expected for the marked stretch.
pub struct ExampleRead {
    pub text: Seq<char>,
    pub marked: bool,
    pub suggestion: Option<SuggestionView>,
}

/// What has been read of an example after the piece `part` is added to
/// `before`. The text grows by the piece. A marker says where the error is:
/// a second one is a fault, and where the example gives corrections, they
/// are expected for the marked stretch, counted in characters.
pub open spec fn example_step_model(
    before: ExampleRead,
    part: structure::ExamplePart,
    correction: Option<String>,
) -> Result<ExampleRead, ErrorView> {
    match part {
        structure::ExamplePart::Text(text) => Ok(
            ExampleRead {
                text: before.text + text@,
                marked: before.marked,
                suggestion: before.suggestion,
            },
        ),
        structure::ExamplePart::Marker(marker) => if before.marked {
            Err(ErrorView::Unexpected("example must have one or zero markers"@))
        } else {
            Ok(
                ExampleRead {
                    text: before.text + marker.text@,
                    marked: true,
                    suggestion: match correction {
                        Some(c) => Some(
                            SuggestionView {
                                source: "_Test"@,
                                message: "_Test"@,
                                start: before.text.len(),
                                end: before.text.len() + marker.text@.len(),
                                replacements: corrections_model(c@, before.text.len() == 0),
                            },
                        ),
                        None => None,
                    },
                },
            )
        },
    }
}

/// What has been read of an example after the pieces `parts` are added to
/// `before`, one after the other.
pub open spec fn example_steps_model(
    before: ExampleRead,
    parts: Seq<structure::ExamplePart>,
    correction: Option<String>,
) -> Result<ExampleRead, ErrorView>
    decreases parts.len(),
{
    if parts.len() == 0 {
        Ok(before)
    } else {
        match example_step_model(before, parts[0], correction) {
            Err(e) => Err(e),
            Ok(after) => example_steps_model(after, parts.drop_first(), correction),
        }
    }
}

/// The test that an example of a rule describes.
pub open spec fn example_model(example: structure::Example) -> Result<TestView, ErrorView> {
    if example.kind is Some {
        Err(
            ErrorView::Unimplemented(
                "examples with `type` (i. e. 'triggers_error') are not implemented."@,
            ),
        )
    } else {
        match example_steps_model(
            ExampleRead { text: seq![], marked: false, suggestion: None },
            example.parts@,
            example.correction,
        ) {
            Err(e) => Err(e),
            Ok(read) => Ok(TestView { text: read.text, suggestion: read.suggestion }),
        }
    }
}

/// The tests that the examples of a rule describe, in their order.
pub open spec fn examples_model(examples: Seq<structure::Example>) -> Result<
    Seq<TestView>,
    ErrorView,
>
    decreases examples.len(),
{
    if examples.len() == 0 {
        Ok(seq![])
    } else {
        match example_model(examples[0]) {
            Err(e) => Err(e),
            Ok(test) => prepend(seq![test], examples_model(examples.drop_first())),
        }
    }
}

fn corrections(correction: &str, at_start: bool) -> (out: Vec<String>)
    ensures
        out.deep_view() == corrections_model(correction@, at_start),
{
    let alternatives = split(correction, '|');
    if !at_start {
        return alternatives;
    }
    let mut out: Vec<String> = empty_view();
    let mut i: usize = 0;
    while i < alternatives.len()
        invariant
            i <= alternatives.len(),
            alternatives.deep_view() == pieces(correction@, '|'),
            out.deep_view() == Seq::new(
                i as nat,
                |k: int| capitalized(pieces(correction@, '|')[k]),
            ),
        decreases alternatives.len() - i,
    {
        let ghost done = out.deep_view();
        assert(alternatives.deep_view()[i as int] == alternatives@[i as int]@);
        let capital = capitalize(alternatives[i].as_str());
        push_view(&mut out, capital);
        assert(out.deep_view() =~= Seq::new(
            (i + 1) as nat,
            |k: int| capitalized(pieces(correction@, '|')[k]),
        ));
        i += 1;
    }
    assert(out.deep_view() =~= corrections_model(correction@, at_start));
    out
}

fn read_example(example: &structure::Example) -> (res: Result<Test, Error>)
    ensures
        result_view(res) == example_model(*example),
{
    if example.kind.is_some() {
        return Err(
            Error::unimplemented(
                "examples with `type` (i. e. 'triggers_error') are not implemented.",
            ),
        );
    }
    let mut text = String::new();
    let mut marked = false;
    let mut suggestion: Option<Suggestion> = None;
    let mut i: usize = 0;
    let ghost first = ExampleRead { text: seq![], marked: false, suggestion: None };
    assert(example.parts@.skip(0) =~= example.parts@);
    while i < example.parts.len()
        invariant
            i <= example.parts.len(),
            example.kind is None,
            first == (ExampleRead { text: seq![], marked: false, suggestion: None }),
            example_steps_model(first, example.parts@, example.correction) == example_steps_model(
                ExampleRead { text: text@, marked, suggestion: suggestion.deep_view() },
                example.parts@.skip(i as int),
                example.correction,
            ),
        decreases example.parts.len() - i,
    {
        assert(example.parts@.skip(i as int).drop_first() =~= example.parts@.skip(i + 1));
        assert(example.parts@.skip(i as int)[0] == example.parts@[i as int]);
        match &example.parts[i] {
            structure::ExamplePart::Text(piece) => {
                text = text.concat(piece.as_str());
            },
            structure::ExamplePart::Marker(marker) => {
                if marked {
                    return Err(Error::unexpected("example must have one or zero markers"));
                }
                let start = text.as_str().unicode_len();
                text = text.concat(marker.text.as_str());
                let end = text.as_str().unicode_len();
                marked = true;
                suggestion = match &example.correction {
                    Some(correction) => Some(
                        Suggestion {
                            source: String::from_str("_Test"),
                            message: String::from_str("_Test"),
                            start,
                            end,
                            replacements: corrections(correction.as_str(), start == 0),
                        },
                    ),
                    None => None,
                };
            },
        }
        i += 1;
    }
    Ok(Test { text, suggestion })
}

fn read_examples(examples: &Vec<structure::Example>) -> (res: Result<Vec<Test>, Error>)
    ensures
        result_view(res) == examples_model(examples@),
{
    let mut out: Vec<Test> = empty_view();
    let mut i: usize = 0;
    proof {
        assert(examples@.skip(0) =~= examples@);
        let all = examples_model(examples@);
        if all is Ok {
            assert(out.deep_view() + all->Ok_0 =~= all->Ok_0);
        }
    }
    while i < examples.len()
        invariant
            i <= examples.len(),
            examples_model(examples@) == prepend(
                out.deep_view(),
                examples_model(examples@.skip(i as int)),
            ),
        decreases examples.len() - i,
    {
        let ghost done = out.deep_view();
        let ghost rest = examples_model(examples@.skip(i + 1));
        assert(examples@.skip(i as int).drop_first() =~= examples@.skip(i + 1));
        assert(examples@.skip(i as int)[0] == examples@[i as int]);
        let test = read_example(&examples[i])?;
        push_view(&mut out, test);
        proof {
            if rest is Ok {
                assert(done + (seq![test@] + rest->Ok_0) =~= done.push(test@) + rest->Ok_0);
            }
        }
        i += 1;
    }
    assert(out.deep_view() + Seq::<TestView>::empty() =~= out.deep_view());
    Ok(out)
}

/// The composition of an engine that matches tokens.
pub open spec fn composition_of(engine: EngineView) -> Option<CompositionView> {
    match engine {
        EngineView::Token { composition, .. } => Some(composition),
        EngineView::Text { .. } => None,
    }
}

/// Whether a rule with the attribute `default` is applied: unless it says
/// `off`.
pub open spec fn on_model(default: Option<String>) -> bool {
    match default {
        Some(value) => value@ != "off"@,
        None => true,
    }
}

/// The rule that `data` defines. It has no id yet. The first fault found
/// is the error: a filter, which no rule of this kind can have; then the
/// faults of what it matches with, of its message and alternatives, and of
/// its examples, in this order.
pub open spec fn rule_model(data: structure::Rule) -> Result<RuleView, ErrorView> {
    if data.filter is Some {
        Err(ErrorView::Unimplemented("rules with filter are not implemented."@))
    } else {
        match engine_model(data) {
            Err(e) => Err(e),
            Ok(engine) => match templates_model(data, composition_of(engine.0)) {
                Err(e) => Err(e),
                Ok(templates) => match examples_model(data.examples@) {
                    Err(e) => Err(e),
                    Ok(tests) => Ok(
                        RuleView {
                            id: seq![],
                            engine: engine.0,
                            tests,
                            start: engine.1,
                            end: engine.2,
                            suggesters: templates.suggesters,
                            message: SynthesizerView {
                                parts: templates.parts,
                                use_titlecase_adjust: true,
                            },
                            on: on_model(data.default),
                        },
                    ),
                },
            },
        }
    }
}

impl Rule {
    /// Builds the rule that `data` defines.
    pub fn try_from(data: &structure::Rule) -> (res: Result<Rule, Error>)
        ensures
            result_view(res) == rule_model(*data),
    {
        if data.filter.is_some() {
            return Err(Error::unimplemented("rules with filter are not implemented."));
        }
        let (engine, start, end) = parse_engine(data)?;
        let (message_parts, suggesters) = match &engine {
            Engine::Token(engine) => read_templates(data, Some(&engine.composition))?,
            Engine::Text(_, _) => read_templates(data, None)?,
        };
        let tests = read_examples(&data.examples)?;
        let on = match &data.default {
            Some(value) => !same_text(value.as_str(), "off"),
            None => true,
        };
        Ok(
            Rule {
                id: String::new(),
                engine,
                tests,
                start,
                end,
                suggesters,
                message: Synthesizer { parts: message_parts, use_titlecase_adjust: true },
                on,
            },
        )
    }
}

} // verus!
