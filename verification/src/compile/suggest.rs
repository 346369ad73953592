//! From the suggestions and messages of a rule to templates.

use crate::composition::{visible_count, Composition, CompositionView, Part, PartView};
use crate::error::{prepend, result_view, Error, ErrorView};
use crate::grammar::{
    Conversion,
    Match,
    MatchView,
    Synthesizer,
    SynthesizerPart,
    SynthesizerPartView,
    SynthesizerView,
};
use crate::regex::{compiled, CompiledRegex};
use crate::structure;
use crate::text::{decimal_usize, digit_of, digit_value, is_digit, parse_usize, same_text};
use crate::views::{append_view, empty_view, push_view, single_view};
use vstd::prelude::*;
use vstd::string::StrSliceExecFns;
use vstd::string::StringExecFns;

verus! {

/// Whether a reference to a part is written at place `i` of `s`: a backslash
/// with a digit behind it.
pub open spec fn marker_at(s: Seq<char>, i: int) -> bool {
    0 <= i && i + 1 < s.len() && s[i] == '\\' && is_digit(s[i + 1])
}

/// The place of the first reference in `s`, or the length of `s` if it
/// holds none.
pub open spec fn first_marker(s: Seq<char>) -> int
    decreases s.len(),
{
    if s.len() == 0 || marker_at(s, 0) {
        0
    } else {
        1 + first_marker(s.drop_first())
    }
}

pub proof fn lemma_first_marker(s: Seq<char>)
    ensures
        0 <= first_marker(s) <= s.len(),
        forall|i: int| 0 <= i < first_marker(s) ==> !marker_at(s, i),
        first_marker(s) < s.len() ==> marker_at(s, first_marker(s)),
    decreases s.len(),
{
    if !(s.len() == 0 || marker_at(s, 0)) {
        let t = s.drop_first();
        lemma_first_marker(t);
        assert forall|i: int| 0 <= i < first_marker(s) implies !marker_at(s, i) by {
            if i > 0 {
                assert(marker_at(t, i - 1) == marker_at(s, i));
            }
        }
        if first_marker(s) < s.len() {
            assert(marker_at(t, first_marker(t)) == marker_at(s, first_marker(t) + 1));
        }
    }
}

/// A place before which `s` holds no reference, and which holds one or is
/// the end of `s`, is the place of the first reference.
pub proof fn lemma_first_marker_is(s: Seq<char>, n: int)
    requires
        0 <= n <= s.len(),
        forall|i: int| 0 <= i < n ==> !marker_at(s, i),
        n < s.len() ==> marker_at(s, n),
    ensures
        first_marker(s) == n,
{
    lemma_first_marker(s);
    let p = first_marker(s);
    if p < n {
        assert(marker_at(s, p));
    } else if p > n {
        assert(!marker_at(s, n));
    }
}

/// The piece of a template that copies `text`: nothing for no text.
pub open spec fn literal(text: Seq<char>) -> Seq<SynthesizerPartView> {
    if text.len() > 0 {
        seq![SynthesizerPartView::Text(text)]
    } else {
        seq![]
    }
}

/// The pieces of the template that `text` is written as. A backslash with a
/// digit behind it refers to the part with that number; everything else is
/// text to copy, in pieces as long as they can be.
pub open spec fn template_model(text: Seq<char>) -> Seq<SynthesizerPartView>
    decreases text.len(),
{
    let p = first_marker(text);
    if 0 <= p < text.len() - 1 {
        literal(text.take(p)) + seq![
            SynthesizerPartView::Match(MatchView::plain(digit_value(text[p + 1]))),
        ] + template_model(text.skip(p + 2))
    } else {
        literal(text)
    }
}

/// The digit that stands for `n`.
pub open spec fn digit_char(n: nat) -> char
    recommends
        n <= 9,
{
    ('0' as nat + n) as char
}

/// The way a piece of a template is written, where it is a text or a plain
/// reference to a part with a number of one digit.
pub open spec fn written_part(part: SynthesizerPartView) -> Seq<char> {
    match part {
        SynthesizerPartView::Text(text) => text,
        SynthesizerPartView::Match(m) => seq!['\\', digit_char(m.id)],
    }
}

/// The way a template is written: its pieces as they are written, joined.
pub open spec fn written(parts: Seq<SynthesizerPartView>) -> Seq<char>
    decreases parts.len(),
{
    if parts.len() == 0 {
        seq![]
    } else {
        written_part(parts[0]) + written(parts.drop_first())
    }
}

proof fn lemma_written_single(part: SynthesizerPartView)
    ensures
        written(seq![part]) == written_part(part),
{
    reveal_with_fuel(written, 2);
    assert(seq![part].drop_first() =~= Seq::<SynthesizerPartView>::empty());
    assert(written_part(part) + Seq::<char>::empty() =~= written_part(part));
}

proof fn lemma_written_literal(text: Seq<char>)
    ensures
        written(literal(text)) == text,
{
    if text.len() > 0 {
        lemma_written_single(SynthesizerPartView::Text(text));
    } else {
        assert(text =~= Seq::<char>::empty());
    }
}

proof fn lemma_written_concat(a: Seq<SynthesizerPartView>, b: Seq<SynthesizerPartView>)
    ensures
        written(a + b) == written(a) + written(b),
    decreases a.len(),
{
    if a.len() == 0 {
        assert(a + b =~= b);
        assert(written(a) + written(b) =~= written(b));
    } else {
        assert((a + b).drop_first() =~= a.drop_first() + b);
        lemma_written_concat(a.drop_first(), b);
        assert(written_part(a[0]) + (written(a.drop_first()) + written(b)) =~= (written_part(a[0])
            + written(a.drop_first())) + written(b));
    }
}

/// Reading a text as a template and writing the template down again gives
/// the text back: the pieces of the template hold every character that is
/// not part of a reference once, in its place, and every reference as it
/// was written.
pub proof fn lemma_template_round_trip(text: Seq<char>)
    ensures
        written(template_model(text)) == text,
    decreases text.len(),
{
    let p = first_marker(text);
    lemma_first_marker(text);
    lemma_written_literal(text);
    if 0 <= p < text.len() - 1 {
        let head = text.take(p);
        let m = SynthesizerPartView::Match(MatchView::plain(digit_value(text[p + 1])));
        let tail = text.skip(p + 2);
        lemma_template_round_trip(tail);
        lemma_written_concat(literal(head) + seq![m], template_model(tail));
        lemma_written_concat(literal(head), seq![m]);
        lemma_written_literal(head);
        lemma_written_single(m);
        assert(marker_at(text, p));
        assert(digit_char(digit_value(text[p + 1])) == text[p + 1]);
        assert(head + seq!['\\', text[p + 1]] + tail =~= text);
    }
}

fn push_literal(parts: &mut Vec<SynthesizerPart>, text: &str, from: usize, to: usize)
    requires
        from <= to <= text@.len(),
    ensures
        final(parts).deep_view() == old(parts).deep_view() + literal(
            text@.subrange(from as int, to as int),
        ),
{
    if from < to {
        push_view(parts, SynthesizerPart::Text(String::from_str(text.substring_char(from, to))));
        assert(old(parts).deep_view().push(
            SynthesizerPartView::Text(text@.subrange(from as int, to as int)),
        ) =~= old(parts).deep_view() + literal(text@.subrange(from as int, to as int)));
    } else {
        assert(parts.deep_view() + literal(text@.subrange(from as int, to as int))
            =~= parts.deep_view());
    }
}

/// Reads `text` as a template: text to copy, and references to parts
/// written as a backslash and a digit.
pub fn parse_synthesizer_text(text: &str) -> (parts: Vec<SynthesizerPart>)
    ensures
        parts.deep_view() == template_model(text@),
{
    let n = text.unicode_len();
    let mut parts: Vec<SynthesizerPart> = empty_view();
    let mut start: usize = 0;
    let mut i: usize = 0;
    proof {
        assert(text@.skip(0) =~= text@);
        assert(parts.deep_view() + template_model(text@) =~= template_model(text@));
    }
    while i < n
        invariant
            n == text@.len(),
            start <= i <= n,
            forall|j: int| start <= j < i ==> !marker_at(text@, j),
            template_model(text@) == parts.deep_view() + template_model(text@.skip(start as int)),
        decreases n - i,
    {
        let digit = if i + 1 < n && text.get_char(i) == '\\' {
            digit_of(text.get_char(i + 1))
        } else {
            None
        };
        match digit {
            Some(d) => {
                let ghost done = parts.deep_view();
                let ghost rest = text@.skip(start as int);
                proof {
                    assert(marker_at(text@, i as int));
                    assert forall|j: int| 0 <= j < i - start implies !marker_at(rest, j) by {
                        assert(marker_at(rest, j) == marker_at(text@, j + start));
                    }
                    assert(marker_at(rest, i - start));
                    lemma_first_marker_is(rest, i - start);
                    assert(rest.take(i - start) =~= text@.subrange(start as int, i as int));
                    assert(rest.skip(i - start + 2) =~= text@.skip(i + 2));
                    assert(rest[i - start + 1] == text@[i + 1]);
                }
                push_literal(&mut parts, text, start, i);
                push_view(
                    &mut parts,
                    SynthesizerPart::Match(Match::new(d as usize, Conversion::Nop, None, None)),
                );
                proof {
                    let head = literal(text@.subrange(start as int, i as int));
                    let reference = seq![
                        SynthesizerPartView::Match(MatchView::plain(digit_value(text@[i + 1]))),
                    ];
                    assert(parts.deep_view() =~= done + head + reference);
                    assert(done + (head + reference + template_model(text@.skip(i + 2))) =~= (done
                        + head + reference) + template_model(text@.skip(i + 2)));
                }
                i += 2;
                start = i;
            },
            None => {
                assert(!marker_at(text@, i as int));
                i += 1;
            },
        }
    }
    proof {
        let rest = text@.skip(start as int);
        assert forall|j: int| 0 <= j < n - start implies !marker_at(rest, j) by {
            assert(marker_at(rest, j) == marker_at(text@, j + start));
        }
        lemma_first_marker_is(rest, n - start);
        assert(rest =~= text@.subrange(start as int, n as int));
    }
    push_literal(&mut parts, text, start, n);
    parts
}

/// The error for a reference that asks for what is not supported: a text or
/// a tag of its own, or the tokens that were skipped.
pub open spec fn unsupported_in_match(m: structure::Match) -> Option<ErrorView> {
    if m.postag is Some || m.postag_regex is Some || m.postag_replace is Some || m.text is Some {
        Some(
            ErrorView::Unimplemented(
                "postag, postag_regex, postag_replace and text in `match` are not implemented."@,
            ),
        )
    } else if m.include_skipped is Some {
        Some(ErrorView::Unimplemented("include_skipped in `match` is not implemented."@))
    } else {
        None
    }
}

/// An id no higher than `highest`: `id` itself where it is not above.
pub open spec fn clamped(id: nat, highest: nat) -> nat {
    if id > highest {
        highest
    } else {
        id
    }
}

/// An id above the highest id of a composition resolves to that highest id,
/// any other to itself; and an id that was resolved once resolves to itself.
pub proof fn lemma_clamped(id: nat, highest: nat)
    ensures
        clamped(id, highest) <= highest,
        id > highest ==> clamped(id, highest) == highest,
        id <= highest ==> clamped(id, highest) == id,
        clamped(clamped(id, highest), highest) == clamped(id, highest),
{
}

/// The id that a reference to `id` resolves to: no higher than the number of
/// visible parts of the composition, where there is one.
pub open spec fn resolved_id(id: usize, composition: Option<CompositionView>) -> nat {
    match composition {
        Some(c) => clamped(id as nat, visible_count(c.parts)),
        None => id as nat,
    }
}

/// The change of case that the attribute `case_conversion` names.
pub open spec fn conversion_model(value: Option<String>) -> Result<Conversion, ErrorView> {
    match value {
        None => Ok(Conversion::Nop),
        Some(v) => if v@ == "alllower"@ {
            Ok(Conversion::AllLower)
        } else if v@ == "startlower"@ {
            Ok(Conversion::StartLower)
        } else if v@ == "startupper"@ {
            Ok(Conversion::StartUpper)
        } else if v@ == "allupper"@ {
            Ok(Conversion::AllUpper)
        } else {
            Err(ErrorView::Unimplemented("case conversion "@ + v@ + " not supported."@))
        },
    }
}

/// The replacement by regular expression that a reference asks for: one
/// where it gives both what to find and what to put in its place.
pub open spec fn regex_replacer_model(find: Option<String>, replace: Option<String>) -> Result<
    Option<(Seq<char>, Seq<char>)>,
    ErrorView,
> {
    match (find, replace) {
        (Some(f), Some(r)) => match compiled(f@, false, true) {
            Ok(pattern) => Ok(Some((pattern, r@))),
            Err(e) => Err(e),
        },
        _ => Ok(None),
    }
}

/// The reference that `m` describes, in a rule with the composition
/// `composition` if it has one.
pub open spec fn match_model(m: structure::Match, composition: Option<CompositionView>) -> Result<
    MatchView,
    ErrorView,
> {
    match unsupported_in_match(m) {
        Some(e) => Err(e),
        None => match decimal_usize(m.no@) {
            None => Err(ErrorView::Unexpected("no must be parsable as usize."@)),
            Some(id) => match regex_replacer_model(m.regexp_match, m.regexp_replace) {
                Err(e) => Err(e),
                Ok(regex_replacer) => match conversion_model(m.case_conversion) {
                    Err(e) => Err(e),
                    Ok(conversion) => Ok(
                        MatchView {
                            id: resolved_id(id, composition),
                            conversion,
                            pos_replacer: None,
                            regex_replacer,
                        },
                    ),
                },
            },
        },
    }
}

/// How many of `parts` are visible.
pub fn count_visible(parts: &[Part]) -> (count: usize)
    ensures
        count == visible_count(parts.deep_view()),
{
    let mut count: usize = 0;
    let mut i: usize = 0;
    let ghost all = parts.deep_view();
    assert(all.take(0) =~= Seq::<PartView>::empty());
    while i < parts.len()
        invariant
            i <= parts.len(),
            all == parts.deep_view(),
            count == visible_count(all.take(i as int)),
            count <= i,
        decreases parts.len() - i,
    {
        proof {
            assert(all.take(i + 1).drop_last() =~= all.take(i as int));
            assert(all.take(i + 1).last() == parts[i as int]@);
        }
        if parts[i].visible {
            count += 1;
        }
        i += 1;
    }
    assert(all.take(parts.len() as int) =~= all);
    count
}

fn check_supported(m: &structure::Match) -> (res: Result<(), Error>)
    ensures
        match res {
            Ok(_) => unsupported_in_match(*m) is None,
            Err(e) => unsupported_in_match(*m) == Some(e@),
        },
{
    if m.postag.is_some() || m.postag_regex.is_some() || m.postag_replace.is_some()
        || m.text.is_some() {
        Err(
            Error::unimplemented(
                "postag, postag_regex, postag_replace and text in `match` are not implemented.",
            ),
        )
    } else if m.include_skipped.is_some() {
        Err(Error::unimplemented("include_skipped in `match` is not implemented."))
    } else {
        Ok(())
    }
}

fn parse_conversion(value: &Option<String>) -> (res: Result<Conversion, Error>)
    ensures
        match res {
            Ok(c) => conversion_model(*value) == Ok::<Conversion, ErrorView>(c),
            Err(e) => conversion_model(*value) == Err::<Conversion, ErrorView>(e@),
        },
{
    match value {
        None => Ok(Conversion::Nop),
        Some(v) => {
            if same_text(v.as_str(), "alllower") {
                Ok(Conversion::AllLower)
            } else if same_text(v.as_str(), "startlower") {
                Ok(Conversion::StartLower)
            } else if same_text(v.as_str(), "startupper") {
                Ok(Conversion::StartUpper)
            } else if same_text(v.as_str(), "allupper") {
                Ok(Conversion::AllUpper)
            } else {
                Err(
                    Error::Unimplemented(
                        String::from_str("case conversion ").concat(v.as_str()).concat(
                            " not supported.",
                        ),
                    ),
                )
            }
        },
    }
}

fn parse_regex_replacer(find: &Option<String>, replace: &Option<String>) -> (res: Result<
    Option<(CompiledRegex, String)>,
    Error,
>)
    ensures
        result_view(res) == regex_replacer_model(*find, *replace),
{
    match (find, replace) {
        (Some(f), Some(r)) => {
            let regex = CompiledRegex::new(f.as_str(), false, true)?;
            Ok(Some((regex, r.clone())))
        },
        _ => Ok(None),
    }
}

/// Builds the reference that `m` describes. An id above the highest id of
/// `composition` becomes that id.
pub fn parse_match(m: &structure::Match, composition: Option<&Composition>) -> (res: Result<
    Match,
    Error,
>)
    ensures
        match res {
            Ok(r) => match_model(*m, composition.deep_view()) == Ok::<MatchView, ErrorView>(r@),
            Err(e) => match_model(*m, composition.deep_view()) == Err::<MatchView, ErrorView>(e@),
        },
{
    check_supported(m)?;
    let id = match parse_usize(m.no.as_str()) {
        Some(id) => id,
        None => {
            return Err(Error::unexpected("no must be parsable as usize."));
        },
    };
    let id = match composition {
        Some(c) => {
            let slice = c.parts.as_slice();
            assert(slice.deep_view() =~= c.parts.deep_view());
            let highest = count_visible(slice);
            if id > highest {
                highest
            } else {
                id
            }
        },
        None => id,
    };
    let regex_replacer = parse_regex_replacer(&m.regexp_match, &m.regexp_replace)?;
    let conversion = parse_conversion(&m.case_conversion)?;
    Ok(Match::new(id, conversion, None, regex_replacer))
}

/// The pieces that one piece of a suggestion stands for.
pub open spec fn suggestion_part_model(
    part: structure::SuggestionPart,
    composition: Option<CompositionView>,
) -> Result<Seq<SynthesizerPartView>, ErrorView> {
    match part {
        structure::SuggestionPart::Text(text) => Ok(template_model(text@)),
        structure::SuggestionPart::Match(m) => match match_model(m, composition) {
            Ok(reference) => Ok(seq![SynthesizerPartView::Match(reference)]),
            Err(e) => Err(e),
        },
    }
}

/// The pieces that the pieces of a suggestion stand for, one after the
/// other.
pub open spec fn suggestion_parts_model(
    parts: Seq<structure::SuggestionPart>,
    composition: Option<CompositionView>,
) -> Result<Seq<SynthesizerPartView>, ErrorView>
    decreases parts.len(),
{
    if parts.len() == 0 {
        Ok(seq![])
    } else {
        match suggestion_part_model(parts[0], composition) {
            Err(e) => Err(e),
            Ok(first) => prepend(first, suggestion_parts_model(parts.drop_first(), composition)),
        }
    }
}

/// The template that a suggestion describes. It takes over the capital of
/// the matched text where the rule matches tokens, which it does where it
/// has a composition.
pub open spec fn suggestion_model(
    data: structure::Suggestion,
    composition: Option<CompositionView>,
) -> Result<SynthesizerView, ErrorView> {
    match suggestion_parts_model(data.parts@, composition) {
        Err(e) => Err(e),
        Ok(parts) => Ok(SynthesizerView { parts, use_titlecase_adjust: composition is Some }),
    }
}

fn parse_suggestion_part(part: &structure::SuggestionPart, composition: Option<&Composition>) -> (res:
    Result<Vec<SynthesizerPart>, Error>)
    ensures
        result_view(res) == suggestion_part_model(*part, composition.deep_view()),
{
    match part {
        structure::SuggestionPart::Text(text) => Ok(parse_synthesizer_text(text.as_str())),
        structure::SuggestionPart::Match(m) => {
            let reference = parse_match(m, composition)?;
            Ok(single_view(SynthesizerPart::Match(reference)))
        },
    }
}

/// Builds the pieces that the pieces of a suggestion stand for.
pub fn parse_suggestion_parts(
    parts: &Vec<structure::SuggestionPart>,
    composition: Option<&Composition>,
) -> (res: Result<Vec<SynthesizerPart>, Error>)
    ensures
        result_view(res) == suggestion_parts_model(parts@, composition.deep_view()),
{
    let mut out: Vec<SynthesizerPart> = empty_view();
    let mut i: usize = 0;
    let ghost c = composition.deep_view();
    proof {
        assert(parts@.skip(0) =~= parts@);
        let all = suggestion_parts_model(parts@, c);
        if all is Ok {
            assert(out.deep_view() + all->Ok_0 =~= all->Ok_0);
        }
    }
    while i < parts.len()
        invariant
            i <= parts.len(),
            c == composition.deep_view(),
            suggestion_parts_model(parts@, c) == prepend(
                out.deep_view(),
                suggestion_parts_model(parts@.skip(i as int), c),
            ),
        decreases parts.len() - i,
    {
        let ghost done = out.deep_view();
        let ghost rest = suggestion_parts_model(parts@.skip(i + 1), c);
        assert(parts@.skip(i as int).drop_first() =~= parts@.skip(i + 1));
        assert(parts@.skip(i as int)[0] == parts@[i as int]);
        let more = parse_suggestion_part(&parts[i], composition)?;
        append_view(&mut out, more);
        proof {
            if rest is Ok {
                assert(done + (more.deep_view() + rest->Ok_0) =~= (done + more.deep_view())
                    + rest->Ok_0);
            }
        }
        i += 1;
    }
    assert(out.deep_view() + Seq::<SynthesizerPartView>::empty() =~= out.deep_view());
    Ok(out)
}

/// Builds the template that the suggestion `data` describes, for a rule with
/// the composition `composition` if it has one.
pub fn parse_suggestion(data: &structure::Suggestion, composition: Option<&Composition>) -> (res:
    Result<Synthesizer, Error>)
    ensures
        result_view(res) == suggestion_model(*data, composition.deep_view()),
{
    let parts = parse_suggestion_parts(&data.parts, composition)?;
    Ok(Synthesizer { parts, use_titlecase_adjust: composition.is_some() })
}

} // verus!
