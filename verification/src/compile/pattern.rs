//! From the tokens of a pattern to a composition and the span it marks.

use crate::compile::attributes::yes_no;
use crate::compile::attributes::yes_no_model;
use crate::compile::token::{get_last_id, parse_token, token_parts_model};
use crate::composition::{
    last_id,
    Atom,
    AtomView,
    Composition,
    CompositionView,
    Part,
    PartView,
    Quantifier,
    QuantifierView,
};
use crate::error::{prepend, result_view, Error, ErrorView};
use crate::structure::{
    Pattern,
    PatternPart,
    Token,
    TokenCombination,
    Tokens,
    Unify,
    UnifyTokenCombination,
};
use crate::views::{append_view, empty_view, push_view, single_view};
use vstd::prelude::*;

verus! {

/// The error for a token with a quantifier or a skip count among tokens
/// that are to hold of one place.
pub open spec fn control_flow_in_parallel() -> ErrorView {
    ErrorView::Unimplemented("control flow in parallel tokens is not implemented."@)
}

/// The quantifier of a part that matches exactly one token.
pub open spec fn once() -> QuantifierView {
    QuantifierView { min: 1, max: 1 }
}

/// The atom of a token that stands beside others for one place: the token
/// must come to a single part that matches once.
pub open spec fn parallel_atom_model(token: Token, case_sensitive: bool) -> Result<
    AtomView,
    ErrorView,
> {
    match token_parts_model(token, case_sensitive) {
        Err(e) => Err(e),
        Ok(parts) => if parts.len() == 1 && parts[0].quantifier == once() {
            Ok(parts[0].atom)
        } else {
            Err(control_flow_in_parallel())
        },
    }
}

/// The atoms of tokens that stand for one place, in their order.
pub open spec fn parallel_atoms_model(tokens: Seq<Token>, case_sensitive: bool) -> Result<
    Seq<AtomView>,
    ErrorView,
>
    decreases tokens.len(),
{
    if tokens.len() == 0 {
        Ok(seq![])
    } else {
        match parallel_atom_model(tokens[0], case_sensitive) {
            Err(e) => Err(e),
            Ok(atom) => prepend(
                seq![atom],
                parallel_atoms_model(tokens.drop_first(), case_sensitive),
            ),
        }
    }
}

fn parallel_atom(token: &Token, case_sensitive: bool) -> (res: Result<Atom, Error>)
    ensures
        result_view(res) == parallel_atom_model(*token, case_sensitive),
{
    let mut parsed = parse_token(token, case_sensitive)?;
    if parsed.len() != 1 || parsed[0].quantifier.min() != 1 || parsed[0].quantifier.max() != 1 {
        return Err(Error::unimplemented("control flow in parallel tokens is not implemented."));
    }
    assert(parsed.deep_view()[0] == parsed@[0]@);
    Ok(parsed.remove(0).atom)
}

/// Builds the atoms of tokens that are to hold of one and the same place.
pub fn parse_parallel_tokens(tokens: &[Token], case_sensitive: bool) -> (res: Result<
    Vec<Atom>,
    Error,
>)
    ensures
        result_view(res) == parallel_atoms_model(tokens@, case_sensitive),
{
    let mut atoms: Vec<Atom> = empty_view();
    let mut i: usize = 0;
    proof {
        assert(tokens@.skip(0) =~= tokens@);
        let all = parallel_atoms_model(tokens@, case_sensitive);
        if all is Ok {
            assert(atoms.deep_view() + all->Ok_0 =~= all->Ok_0);
        }
    }
    while i < tokens.len()
        invariant
            i <= tokens.len(),
            parallel_atoms_model(tokens@, case_sensitive) == prepend(
                atoms.deep_view(),
                parallel_atoms_model(tokens@.skip(i as int), case_sensitive),
            ),
        decreases tokens.len() - i,
    {
        let ghost done = atoms.deep_view();
        let ghost rest = parallel_atoms_model(tokens@.skip(i + 1), case_sensitive);
        assert(tokens@.skip(i as int).drop_first() =~= tokens@.skip(i + 1));
        assert(tokens@.skip(i as int)[0] == tokens@[i as int]);
        let atom = parallel_atom(&tokens[i], case_sensitive)?;
        push_view(&mut atoms, atom);
        proof {
            if rest is Ok {
                assert(done + (seq![atom@] + rest->Ok_0) =~= done.push(atom@) + rest->Ok_0);
            }
        }
        i += 1;
    }
    assert(atoms.deep_view() + Seq::<AtomView>::empty() =~= atoms.deep_view());
    Ok(atoms)
}

/// The visible part that matches one token with `atom`.
pub open spec fn group_part(atom: AtomView) -> PartView {
    PartView { atom, quantifier: once(), visible: true }
}

/// The part for tokens that must all hold of one place.
pub open spec fn and_group_model(tokens: Tokens, case_sensitive: bool) -> Result<
    Seq<PartView>,
    ErrorView,
> {
    match parallel_atoms_model(tokens.tokens@, case_sensitive) {
        Err(e) => Err(e),
        Ok(atoms) => Ok(seq![group_part(AtomView::and(atoms))]),
    }
}

/// The part for tokens of which one must hold of a place.
pub open spec fn or_group_model(tokens: Tokens, case_sensitive: bool) -> Result<
    Seq<PartView>,
    ErrorView,
> {
    match parallel_atoms_model(tokens.tokens@, case_sensitive) {
        Err(e) => Err(e),
        Ok(atoms) => Ok(seq![group_part(AtomView::or(atoms))]),
    }
}

fn and_group(tokens: &Tokens, case_sensitive: bool) -> (res: Result<Vec<Part>, Error>)
    ensures
        result_view(res) == and_group_model(*tokens, case_sensitive),
{
    let atom = Atom::and(parse_parallel_tokens(tokens.tokens.as_slice(), case_sensitive)?);
    Ok(single_view(Part::new(atom, Quantifier::once(), true)))
}

fn or_group(tokens: &Tokens, case_sensitive: bool) -> (res: Result<Vec<Part>, Error>)
    ensures
        result_view(res) == or_group_model(*tokens, case_sensitive),
{
    let atom = Atom::or(parse_parallel_tokens(tokens.tokens.as_slice(), case_sensitive)?);
    Ok(single_view(Part::new(atom, Quantifier::once(), true)))
}

/// The parts of one element among the tokens of a pattern. The tokens of a
/// `unify` block stand where the block stands.
pub open spec fn combination_model(c: TokenCombination, case_sensitive: bool) -> Result<
    Seq<PartView>,
    ErrorView,
>
    decreases c,
{
    match c {
        TokenCombination::Token(token) => token_parts_model(token, case_sensitive),
        TokenCombination::And(tokens) => and_group_model(tokens, case_sensitive),
        TokenCombination::Or(tokens) => or_group_model(tokens, case_sensitive),
        TokenCombination::Unify(unify) => unify_tokens_model(unify.tokens@, case_sensitive),
    }
}

/// The parts of the elements `tokens`, one after the other.
pub open spec fn tokens_model(tokens: Seq<TokenCombination>, case_sensitive: bool) -> Result<
    Seq<PartView>,
    ErrorView,
>
    decreases tokens,
{
    if tokens.len() == 0 {
        Ok(seq![])
    } else {
        match combination_model(tokens[0], case_sensitive) {
            Err(e) => Err(e),
            Ok(parts) => prepend(parts, tokens_model(tokens.drop_first(), case_sensitive)),
        }
    }
}

/// The parts of one element of a `unify` block. A feature has none; ignored
/// tokens stand where their block stands.
pub open spec fn unify_combination_model(c: UnifyTokenCombination, case_sensitive: bool) -> Result<
    Seq<PartView>,
    ErrorView,
>
    decreases c,
{
    match c {
        UnifyTokenCombination::Token(token) => token_parts_model(token, case_sensitive),
        UnifyTokenCombination::And(tokens) => and_group_model(tokens, case_sensitive),
        UnifyTokenCombination::Or(tokens) => or_group_model(tokens, case_sensitive),
        UnifyTokenCombination::Feature(_) => Ok(seq![]),
        UnifyTokenCombination::Ignore(ignore) => tokens_model(ignore.tokens@, case_sensitive),
    }
}

/// The parts of the elements of a `unify` block, one after the other.
pub open spec fn unify_tokens_model(tokens: Seq<UnifyTokenCombination>, case_sensitive: bool) -> Result<
    Seq<PartView>,
    ErrorView,
>
    decreases tokens,
{
    if tokens.len() == 0 {
        Ok(seq![])
    } else {
        match unify_combination_model(tokens[0], case_sensitive) {
            Err(e) => Err(e),
            Ok(parts) => prepend(parts, unify_tokens_model(tokens.drop_first(), case_sensitive)),
        }
    }
}

/// Builds the parts of the elements of a `unify` block.
#[verifier::rlimit(50)]
pub fn parse_unify_tokens(tokens: &Vec<UnifyTokenCombination>, case_sensitive: bool) -> (res: Result<
    Vec<Part>,
    Error,
>)
    ensures
        result_view(res) == unify_tokens_model(tokens@, case_sensitive),
    decreases tokens,
{
    let mut out: Vec<Part> = empty_view();
    let mut i: usize = 0;
    proof {
        assert(tokens@.skip(0) =~= tokens@);
        let all = unify_tokens_model(tokens@, case_sensitive);
        if all is Ok {
            assert(out.deep_view() + all->Ok_0 =~= all->Ok_0);
        }
    }
    while i < tokens.len()
        invariant
            i <= tokens.len(),
            unify_tokens_model(tokens@, case_sensitive) == prepend(
                out.deep_view(),
                unify_tokens_model(tokens@.skip(i as int), case_sensitive),
            ),
        decreases tokens.len() - i,
    {
        proof {
            reveal_with_fuel(unify_tokens_model, 2);
            reveal_with_fuel(unify_combination_model, 2);
        }
        let ghost done = out.deep_view();
        let ghost rest = unify_tokens_model(tokens@.skip(i + 1), case_sensitive);
        assert(tokens@.skip(i as int).drop_first() =~= tokens@.skip(i + 1));
        assert(tokens@.skip(i as int)[0] == tokens@[i as int]);
        let parts = match &tokens[i] {
            UnifyTokenCombination::Token(token) => parse_token(token, case_sensitive)?,
            UnifyTokenCombination::And(tokens) => and_group(tokens, case_sensitive)?,
            UnifyTokenCombination::Or(tokens) => or_group(tokens, case_sensitive)?,
            UnifyTokenCombination::Feature(_) => empty_view(),
            UnifyTokenCombination::Ignore(ignore) => parse_tokens(&ignore.tokens, case_sensitive)?,
        };
        append_view(&mut out, parts);
        proof {
            if rest is Ok {
                assert(done + (parts.deep_view() + rest->Ok_0) =~= (done + parts.deep_view())
                    + rest->Ok_0);
            }
        }
        i += 1;
    }
    assert(out.deep_view() + Seq::<PartView>::empty() =~= out.deep_view());
    Ok(out)
}

/// Builds the parts of the elements `tokens`.
#[verifier::rlimit(50)]
pub fn parse_tokens(tokens: &Vec<TokenCombination>, case_sensitive: bool) -> (res: Result<
    Vec<Part>,
    Error,
>)
    ensures
        result_view(res) == tokens_model(tokens@, case_sensitive),
    decreases tokens,
{
    let mut out: Vec<Part> = empty_view();
    let mut i: usize = 0;
    proof {
        assert(tokens@.skip(0) =~= tokens@);
        let all = tokens_model(tokens@, case_sensitive);
        if all is Ok {
            assert(out.deep_view() + all->Ok_0 =~= all->Ok_0);
        }
    }
    while i < tokens.len()
        invariant
            i <= tokens.len(),
            tokens_model(tokens@, case_sensitive) == prepend(
                out.deep_view(),
                tokens_model(tokens@.skip(i as int), case_sensitive),
            ),
        decreases tokens.len() - i,
    {
        proof {
            reveal_with_fuel(tokens_model, 2);
            reveal_with_fuel(combination_model, 2);
        }
        let ghost done = out.deep_view();
        let ghost rest = tokens_model(tokens@.skip(i + 1), case_sensitive);
        assert(tokens@.skip(i as int).drop_first() =~= tokens@.skip(i + 1));
        assert(tokens@.skip(i as int)[0] == tokens@[i as int]);
        let parts = match &tokens[i] {
            TokenCombination::Token(token) => parse_token(token, case_sensitive)?,
            TokenCombination::And(tokens) => and_group(tokens, case_sensitive)?,
            TokenCombination::Or(tokens) => or_group(tokens, case_sensitive)?,
            TokenCombination::Unify(unify) => parse_unify_tokens(&unify.tokens, case_sensitive)?,
        };
        append_view(&mut out, parts);
        proof {
            if rest is Ok {
                assert(done + (parts.deep_view() + rest->Ok_0) =~= (done + parts.deep_view())
                    + rest->Ok_0);
            }
        }
        i += 1;
    }
    assert(out.deep_view() + Seq::<PartView>::empty() =~= out.deep_view());
    Ok(out)
}

/// The error for a pattern with more parts than can be numbered.
pub open spec fn too_many_parts() -> ErrorView {
    ErrorView::Unexpected("pattern has too many parts"@)
}

/// The id that the next visible part after `parts` gets, where the machine
/// can count so far.
pub open spec fn next_id_model(parts: Seq<PartView>) -> Result<usize, ErrorView> {
    if parts.len() < usize::MAX {
        Ok(last_id(parts) as usize)
    } else {
        Err(too_many_parts())
    }
}

fn next_id(parts: &Vec<Part>) -> (res: Result<usize, Error>)
    ensures
        result_view(res) == next_id_model(parts.deep_view()),
{
    if parts.len() < usize::MAX {
        let slice = parts.as_slice();
        assert(slice.deep_view() =~= parts.deep_view());
        Ok(get_last_id(slice))
    } else {
        Err(Error::unexpected("pattern has too many parts"))
    }
}

/// What has been read of a pattern: its parts so far, and the ids at which
/// the last marker began and ended, if there was one.
pub struct Progress {
    pub parts: Seq<PartView>,
    pub start: Option<usize>,
    pub end: Option<usize>,
}

/// The parts that an element of a pattern other than a marker stands for.
pub open spec fn plain_part_model(part: PatternPart, case_sensitive: bool) -> Result<
    Seq<PartView>,
    ErrorView,
> {
    match part {
        PatternPart::Token(token) => token_parts_model(token, case_sensitive),
        PatternPart::Marker(marker) => tokens_model(marker.tokens@, case_sensitive),
        PatternPart::And(tokens) => and_group_model(tokens, case_sensitive),
        PatternPart::Or(tokens) => or_group_model(tokens, case_sensitive),
        PatternPart::Unify(unify) => unify_tokens_model(unify.tokens@, case_sensitive),
    }
}

/// What has been read of a pattern after the element `part` is added to
/// `before`. The parts of the element follow those read before. A marker
/// sets the span: it begins at the id of its first part and ends before the
/// id of the part that follows its last.
pub open spec fn step_model(before: Progress, part: PatternPart, case_sensitive: bool) -> Result<
    Progress,
    ErrorView,
> {
    match part {
        PatternPart::Marker(marker) => match next_id_model(before.parts) {
            Err(e) => Err(e),
            Ok(start) => match plain_part_model(part, case_sensitive) {
                Err(e) => Err(e),
                Ok(parts) => match next_id_model(before.parts + parts) {
                    Err(e) => Err(e),
                    Ok(end) => Ok(
                        Progress { parts: before.parts + parts, start: Some(start), end: Some(end) },
                    ),
                },
            },
        },
        _ => match plain_part_model(part, case_sensitive) {
            Err(e) => Err(e),
            Ok(parts) => Ok(
                Progress { parts: before.parts + parts, start: before.start, end: before.end },
            ),
        },
    }
}

/// What has been read of a pattern after the elements `parts` are added to
/// `before`, one after the other.
pub open spec fn steps_model(before: Progress, parts: Seq<PatternPart>, case_sensitive: bool) -> Result<
    Progress,
    ErrorView,
>
    decreases parts.len(),
{
    if parts.len() == 0 {
        Ok(before)
    } else {
        match step_model(before, parts[0], case_sensitive) {
            Err(e) => Err(e),
            Ok(after) => steps_model(after, parts.drop_first(), case_sensitive),
        }
    }
}

/// The composition that `pattern` describes, with the span that it marks:
/// the ids of the first marked part and of the part after the last. Without
/// a marker the span covers all parts. Tokens are matched with regard to
/// case only where the pattern or the token says so.
pub open spec fn pattern_model(pattern: Pattern) -> Result<
    (CompositionView, usize, usize),
    ErrorView,
> {
    match yes_no_model(pattern.case_sensitive, false, "case_sensitive"@) {
        Err(e) => Err(e),
        Ok(case_sensitive) => match steps_model(
            Progress { parts: seq![], start: None, end: None },
            pattern.parts@,
            case_sensitive,
        ) {
            Err(e) => Err(e),
            Ok(read) => {
                let start = match read.start {
                    Some(id) => id,
                    None => 1,
                };
                match read.end {
                    Some(end) => Ok((CompositionView { parts: read.parts }, start, end)),
                    None => match next_id_model(read.parts) {
                        Err(e) => Err(e),
                        Ok(end) => Ok((CompositionView { parts: read.parts }, start, end)),
                    },
                }
            },
        },
    }
}

fn plain_part(part: &PatternPart, case_sensitive: bool) -> (res: Result<Vec<Part>, Error>)
    ensures
        result_view(res) == plain_part_model(*part, case_sensitive),
{
    match part {
        PatternPart::Token(token) => parse_token(token, case_sensitive),
        PatternPart::Marker(marker) => parse_tokens(&marker.tokens, case_sensitive),
        PatternPart::And(tokens) => and_group(tokens, case_sensitive),
        PatternPart::Or(tokens) => or_group(tokens, case_sensitive),
        PatternPart::Unify(unify) => parse_unify_tokens(&unify.tokens, case_sensitive),
    }
}

/// Builds the composition that `pattern` describes and finds the span that
/// it marks.
pub fn parse_pattern(pattern: &Pattern) -> (res: Result<(Composition, usize, usize), Error>)
    ensures
        result_view(res) == pattern_model(*pattern),
{
    let case_sensitive = yes_no(&pattern.case_sensitive, false, "case_sensitive")?;
    let mut start: Option<usize> = None;
    let mut end: Option<usize> = None;
    let mut composition_parts: Vec<Part> = empty_view();
    let mut i: usize = 0;
    let ghost first = Progress { parts: seq![], start: None, end: None };
    assert(pattern.parts@.skip(0) =~= pattern.parts@);
    while i < pattern.parts.len()
        invariant
            i <= pattern.parts.len(),
            yes_no_model(pattern.case_sensitive, false, "case_sensitive"@) == Ok::<bool, ErrorView>(
                case_sensitive,
            ),
            first == (Progress { parts: seq![], start: None, end: None }),
            steps_model(first, pattern.parts@, case_sensitive) == steps_model(
                Progress { parts: composition_parts.deep_view(), start, end },
                pattern.parts@.skip(i as int),
                case_sensitive,
            ),
        decreases pattern.parts.len() - i,
    {
        assert(pattern.parts@.skip(i as int).drop_first() =~= pattern.parts@.skip(i + 1));
        assert(pattern.parts@.skip(i as int)[0] == pattern.parts@[i as int]);
        let part = &pattern.parts[i];
        match part {
            PatternPart::Marker(_) => {
                let marked_from = next_id(&composition_parts)?;
                let parts = plain_part(part, case_sensitive)?;
                append_view(&mut composition_parts, parts);
                let marked_to = next_id(&composition_parts)?;
                start = Some(marked_from);
                end = Some(marked_to);
            },
            _ => {
                let parts = plain_part(part, case_sensitive)?;
                append_view(&mut composition_parts, parts);
            },
        }
        i += 1;
    }
    let start = match start {
        Some(id) => id,
        None => 1,
    };
    let end = match end {
        Some(id) => id,
        None => next_id(&composition_parts)?,
    };
    Ok((Composition::new(composition_parts), start, end))
}

} // verus!
