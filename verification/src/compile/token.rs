//! From one token of a pattern to the parts that match it.

use crate::compile::attributes::{
    match_atom_model,
    parse_match_attribs,
    text_view,
    unknown,
    unknown_value,
};
use crate::composition::{
    last_id,
    visible_count,
    Atom,
    AtomView,
    Part,
    PartView,
    Quantifier,
    QuantifierView,
    MAX_MATCHES,
};
use crate::error::{prepend, result_view, Error, ErrorView};
use crate::structure::{Exception, Token, TokenPart};
use crate::text::{decimal_usize, parse_usize, same_text};
use crate::views::{empty_view, push_view, single_view};
use vstd::prelude::*;
use vstd::string::StringExecFns;

verus! {

/// The error for a number `what` that is not written as one.
pub open spec fn not_a_number(what: Seq<char>) -> ErrorView {
    ErrorView::Unexpected("can't parse "@ + what + " as a number"@)
}

/// The number that a repetition count is written as: `-1` stands for the
/// cap, anything else for itself in decimal notation.
pub open spec fn count_model(value: Seq<char>, what: Seq<char>) -> Result<usize, ErrorView> {
    if value == "-1"@ {
        Ok(MAX_MATCHES)
    } else {
        match decimal_usize(value) {
            Some(n) => Ok(n),
            None => Err(not_a_number(what)),
        }
    }
}

/// The error for a number `what` that is not written as one.
pub fn number_error(what: &str) -> (e: Error)
    ensures
        e@ == not_a_number(what@),
{
    Error::Unexpected(String::from_str("can't parse ").concat(what).concat(" as a number"))
}

/// Reads a repetition count.
pub fn parse_count(value: &str, what: &str) -> (res: Result<usize, Error>)
    ensures
        result_view(res) == count_model(value@, what@),
{
    if same_text(value, "-1") {
        Ok(MAX_MATCHES)
    } else {
        match parse_usize(value) {
            Some(n) => Ok(n),
            None => Err(number_error(what)),
        }
    }
}

/// A repetition bound: once, where the token does not give it.
pub open spec fn bound_model(value: Option<String>, what: Seq<char>) -> Result<usize, ErrorView> {
    match value {
        None => Ok(1),
        Some(v) => count_model(v@, what),
    }
}

/// The error for repetition bounds that are out of order or above the cap.
pub open spec fn bounds_out_of_range() -> ErrorView {
    ErrorView::Unexpected("repetition bounds must satisfy min <= max <= 20"@)
}

/// The quantifier with the bounds `min` and `max`, if they are in order and
/// within the cap.
pub open spec fn checked_quantifier(min: usize, max: usize) -> Result<QuantifierView, ErrorView> {
    if min <= max <= MAX_MATCHES {
        Ok(QuantifierView { min: min as nat, max: max as nat })
    } else {
        Err(bounds_out_of_range())
    }
}

/// The quantifier of a token with the attributes `min` and `max`. An upper
/// bound of one, given or by default, below a lower bound of more than one
/// is raised to the cap.
pub open spec fn quantifier_model(min: Option<String>, max: Option<String>) -> Result<
    QuantifierView,
    ErrorView,
> {
    match bound_model(min, "min"@) {
        Err(e) => Err(e),
        Ok(min) => match bound_model(max, "max"@) {
            Err(e) => Err(e),
            Ok(max) => checked_quantifier(
                min,
                if min > 1 && max == 1 {
                    MAX_MATCHES
                } else {
                    max
                },
            ),
        },
    }
}

/// However the bounds of a token are written, the quantifier made of them
/// has `min <= max <= 20`. A `min` of `-1` without a `max` gives 20 to 20;
/// a `max` of `-1` gives a `max` of 20; and a `max` that comes to 1 below a
/// `min` above 1 gives a `max` of 20.
pub proof fn lemma_quantifier_normalized(min: Option<String>, max: Option<String>)
    ensures
        quantifier_model(min, max) matches Ok(q) ==> q.min <= q.max <= 20,
        (min matches Some(m) && m@ == "-1"@) && max is None ==> quantifier_model(min, max) == Ok::<
            QuantifierView,
            ErrorView,
        >(QuantifierView { min: 20, max: 20 }),
        (max matches Some(m) && m@ == "-1"@) ==> (quantifier_model(min, max) matches Ok(q) ==> q.max
            == 20),
        (bound_model(min, "min"@) matches Ok(lo) && lo > 1) && bound_model(max, "max"@) == Ok::<
            usize,
            ErrorView,
        >(1) ==> (quantifier_model(min, max) matches Ok(q) ==> q.max == 20),
{
}

fn check_quantifier(min: usize, max: usize) -> (res: Result<Quantifier, Error>)
    ensures
        result_view(res) == checked_quantifier(min, max),
{
    match Quantifier::new(min, max) {
        Some(q) => Ok(q),
        None => Err(Error::unexpected("repetition bounds must satisfy min <= max <= 20")),
    }
}

fn parse_bound(value: &Option<String>, what: &str) -> (res: Result<usize, Error>)
    ensures
        result_view(res) == bound_model(*value, what@),
{
    match value {
        None => Ok(1),
        Some(v) => parse_count(v.as_str(), what),
    }
}

/// Reads the repetition bounds of a token and brings them into order.
pub fn normalize_quantifier(min: &Option<String>, max: &Option<String>) -> (res: Result<
    Quantifier,
    Error,
>)
    ensures
        result_view(res) == quantifier_model(*min, *max),
{
    let min = parse_bound(min, "min")?;
    let max = parse_bound(max, "max")?;
    let max = if min > 1 && max == 1 {
        MAX_MATCHES
    } else {
        max
    };
    check_quantifier(min, max)
}

/// The text that a token holds: its first piece of text.
pub open spec fn first_text(parts: Seq<TokenPart>) -> Option<Seq<char>>
    decreases parts.len(),
{
    if parts.len() == 0 {
        None
    } else {
        match parts[0] {
            TokenPart::Text(t) => Some(t@),
            _ => first_text(parts.drop_first()),
        }
    }
}

/// The number that a token's first reference is written with.
pub open spec fn first_reference(parts: Seq<TokenPart>) -> Option<Seq<char>>
    decreases parts.len(),
{
    if parts.len() == 0 {
        None
    } else {
        match parts[0] {
            TokenPart::Sub(sub) => Some(sub.no@),
            _ => first_reference(parts.drop_first()),
        }
    }
}

/// The content of `token`, if it has one.
pub open spec fn token_text(token: Token) -> Option<Seq<char>> {
    match token.parts {
        Some(parts) => first_text(parts@),
        None => None,
    }
}

/// The id of the part that `token` refers to, if it refers to one: the
/// number it is written with counts from zero, the ids from one.
pub open spec fn token_reference(token: Token) -> Result<Option<usize>, ErrorView> {
    let written = match token.parts {
        Some(parts) => first_reference(parts@),
        None => None,
    };
    match written {
        None => Ok(None),
        Some(no) => match decimal_usize(no) {
            Some(n) if n < usize::MAX => Ok(Some((n + 1) as usize)),
            _ => Err(not_a_number("no"@)),
        },
    }
}

fn find_text<'a>(parts: &'a Vec<TokenPart>) -> (r: Option<&'a str>)
    ensures
        text_view(r) == first_text(parts@),
{
    let mut i: usize = 0;
    assert(parts@.skip(0) =~= parts@);
    while i < parts.len()
        invariant
            i <= parts.len(),
            first_text(parts@) == first_text(parts@.skip(i as int)),
        decreases parts.len() - i,
    {
        assert(parts@.skip(i as int).drop_first() =~= parts@.skip(i + 1));
        match &parts[i] {
            TokenPart::Text(t) => {
                return Some(t.as_str());
            },
            _ => {},
        }
        i += 1;
    }
    None
}

fn find_reference<'a>(parts: &'a Vec<TokenPart>) -> (r: Option<&'a str>)
    ensures
        text_view(r) == first_reference(parts@),
{
    let mut i: usize = 0;
    assert(parts@.skip(0) =~= parts@);
    while i < parts.len()
        invariant
            i <= parts.len(),
            first_reference(parts@) == first_reference(parts@.skip(i as int)),
        decreases parts.len() - i,
    {
        assert(parts@.skip(i as int).drop_first() =~= parts@.skip(i + 1));
        match &parts[i] {
            TokenPart::Sub(sub) => {
                return Some(sub.no.as_str());
            },
            _ => {},
        }
        i += 1;
    }
    None
}

fn parse_reference(token: &Token) -> (res: Result<Option<usize>, Error>)
    ensures
        result_view(res) == token_reference(*token),
{
    let written = match &token.parts {
        Some(parts) => find_reference(parts),
        None => None,
    };
    match written {
        None => Ok(None),
        Some(no) => match parse_usize(no) {
            Some(n) => {
                if n < usize::MAX {
                    Ok(Some(n + 1))
                } else {
                    Err(number_error("no"))
                }
            },
            None => Err(number_error("no")),
        },
    }
}

/// How far from the token that holds it an exception looks.
pub open spec fn scope_offset(scope: Option<String>) -> Result<isize, ErrorView> {
    match scope {
        None => Ok(0),
        Some(s) => if s@ == "next"@ {
            Ok(1)
        } else if s@ == "current"@ {
            Ok(0)
        } else if s@ == "previous"@ {
            Ok(-1isize)
        } else {
            Err(unknown_value("scope"@, s@))
        },
    }
}

fn parse_scope(scope: &Option<String>) -> (res: Result<isize, Error>)
    ensures
        result_view(res) == scope_offset(*scope),
{
    match scope {
        None => Ok(0),
        Some(s) => {
            if same_text(s.as_str(), "next") {
                Ok(1)
            } else if same_text(s.as_str(), "current") {
                Ok(0)
            } else if same_text(s.as_str(), "previous") {
                Ok(-1)
            } else {
                Err(unknown("scope", s.as_str()))
            }
        },
    }
}

/// The view of an optional string.
pub open spec fn string_view(text: Option<String>) -> Option<Seq<char>> {
    match text {
        Some(t) => Some(t@),
        None => None,
    }
}

/// What one exception contributes to the exceptions of its token: its atom,
/// moved to the token it looks at; nothing where only exceptions that look
/// elsewhere are asked for and this one looks at the token itself.
pub open spec fn exception_model(x: Exception, case_sensitive: bool, only_shifted: bool) -> Result<
    Seq<AtomView>,
    ErrorView,
> {
    match match_atom_model(x.attributes, string_view(x.text), case_sensitive, None) {
        Err(e) => Err(e),
        Ok(atom) => match scope_offset(x.scope) {
            Err(e) => Err(e),
            Ok(offset) => if !only_shifted || offset != 0 {
                Ok(seq![AtomView::shifted(atom, offset as int)])
            } else {
                Ok(seq![])
            },
        },
    }
}

/// The atoms of the exceptions among `parts`, in their order.
pub open spec fn exception_atoms(parts: Seq<TokenPart>, case_sensitive: bool, only_shifted: bool) -> Result<
    Seq<AtomView>,
    ErrorView,
>
    decreases parts.len(),
{
    if parts.len() == 0 {
        Ok(seq![])
    } else {
        let first = match parts[0] {
            TokenPart::Exception(x) => exception_model(x, case_sensitive, only_shifted),
            _ => Ok(seq![]),
        };
        match first {
            Err(e) => Err(e),
            Ok(atoms) => prepend(
                atoms,
                exception_atoms(parts.drop_first(), case_sensitive, only_shifted),
            ),
        }
    }
}

/// The atom that holds where none of the exceptions of `token` does; with
/// `only_shifted`, none of those that look at another token.
pub open spec fn exceptions_model(token: Token, case_sensitive: bool, only_shifted: bool) -> Result<
    AtomView,
    ErrorView,
> {
    match token.parts {
        None => Ok(AtomView::True),
        Some(parts) => match exception_atoms(parts@, case_sensitive, only_shifted) {
            Err(e) => Err(e),
            Ok(atoms) => Ok(AtomView::Not(Box::new(AtomView::or(atoms)))),
        },
    }
}

fn parse_exception(x: &Exception, case_sensitive: bool, only_shifted: bool) -> (res: Result<
    Vec<Atom>,
    Error,
>)
    ensures
        result_view(res) == exception_model(*x, case_sensitive, only_shifted),
{
    let text = match &x.text {
        Some(t) => Some(t.as_str()),
        None => None,
    };
    let atom = parse_match_attribs(&x.attributes, text, case_sensitive, None)?;
    let offset = parse_scope(&x.scope)?;
    if !only_shifted || offset != 0 {
        Ok(single_view(Atom::offset(atom, offset)))
    } else {
        Ok(empty_view())
    }
}

/// Builds the atom that holds where none of the exceptions of `token` does.
/// With `only_shifted` the exceptions that look at the token itself are left
/// out.
pub fn get_exceptions(token: &Token, case_sensitive: bool, only_shifted: bool) -> (res: Result<
    Atom,
    Error,
>)
    ensures
        result_view(res) == exceptions_model(*token, case_sensitive, only_shifted),
{
    match &token.parts {
        None => Ok(Atom::True),
        Some(parts) => {
            let mut exceptions: Vec<Atom> = empty_view();
            let mut i: usize = 0;
            proof {
                assert(parts@.skip(0) =~= parts@);
                assert(exceptions.deep_view() + exception_atoms(
                    parts@,
                    case_sensitive,
                    only_shifted,
                )->Ok_0 =~= exception_atoms(parts@, case_sensitive, only_shifted)->Ok_0);
            }
            while i < parts.len()
                invariant
                    i <= parts.len(),
                    token.parts == Some(*parts),
                    exception_atoms(parts@, case_sensitive, only_shifted) == prepend(
                        exceptions.deep_view(),
                        exception_atoms(parts@.skip(i as int), case_sensitive, only_shifted),
                    ),
                decreases parts.len() - i,
            {
                let ghost done = exceptions.deep_view();
                let ghost rest = exception_atoms(
                    parts@.skip(i + 1),
                    case_sensitive,
                    only_shifted,
                );
                assert(parts@.skip(i as int).drop_first() =~= parts@.skip(i + 1));
                assert(parts@.skip(i as int)[0] == parts@[i as int]);
                match &parts[i] {
                    TokenPart::Exception(x) => {
                        let atoms = parse_exception(x, case_sensitive, only_shifted)?;
                        crate::views::append_view(&mut exceptions, atoms);
                        proof {
                            if rest is Ok {
                                assert(done + (atoms.deep_view() + rest->Ok_0) =~= (done
                                    + atoms.deep_view()) + rest->Ok_0);
                            }
                        }
                    },
                    _ => {
                        proof {
                            if rest is Ok {
                                assert(done + (Seq::<AtomView>::empty() + rest->Ok_0) =~= done
                                    + rest->Ok_0);
                            }
                        }
                    },
                }
                i += 1;
            }
            assert(exceptions.deep_view() + Seq::<AtomView>::empty() =~= exceptions.deep_view());
            Ok(Atom::not(Atom::or(exceptions)))
        },
    }
}

/// The quantifier of the part that passes over up to `to_skip` tokens, if
/// the count is within the cap.
pub open spec fn skip_quantifier(to_skip: usize) -> Result<QuantifierView, ErrorView> {
    checked_quantifier(0, to_skip)
}

/// The part that may pass over tokens behind `token`, where it has a `skip`
/// count: up to that many tokens, none of them one that an exception of
/// `token` with a scope other than the token itself holds of. The part is
/// not visible.
pub open spec fn skip_parts_model(token: Token, case_sensitive: bool) -> Result<
    Seq<PartView>,
    ErrorView,
> {
    match token.skip {
        None => Ok(seq![]),
        Some(skip) => match count_model(skip@, "skip"@) {
            Err(e) => Err(e),
            Ok(to_skip) => match skip_quantifier(to_skip) {
                Err(e) => Err(e),
                Ok(quantifier) => match exceptions_model(token, case_sensitive, true) {
                    Err(e) => Err(e),
                    Ok(atom) => Ok(seq![PartView { atom, quantifier, visible: false }]),
                },
            },
        },
    }
}

/// The parts that match `token`: one visible part with the token's atom,
/// held back by its exceptions, and with its quantifier; then the part for
/// its `skip` count, if it has one.
pub open spec fn token_parts_model(token: Token, case_sensitive: bool) -> Result<
    Seq<PartView>,
    ErrorView,
> {
    match token_reference(token) {
        Err(e) => Err(e),
        Ok(reference) => match quantifier_model(token.min, token.max) {
            Err(e) => Err(e),
            Ok(quantifier) => match match_atom_model(
                token.attributes,
                token_text(token),
                case_sensitive,
                reference,
            ) {
                Err(e) => Err(e),
                Ok(atom) => match exceptions_model(token, case_sensitive, false) {
                    Err(e) => Err(e),
                    Ok(exceptions) => prepend(
                        seq![
                            PartView {
                                atom: AtomView::and(seq![atom, exceptions]),
                                quantifier,
                                visible: true,
                            },
                        ],
                        skip_parts_model(token, case_sensitive),
                    ),
                },
            },
        },
    }
}

fn skip_parts(token: &Token, case_sensitive: bool) -> (res: Result<Vec<Part>, Error>)
    ensures
        result_view(res) == skip_parts_model(*token, case_sensitive),
{
    match &token.skip {
        None => Ok(empty_view()),
        Some(skip) => {
            let to_skip = parse_count(skip.as_str(), "skip")?;
            let quantifier = check_quantifier(0, to_skip)?;
            let atom = get_exceptions(token, case_sensitive, true)?;
            Ok(single_view(Part::new(atom, quantifier, false)))
        },
    }
}

/// Builds the parts that match `token`.
pub fn parse_token(token: &Token, case_sensitive: bool) -> (res: Result<Vec<Part>, Error>)
    ensures
        result_view(res) == token_parts_model(*token, case_sensitive),
{
    let text = match &token.parts {
        Some(parts) => find_text(parts),
        None => None,
    };
    let reference = parse_reference(token)?;
    let quantifier = normalize_quantifier(&token.min, &token.max)?;
    let atom = parse_match_attribs(&token.attributes, text, case_sensitive, reference)?;
    let exceptions = get_exceptions(token, case_sensitive, false)?;
    let mut both = single_view(atom);
    push_view(&mut both, exceptions);
    assert(both.deep_view() =~= seq![atom@, exceptions@]);
    let mut parts = single_view(Part::new(Atom::and(both), quantifier, true));
    let skipped = skip_parts(token, case_sensitive)?;
    crate::views::append_view(&mut parts, skipped);
    Ok(parts)
}

/// The id that the next visible part after `parts` would get: one more than
/// the number of visible parts.
pub fn get_last_id(parts: &[Part]) -> (id: usize)
    requires
        parts.len() < usize::MAX,
    ensures
        id == last_id(parts.deep_view()),
        id == 1 + visible_count(parts.deep_view()),
{
    let mut id: usize = 1;
    let mut i: usize = 0;
    let ghost all = parts.deep_view();
    assert(all.take(0) =~= Seq::<PartView>::empty());
    while i < parts.len()
        invariant
            i <= parts.len(),
            parts.len() < usize::MAX,
            all == parts.deep_view(),
            id == 1 + visible_count(all.take(i as int)),
            id <= i + 1,
        decreases parts.len() - i,
    {
        proof {
            assert(all.take(i + 1).drop_last() =~= all.take(i as int));
            assert(all.take(i + 1).last() == parts[i as int]@);
        }
        if parts[i].visible {
            id += 1;
        }
        i += 1;
    }
    assert(all.take(parts.len() as int) =~= all);
    id
}

/// A part that is not visible leaves the numbering as it was, and a visible
/// one moves it on by one.
pub proof fn lemma_last_id_push(parts: Seq<PartView>, part: PartView)
    ensures
        last_id(parts.push(part)) == last_id(parts) + if part.visible {
            1nat
        } else {
            0nat
        },
{
    assert(parts.push(part).drop_last() =~= parts);
}

} // verus!
