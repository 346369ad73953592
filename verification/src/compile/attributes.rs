//! From the attributes of a token or an exception to the atom that tests
//! what they ask for.

use crate::composition::{Atom, AtomView, Matcher, MatcherTarget, MatcherTargetView, MatcherView};
use crate::error::{result_view, Error, ErrorView};
use crate::regex::{compiled, CompiledRegex};
use crate::structure::MatchAttributes;
use crate::text::{same_text, trim, trimmed};
use crate::views::{append_view, empty_view, push_view, single_view};
use vstd::prelude::*;
use vstd::string::StringExecFns;

verus! {

/// The error for an attribute `name` with a value that it cannot have.
pub open spec fn unknown_value(name: Seq<char>, value: Seq<char>) -> ErrorView {
    ErrorView::Unexpected("unknown "@ + name + " value "@ + value)
}

/// The meaning of an attribute that is `yes` or `no`, and `default` where it
/// is absent.
pub open spec fn yes_no_model(value: Option<String>, default: bool, name: Seq<char>) -> Result<
    bool,
    ErrorView,
> {
    match value {
        None => Ok(default),
        Some(v) => if v@ == "yes"@ {
            Ok(true)
        } else if v@ == "no"@ {
            Ok(false)
        } else {
            Err(unknown_value(name, v@))
        },
    }
}

/// The meaning of an attribute that can only be `yes`, and is off where it is
/// absent.
pub open spec fn yes_only_model(value: Option<String>, name: Seq<char>) -> Result<bool, ErrorView> {
    match value {
        None => Ok(false),
        Some(v) => if v@ == "yes"@ {
            Ok(true)
        } else {
            Err(unknown_value(name, v@))
        },
    }
}

/// The error for an attribute `name` with a value that it cannot have.
pub fn unknown(name: &str, value: &str) -> (e: Error)
    ensures
        e@ == unknown_value(name@, value@),
{
    Error::Unexpected(
        String::from_str("unknown ").concat(name).concat(" value ").concat(value),
    )
}

/// Reads an attribute that is `yes` or `no`.
pub fn yes_no(value: &Option<String>, default: bool, name: &str) -> (res: Result<bool, Error>)
    ensures
        result_view(res) == yes_no_model(*value, default, name@),
{
    match value {
        None => Ok(default),
        Some(v) => {
            if same_text(v.as_str(), "yes") {
                Ok(true)
            } else if same_text(v.as_str(), "no") {
                Ok(false)
            } else {
                Err(unknown(name, v.as_str()))
            }
        },
    }
}

/// Reads an attribute that can only be `yes`.
pub fn yes_only(value: &Option<String>, name: &str) -> (res: Result<bool, Error>)
    ensures
        result_view(res) == yes_only_model(*value, name@),
{
    match value {
        None => Ok(false),
        Some(v) => {
            if same_text(v.as_str(), "yes") {
                Ok(true)
            } else {
                Err(unknown(name, v.as_str()))
            }
        },
    }
}

/// The switches among the attributes of a token or an exception.
#[derive(Debug, Clone, Copy, PartialEq, Eq, Structural)]
pub struct Flags {
    pub case_sensitive: bool,
    pub inflected: bool,
    pub is_regex: bool,
    pub is_postag_regexp: bool,
    pub negate: bool,
    pub negate_pos: bool,
}

impl View for Flags {
    type V = Flags;

    open spec fn view(&self) -> Flags {
        *self
    }
}

impl DeepView for Flags {
    type V = Flags;

    open spec fn deep_view(&self) -> Flags {
        *self
    }
}

/// The switches that `a` sets, where `case_sensitive` is what holds around
/// it. The first attribute with a value it cannot have is the error.
pub open spec fn flags_model(a: MatchAttributes, case_sensitive: bool) -> Result<Flags, ErrorView> {
    match yes_no_model(a.case_sensitive, case_sensitive, "case_sensitive"@) {
        Err(e) => Err(e),
        Ok(case_sensitive) => match yes_no_model(a.inflected, false, "inflected"@) {
            Err(e) => Err(e),
            Ok(inflected) => match yes_only_model(a.regexp, "regexp"@) {
                Err(e) => Err(e),
                Ok(is_regex) => match yes_only_model(a.postag_regexp, "postag_regexp"@) {
                    Err(e) => Err(e),
                    Ok(is_postag_regexp) => match yes_no_model(a.negate, false, "negate"@) {
                        Err(e) => Err(e),
                        Ok(negate) => match yes_no_model(a.negate_pos, false, "negate_pos"@) {
                            Err(e) => Err(e),
                            Ok(negate_pos) => Ok(
                                Flags {
                                    case_sensitive,
                                    inflected,
                                    is_regex,
                                    is_postag_regexp,
                                    negate,
                                    negate_pos,
                                },
                            ),
                        },
                    },
                },
            },
        },
    }
}

/// Reads the switches among the attributes `a`.
pub fn parse_flags(a: &MatchAttributes, case_sensitive: bool) -> (res: Result<Flags, Error>)
    ensures
        result_view(res) == flags_model(*a, case_sensitive),
{
    let case_sensitive = yes_no(&a.case_sensitive, case_sensitive, "case_sensitive")?;
    let inflected = yes_no(&a.inflected, false, "inflected")?;
    let is_regex = yes_only(&a.regexp, "regexp")?;
    let is_postag_regexp = yes_only(&a.postag_regexp, "postag_regexp")?;
    let negate = yes_no(&a.negate, false, "negate")?;
    let negate_pos = yes_no(&a.negate_pos, false, "negate_pos")?;
    Ok(Flags { case_sensitive, inflected, is_regex, is_postag_regexp, negate, negate_pos })
}

/// The matcher on a token's text or lemma: none where the token names neither
/// a text nor a reference. A reference goes before the text, and a text is
/// taken without the white space around it.
pub open spec fn text_matcher_model(
    text: Option<Seq<char>>,
    reference: Option<usize>,
    f: Flags,
) -> Result<Option<MatcherView>, ErrorView> {
    match (text, reference) {
        (None, None) => Ok(None),
        (_, Some(id)) => Ok(
            Some(
                MatcherView::String {
                    target: MatcherTargetView::Reference(id),
                    negate: f.negate,
                    case_sensitive: f.case_sensitive,
                    inflected: f.inflected,
                },
            ),
        ),
        (Some(t), None) => if f.is_regex {
            match compiled(trimmed(t), true, f.case_sensitive) {
                Ok(pattern) => Ok(
                    Some(MatcherView::Regex { pattern, negate: f.negate, inflected: f.inflected }),
                ),
                Err(e) => Err(e),
            }
        } else {
            Ok(
                Some(
                    MatcherView::String {
                        target: MatcherTargetView::Text(trimmed(t)),
                        negate: f.negate,
                        case_sensitive: f.case_sensitive,
                        inflected: f.inflected,
                    },
                ),
            )
        },
    }
}

/// The matcher on the tag of an analysis: none where no tag is named.
pub open spec fn postag_matcher_model(postag: Option<String>, f: Flags) -> Result<
    Option<MatcherView>,
    ErrorView,
> {
    match postag {
        None => Ok(None),
        Some(tag) => if f.is_postag_regexp {
            match compiled(trimmed(tag@), true, true) {
                Ok(pattern) => Ok(
                    Some(MatcherView::Regex { pattern, negate: f.negate_pos, inflected: true }),
                ),
                Err(e) => Err(e),
            }
        } else {
            Ok(
                Some(
                    MatcherView::String {
                        target: MatcherTargetView::Text(trimmed(tag@)),
                        negate: f.negate_pos,
                        case_sensitive: true,
                        inflected: true,
                    },
                ),
            )
        },
    }
}

/// The atom that asks for the chunk tag `chunk`.
pub open spec fn chunk_atom_model(chunk: Seq<char>) -> AtomView {
    AtomView::Chunk(
        MatcherView::String {
            target: MatcherTargetView::Text(trimmed(chunk)),
            negate: false,
            case_sensitive: true,
            inflected: true,
        },
    )
}

/// The atoms on a token's chunk tags. A literal tag is asked for twice over,
/// which the conjunction does not feel; a literal and a regular expression
/// together contradict each other.
pub open spec fn chunk_atoms_model(chunk: Option<String>, chunk_re: Option<String>) -> Result<
    Seq<AtomView>,
    ErrorView,
> {
    match (chunk, chunk_re) {
        (None, None) => Ok(seq![]),
        (Some(c), None) => Ok(seq![chunk_atom_model(c@), chunk_atom_model(c@)]),
        (None, Some(re)) => match compiled(trimmed(re@), true, true) {
            Ok(pattern) => Ok(
                seq![AtomView::Chunk(MatcherView::Regex { pattern, negate: false, inflected: true })],
            ),
            Err(e) => Err(e),
        },
        (Some(_), Some(_)) => Err(
            ErrorView::Unexpected("unexpected combination of chunk / chunk_re values."@),
        ),
    }
}

/// The atoms on the white space before a token.
pub open spec fn space_atoms_model(spacebefore: Option<String>) -> Result<Seq<AtomView>, ErrorView> {
    match spacebefore {
        None => Ok(seq![]),
        Some(_) => match yes_no_model(spacebefore, false, "spacebefore"@) {
            Ok(value) => Ok(seq![AtomView::SpaceBefore(value)]),
            Err(e) => Err(e),
        },
    }
}

/// The atoms on a token's text and analyses. A matcher on an inflected text
/// tests the lemma, beside the matcher on the tag; any other tests the text.
pub open spec fn word_atoms_model(
    text_matcher: Option<MatcherView>,
    postag_matcher: Option<MatcherView>,
    f: Flags,
) -> Seq<AtomView> {
    let text_atoms = match text_matcher {
        Some(m) if !f.inflected => seq![AtomView::Text(m)],
        _ => seq![],
    };
    let lemma_matcher = if f.inflected {
        text_matcher
    } else {
        None
    };
    let analysis_atoms = if postag_matcher is Some || lemma_matcher is Some {
        seq![
            AtomView::WordData {
                pos: postag_matcher,
                lemma: lemma_matcher,
                case_sensitive: f.case_sensitive,
            },
        ]
    } else {
        seq![]
    };
    text_atoms + analysis_atoms
}

/// The atom that the attributes `a` describe, for a token with the content
/// `text` or with a reference to the part `reference`: the conjunction of
/// what they ask of the text, the analyses, the chunk tags and the white
/// space, in this order. The first fault found, in the order of
/// [`flags_model`] and then of these four, is the error.
pub open spec fn match_atom_model(
    a: MatchAttributes,
    text: Option<Seq<char>>,
    case_sensitive: bool,
    reference: Option<usize>,
) -> Result<AtomView, ErrorView> {
    match flags_model(a, case_sensitive) {
        Err(e) => Err(e),
        Ok(f) => match text_matcher_model(text, reference, f) {
            Err(e) => Err(e),
            Ok(text_matcher) => match postag_matcher_model(a.postag, f) {
                Err(e) => Err(e),
                Ok(postag_matcher) => match chunk_atoms_model(a.chunk, a.chunk_re) {
                    Err(e) => Err(e),
                    Ok(chunk_atoms) => match space_atoms_model(a.spacebefore) {
                        Err(e) => Err(e),
                        Ok(space_atoms) => Ok(
                            AtomView::and(
                                word_atoms_model(text_matcher, postag_matcher, f) + chunk_atoms
                                    + space_atoms,
                            ),
                        ),
                    },
                },
            },
        },
    }
}

/// The view of an optional text.
pub open spec fn text_view(text: Option<&str>) -> Option<Seq<char>> {
    match text {
        Some(t) => Some(t@),
        None => None,
    }
}

fn text_matcher(text: Option<&str>, reference: Option<usize>, f: Flags) -> (res: Result<
    Option<Matcher>,
    Error,
>)
    ensures
        result_view(res) == text_matcher_model(text_view(text), reference, f),
{
    match (text, reference) {
        (None, None) => Ok(None),
        (_, Some(id)) => Ok(
            Some(
                Matcher::new_string(
                    MatcherTarget::Reference(id),
                    f.negate,
                    f.case_sensitive,
                    f.inflected,
                ),
            ),
        ),
        (Some(t), None) => {
            let text = trim(t);
            if f.is_regex {
                let regex = CompiledRegex::new(text.as_str(), true, f.case_sensitive)?;
                Ok(Some(Matcher::new_regex(regex, f.negate, f.inflected)))
            } else {
                Ok(
                    Some(
                        Matcher::new_string(
                            MatcherTarget::Text(text),
                            f.negate,
                            f.case_sensitive,
                            f.inflected,
                        ),
                    ),
                )
            }
        },
    }
}

fn postag_matcher(postag: &Option<String>, f: Flags) -> (res: Result<Option<Matcher>, Error>)
    ensures
        result_view(res) == postag_matcher_model(*postag, f),
{
    match postag {
        None => Ok(None),
        Some(tag) => {
            let tag = trim(tag.as_str());
            if f.is_postag_regexp {
                let regex = CompiledRegex::new(tag.as_str(), true, true)?;
                Ok(Some(Matcher::new_regex(regex, f.negate_pos, true)))
            } else {
                Ok(Some(Matcher::new_string(MatcherTarget::Text(tag), f.negate_pos, true, true)))
            }
        },
    }
}

fn chunk_atom(chunk: &str) -> (atom: Atom)
    ensures
        atom@ == chunk_atom_model(chunk@),
{
    Atom::Chunk(Matcher::new_string(MatcherTarget::Text(trim(chunk)), false, true, true))
}

fn chunk_atoms(chunk: &Option<String>, chunk_re: &Option<String>) -> (res: Result<Vec<Atom>, Error>)
    ensures
        result_view(res) == chunk_atoms_model(*chunk, *chunk_re),
{
    match (chunk, chunk_re) {
        (None, None) => Ok(empty_view()),
        (Some(c), None) => {
            let mut atoms = single_view(chunk_atom(c.as_str()));
            push_view(&mut atoms, chunk_atom(c.as_str()));
            assert(atoms.deep_view() =~= seq![chunk_atom_model(c@), chunk_atom_model(c@)]);
            Ok(atoms)
        },
        (None, Some(re)) => {
            let regex = CompiledRegex::new(trim(re.as_str()).as_str(), true, true)?;
            Ok(single_view(Atom::Chunk(Matcher::new_regex(regex, false, true))))
        },
        (Some(_), Some(_)) => Err(
            Error::unexpected("unexpected combination of chunk / chunk_re values."),
        ),
    }
}

fn space_atoms(spacebefore: &Option<String>) -> (res: Result<Vec<Atom>, Error>)
    ensures
        result_view(res) == space_atoms_model(*spacebefore),
{
    match spacebefore {
        None => Ok(empty_view()),
        Some(_) => {
            let value = yes_no(spacebefore, false, "spacebefore")?;
            Ok(single_view(Atom::SpaceBefore(value)))
        },
    }
}

fn word_atoms(text_matcher: Option<Matcher>, postag_matcher: Option<Matcher>, f: Flags) -> (atoms:
    Vec<Atom>)
    ensures
        atoms.deep_view() == word_atoms_model(
            text_matcher.deep_view(),
            postag_matcher.deep_view(),
            f,
        ),
{
    let mut atoms: Vec<Atom> = empty_view();
    let lemma_matcher = match text_matcher {
        Some(m) => {
            if f.inflected {
                Some(m)
            } else {
                push_view(&mut atoms, Atom::Text(m));
                None
            }
        },
        None => None,
    };
    if postag_matcher.is_some() || lemma_matcher.is_some() {
        push_view(
            &mut atoms,
            Atom::WordData {
                pos: postag_matcher,
                lemma: lemma_matcher,
                case_sensitive: f.case_sensitive,
            },
        );
    }
    assert(atoms.deep_view() =~= word_atoms_model(
        text_matcher.deep_view(),
        postag_matcher.deep_view(),
        f,
    ));
    atoms
}

/// Builds the atom that the attributes `attribs` describe, for a token with
/// the content `text` or with a reference to the part `text_match_idx`.
/// `case_sensitive` holds where the attributes do not say otherwise.
pub fn parse_match_attribs(
    attribs: &MatchAttributes,
    text: Option<&str>,
    case_sensitive: bool,
    text_match_idx: Option<usize>,
) -> (res: Result<Atom, Error>)
    ensures
        result_view(res) == match_atom_model(
            *attribs,
            text_view(text),
            case_sensitive,
            text_match_idx,
        ),
{
    let f = parse_flags(attribs, case_sensitive)?;
    let text_matcher = text_matcher(text, text_match_idx, f)?;
    let postag_matcher = postag_matcher(&attribs.postag, f)?;
    let chunk_atoms = chunk_atoms(&attribs.chunk, &attribs.chunk_re)?;
    let space_atoms = space_atoms(&attribs.spacebefore)?;
    let mut atoms = word_atoms(text_matcher, postag_matcher, f);
    append_view(&mut atoms, chunk_atoms);
    append_view(&mut atoms, space_atoms);
    Ok(Atom::and(atoms))
}

} // verus!
