//! Regular expressions, compiled once when a rule is built.

use crate::error::{Error, ErrorView};
use vstd::prelude::*;
use vstd::string::StringExecFns;

verus! {

#[verifier::external_type_specification]
#[verifier::external_body]
pub struct ExOnigRegex(onig::Regex);

/// What the regex engine answers when asked to compile `pattern`: `None` where
/// the pattern compiles, else its description of the fault.
pub uninterp spec fn compile_failure(pattern: Seq<char>) -> Option<Seq<char>>;

/// The pattern that a compiled expression was compiled from.
pub uninterp spec fn regex_source(regex: onig::Regex) -> Seq<char>;

/// The number of capture groups that the regex engine counts in `pattern`.
pub uninterp spec fn capture_count(pattern: Seq<char>) -> usize;

/// Calls `onig::Regex::new`, which compiles `pattern` in the engine's
/// default syntax with default options. The outcome depends on the pattern
/// alone: a compiled expression that stands for this pattern, or the
/// engine's description of the fault in it.
#[verifier::external_body]
fn onig_new(pattern: &str) -> (res: Result<onig::Regex, String>)
    ensures
        match res {
            Ok(regex) => compile_failure(pattern@) is None && regex_source(regex) == pattern@,
            Err(description) => compile_failure(pattern@) == Some(description@),
        },
{
    onig::Regex::new(pattern).map_err(|fault| fault.description().to_string())
}

/// Calls `onig::Regex::captures_len`, the number of capture groups of the
/// pattern that `regex` was compiled from.
#[verifier::external_body]
fn onig_captures_len(regex: &onig::Regex) -> (n: usize)
    ensures
        n == capture_count(regex_source(*regex)),
{
    regex.captures_len()
}

/// The number of bytes that the regex engine matches when it is asked to
/// match `pattern` with the whole of `text` from its start: `None` where it
/// finds no match or gives up.
pub uninterp spec fn whole_match(pattern: Seq<char>, text: Seq<char>) -> Option<usize>;

/// Calls `onig::Regex::match_with_param` at the start of `text`, with the
/// option to match the whole string and default limits. A fault of the
/// engine counts as no match.
#[verifier::external_body]
fn onig_match(regex: &onig::Regex, text: &str) -> (matched: Option<usize>)
    ensures
        matched == whole_match(regex_source(*regex), text@),
{
    let whole = onig::SearchOptions::SEARCH_OPTION_WHOLE_STRING;
    regex.match_with_param(text, 0, whole, None, onig::MatchParam::default()).ok().flatten()
}

/// What the regex engine finds when it searches `text` for `pattern` from the
/// byte `from` on: for each group of the first match, the bytes at which it
/// begins and ends, or nothing for a group that took no part; and `None`
/// where it finds no match or gives up.
pub uninterp spec fn search_groups(pattern: Seq<char>, text: Seq<char>, from: usize) -> Option<
    Seq<Option<(usize, usize)>>,
>;

/// Calls `onig::Regex::search_with_param` from the byte `from` to the end of
/// `text`, with default options and limits, and reads every group's place
/// out of the region with `onig::Region::pos`. A fault of the engine counts
/// as no match.
#[verifier::external_body]
fn onig_search(regex: &onig::Regex, text: &str, from: usize) -> (found: Option<
    Vec<Option<(usize, usize)>>,
>)
    requires
        from <= vstd::utf8::encode_utf8(text@).len(),
    ensures
        found.deep_view() == search_groups(regex_source(*regex), text@, from),
{
    let mut region = onig::Region::new();
    let options = onig::SearchOptions::SEARCH_OPTION_NONE;
    let param = onig::MatchParam::default();
    match regex.search_with_param(text, from, text.len(), options, Some(&mut region), param) {
        Ok(Some(_)) => Some((0..region.len()).map(|i| region.pos(i)).collect()),
        _ => None,
    }
}

/// Whether `pattern` matches the whole of `text`.
pub open spec fn accepts(pattern: Seq<char>, text: Seq<char>) -> bool {
    whole_match(pattern, text) matches Some(n) && n == vstd::utf8::encode_utf8(text).len()
}

/// The pattern handed to the regex engine for `source`: anchored at both ends
/// where the whole input must match, and marked as ignoring case where case
/// does not count.
pub open spec fn full_pattern(source: Seq<char>, must_fully_match: bool, case_sensitive: bool) -> Seq<
    char,
> {
    let anchored = if must_fully_match {
        "^(?:"@ + source + ")$"@
    } else {
        source
    };
    if case_sensitive {
        anchored
    } else {
        "(?i)"@ + anchored
    }
}

/// What compiling `source` gives: the pattern that was compiled, or the
/// engine's fault as an error of the definition.
pub open spec fn compiled(source: Seq<char>, must_fully_match: bool, case_sensitive: bool) -> Result<
    Seq<char>,
    ErrorView,
> {
    let pattern = full_pattern(source, must_fully_match, case_sensitive);
    match compile_failure(pattern) {
        None => Ok(pattern),
        Some(description) => Err(ErrorView::Unexpected(description)),
    }
}

/// A compiled regular expression together with the pattern it stands for.
///
/// Its view is that pattern.
pub struct CompiledRegex {
    pattern: String,
    regex: onig::Regex,
}

impl View for CompiledRegex {
    type V = Seq<char>;

    closed spec fn view(&self) -> Seq<char> {
        self.pattern@
    }
}

impl DeepView for CompiledRegex {
    type V = Seq<char>;

    open spec fn deep_view(&self) -> Seq<char> {
        self@
    }
}

impl CompiledRegex {
    #[verifier::type_invariant]
    spec fn well_formed(self) -> bool {
        regex_source(self.regex) == self.pattern@
    }

    /// Compiles `source`. With `must_fully_match` the expression matches whole
    /// inputs only; without `case_sensitive` it ignores case. A source that
    /// the engine refuses is an error of the definition.
    pub fn new(source: &str, must_fully_match: bool, case_sensitive: bool) -> (res: Result<
        CompiledRegex,
        Error,
    >)
        ensures
            match res {
                Ok(regex) => compiled(source@, must_fully_match, case_sensitive) == Ok::<
                    Seq<char>,
                    ErrorView,
                >(regex@),
                Err(e) => compiled(source@, must_fully_match, case_sensitive) == Err::<
                    Seq<char>,
                    ErrorView,
                >(e@),
            },
    {
        let anchored = if must_fully_match {
            String::from_str("^(?:").concat(source).concat(")$")
        } else {
            String::from_str(source)
        };
        let pattern = if case_sensitive {
            anchored
        } else {
            String::from_str("(?i)").concat(anchored.as_str())
        };
        assert(pattern@ =~= full_pattern(source@, must_fully_match, case_sensitive));
        match onig_new(pattern.as_str()) {
            Ok(regex) => Ok(CompiledRegex { pattern, regex }),
            Err(description) => Err(Error::Unexpected(description)),
        }
    }

    /// The pattern that was compiled.
    pub fn pattern(&self) -> (p: &str)
        ensures
            p@ == self@,
    {
        self.pattern.as_str()
    }

    /// Whether the expression matches the whole of `text`.
    pub fn is_match(&self, text: &str) -> (r: bool)
        ensures
            r == accepts(self@, text@),
    {
        proof {
            use_type_invariant(self);
        }
        match onig_match(&self.regex, text) {
            Some(n) => n == text.as_bytes().len(),
            None => false,
        }
    }

    /// Searches `text` from the byte `from` on and gives the groups of the
    /// first match, each by the bytes at which it begins and ends.
    pub fn search(&self, text: &str, from: usize) -> (found: Option<Vec<Option<(usize, usize)>>>)
        requires
            from <= vstd::utf8::encode_utf8(text@).len(),
        ensures
            found.deep_view() == search_groups(self@, text@, from),
    {
        proof {
            use_type_invariant(self);
        }
        onig_search(&self.regex, text, from)
    }

    /// The number of capture groups of the pattern.
    pub fn captures_len(&self) -> (n: usize)
        ensures
            n == capture_count(self@),
    {
        proof {
            use_type_invariant(self);
        }
        onig_captures_len(&self.regex)
    }
}

} // verus!
