//! From the definition of a disambiguation rule to the rule.

use crate::compile::pattern::{parse_pattern, pattern_model};
use crate::compile::rule::{antipatterns_model, parse_antipatterns};
use crate::compile::unify::{
    group_filter,
    group_filter_model,
    parse_pos_filter,
    parse_tag_form,
    parse_unify,
    pos_filter_model,
    regex_filter,
    regex_filter_model,
    tag_form_model,
    token_filter,
    token_filter_model,
    unify_model,
};
use crate::disambiguation::{
    Disambiguation,
    DisambiguationChange,
    DisambiguationChangeView,
    DisambiguationTest,
    DisambiguationTestView,
    DisambiguationView,
    OwnedWordData,
    Selector,
    SelectorView,
    WordDataView,
};
use crate::error::{prepend, result_view, Error, ErrorView};
use crate::rule::{
    DisambiguationRule,
    DisambiguationRuleView,
    Engine,
    EngineView,
    FilterRequest,
    FilterRequestView,
    TokenEngine,
};
use crate::structure;
use crate::text::{find_char, lemma_position, pieces, position, same_text, split};
use crate::views::{append_view, empty_view, push_view, single_view};
use vstd::prelude::*;
use vstd::string::StrSliceExecFns;
use vstd::string::StringExecFns;

verus! {

/// The analysis that a disambiguation names: without a lemma it has the
/// empty one.
pub open spec fn word_data_model(data: structure::WordData) -> WordDataView {
    WordDataView {
        lemma: match data.lemma {
            Some(lemma) => lemma@,
            None => seq![],
        },
        pos: data.pos@,
    }
}

impl OwnedWordData {
    /// The analysis that `data` names.
    pub fn from(data: &structure::WordData) -> (word: OwnedWordData)
        ensures
            word@ == word_data_model(*data),
    {
        OwnedWordData::new(
            match &data.lemma {
                Some(lemma) => lemma.clone(),
                None => String::new(),
            },
            data.pos.clone(),
        )
    }
}

/// The error for a filter on tags that names no tag.
pub open spec fn match_without_postag() -> ErrorView {
    ErrorView::Unexpected("a match in a disambiguation must have a postag"@)
}

/// The selector that one entry of a disambiguation stands for.
pub open spec fn selector_model(part: structure::DisambiguationPart) -> Result<
    SelectorView,
    ErrorView,
> {
    match part {
        structure::DisambiguationPart::WordData(data) => Ok(
            SelectorView::WordData(word_data_model(data)),
        ),
        structure::DisambiguationPart::Match(m) => match m.postag {
            None => Err(match_without_postag()),
            Some(postag) => match pos_filter_model(postag@, m.postag_regexp) {
                Err(e) => Err(e),
                Ok(filter) => Ok(SelectorView::Filter(filter)),
            },
        },
    }
}

/// The selectors that the entries `parts` stand for, in their order.
pub open spec fn selectors_model(parts: Seq<structure::DisambiguationPart>) -> Result<
    Seq<SelectorView>,
    ErrorView,
>
    decreases parts.len(),
{
    if parts.len() == 0 {
        Ok(seq![])
    } else {
        match selector_model(parts[0]) {
            Err(e) => Err(e),
            Ok(selector) => prepend(seq![selector], selectors_model(parts.drop_first())),
        }
    }
}

/// The selectors of a disambiguation: none where it has no entries.
pub open spec fn word_datas_model(parts: Option<Vec<structure::DisambiguationPart>>) -> Result<
    Seq<SelectorView>,
    ErrorView,
> {
    match parts {
        Some(parts) => selectors_model(parts@),
        None => Ok(seq![]),
    }
}

fn parse_selector(part: &structure::DisambiguationPart) -> (res: Result<Selector, Error>)
    ensures
        result_view(res) == selector_model(*part),
{
    match part {
        structure::DisambiguationPart::WordData(data) => Ok(
            Selector::WordData(OwnedWordData::from(data)),
        ),
        structure::DisambiguationPart::Match(m) => match &m.postag {
            None => Err(Error::unexpected("a match in a disambiguation must have a postag")),
            Some(postag) => Ok(
                Selector::Filter(parse_pos_filter(postag.as_str(), &m.postag_regexp)?),
            ),
        },
    }
}

fn parse_selectors(parts: &Vec<structure::DisambiguationPart>) -> (res: Result<
    Vec<Selector>,
    Error,
>)
    ensures
        result_view(res) == selectors_model(parts@),
{
    let mut out: Vec<Selector> = empty_view();
    let mut i: usize = 0;
    proof {
        assert(parts@.skip(0) =~= parts@);
        let all = selectors_model(parts@);
        if all is Ok {
            assert(out.deep_view() + all->Ok_0 =~= all->Ok_0);
        }
    }
    while i < parts.len()
        invariant
            i <= parts.len(),
            selectors_model(parts@) == prepend(
                out.deep_view(),
                selectors_model(parts@.skip(i as int)),
            ),
        decreases parts.len() - i,
    {
        let ghost done = out.deep_view();
        let ghost rest = selectors_model(parts@.skip(i + 1));
        assert(parts@.skip(i as int).drop_first() =~= parts@.skip(i + 1));
        assert(parts@.skip(i as int)[0] == parts@[i as int]);
        let selector = parse_selector(&parts[i])?;
        push_view(&mut out, selector);
        proof {
            if rest is Ok {
                assert(done + (seq![selector@] + rest->Ok_0) =~= done.push(selector@)
                    + rest->Ok_0);
            }
        }
        i += 1;
    }
    assert(out.deep_view() + Seq::<SelectorView>::empty() =~= out.deep_view());
    Ok(out)
}

fn parse_word_datas(parts: &Option<Vec<structure::DisambiguationPart>>) -> (res: Result<
    Vec<Selector>,
    Error,
>)
    ensures
        result_view(res) == word_datas_model(*parts),
{
    match parts {
        Some(parts) => parse_selectors(parts),
        None => Ok(empty_view()),
    }
}

/// The error for an action that takes literal analyses only and is given a
/// filter on tags.
pub open spec fn match_not_supported(action: Seq<char>) -> ErrorView {
    ErrorView::Unimplemented("match not supported for `"@ + action + "`"@)
}

/// The error for an action that takes no tag of its own and is given one.
pub open spec fn postag_not_supported(action: Seq<char>) -> ErrorView {
    ErrorView::Unimplemented("postag not supported for `"@ + action + "`."@)
}

/// The analyses that `selectors` name, where each names one.
pub open spec fn literal_datas(selectors: Seq<SelectorView>, action: Seq<char>) -> Result<
    Seq<WordDataView>,
    ErrorView,
>
    decreases selectors.len(),
{
    if selectors.len() == 0 {
        Ok(seq![])
    } else {
        match selectors[0] {
            SelectorView::WordData(data) => prepend(
                seq![data],
                literal_datas(selectors.drop_first(), action),
            ),
            SelectorView::Filter(_) => Err(match_not_supported(action)),
        }
    }
}

/// The analyses that an action adds or puts in place, which must all be
/// given as they are; such an action takes no tag of its own.
pub open spec fn datas_model(
    postag: Option<String>,
    selectors: Seq<SelectorView>,
    action: Seq<char>,
) -> Result<Seq<WordDataView>, ErrorView> {
    if postag is Some {
        Err(postag_not_supported(action))
    } else {
        literal_datas(selectors, action)
    }
}

fn take_datas(postag: &Option<String>, selectors: Vec<Selector>, action: &str) -> (res: Result<
    Vec<OwnedWordData>,
    Error,
>)
    ensures
        result_view(res) == datas_model(*postag, selectors.deep_view(), action@),
{
    if postag.is_some() {
        return Err(
            Error::Unimplemented(
                String::from_str("postag not supported for `").concat(action).concat("`."),
            ),
        );
    }
    let mut out: Vec<OwnedWordData> = empty_view();
    let mut i: usize = 0;
    let ghost all = selectors.deep_view();
    proof {
        assert(all.skip(0) =~= all);
        let whole = literal_datas(all, action@);
        if whole is Ok {
            assert(out.deep_view() + whole->Ok_0 =~= whole->Ok_0);
        }
    }
    while i < selectors.len()
        invariant
            i <= selectors.len(),
            all == selectors.deep_view(),
            *postag is None,
            literal_datas(all, action@) == prepend(
                out.deep_view(),
                literal_datas(all.skip(i as int), action@),
            ),
        decreases selectors.len() - i,
    {
        let ghost done = out.deep_view();
        let ghost rest = literal_datas(all.skip(i + 1), action@);
        assert(all.skip(i as int).drop_first() =~= all.skip(i + 1));
        assert(all.skip(i as int)[0] == selectors@[i as int]@);
        match &selectors[i] {
            Selector::WordData(data) => {
                let data = data.clone();
                push_view(&mut out, data);
                proof {
                    if rest is Ok {
                        assert(done + (seq![data@] + rest->Ok_0) =~= done.push(data@)
                            + rest->Ok_0);
                    }
                }
            },
            Selector::Filter(_) => {
                return Err(
                    Error::Unimplemented(
                        String::from_str("match not supported for `").concat(action).concat("`"),
                    ),
                );
            },
        }
        i += 1;
    }
    assert(out.deep_view() + Seq::<WordDataView>::empty() =~= out.deep_view());
    Ok(out)
}

/// Each of `selectors` as the selector of one token.
pub open spec fn each_some(selectors: Seq<SelectorView>) -> Seq<Option<SelectorView>> {
    Seq::new(selectors.len(), |i: int| Some(selectors[i]))
}

fn wrap_each(selectors: Vec<Selector>) -> (out: Vec<Option<Selector>>)
    ensures
        out.deep_view() == each_some(selectors.deep_view()),
{
    let mut selectors = selectors;
    let ghost all = selectors.deep_view();
    let mut out: Vec<Option<Selector>> = empty_view();
    while selectors.len() > 0
        invariant
            out.deep_view() + each_some(selectors.deep_view()) == each_some(all),
        decreases selectors.len(),
    {
        let ghost done = out.deep_view();
        let ghost before = selectors.deep_view();
        let first = selectors.remove(0);
        assert(selectors.deep_view() =~= before.drop_first());
        assert(before[0] == first@);
        push_view(&mut out, Some(first));
        assert(done.push(Some(first@)) + each_some(before.drop_first()) =~= done + each_some(
            before,
        ));
    }
    assert(out.deep_view() + each_some(selectors.deep_view()) =~= out.deep_view());
    out
}

/// The selector that a token asks for by its tag, if it names one.
pub open spec fn token_selector_model(token: structure::Token) -> Result<
    Option<SelectorView>,
    ErrorView,
> {
    match token_filter_model(token) {
        Err(e) => Err(e),
        Ok(Some(filter)) => Ok(Some(SelectorView::Filter(filter))),
        Ok(None) => Ok(None),
    }
}

/// The selector that the first token of a group asks for by its tag.
pub open spec fn group_selector_model(tokens: structure::Tokens) -> Result<
    Option<SelectorView>,
    ErrorView,
> {
    match group_filter_model(tokens) {
        Err(e) => Err(e),
        Ok(Some(filter)) => Ok(Some(SelectorView::Filter(filter))),
        Ok(None) => Ok(None),
    }
}

/// The error for an agreement block in a rule that filters all its tokens.
pub open spec fn unify_in_filterall() -> ErrorView {
    ErrorView::Unimplemented("`unify` not supported in `filterall`"@)
}

/// The selectors of the tokens inside a marker, one for each.
pub open spec fn marked_selectors_model(tokens: Seq<structure::TokenCombination>) -> Result<
    Seq<Option<SelectorView>>,
    ErrorView,
>
    decreases tokens.len(),
{
    if tokens.len() == 0 {
        Ok(seq![])
    } else {
        let first = match tokens[0] {
            structure::TokenCombination::Token(token) => token_selector_model(token),
            structure::TokenCombination::And(group) | structure::TokenCombination::Or(
                group,
            ) => group_selector_model(group),
            structure::TokenCombination::Unify(_) => Err(unify_in_filterall()),
        };
        match first {
            Err(e) => Err(e),
            Ok(selector) => prepend(seq![selector], marked_selectors_model(tokens.drop_first())),
        }
    }
}

/// What has been read of a pattern whose tokens are all filtered: the
/// selectors of the tokens outside markers, those of the tokens inside, and
/// whether there was a marker.
pub struct FilterAllRead {
    pub outside: Seq<Option<SelectorView>>,
    pub inside: Seq<Option<SelectorView>>,
    pub has_marker: bool,
}

/// What has been read after the element `part` is added to `before`.
pub open spec fn filter_all_step_model(before: FilterAllRead, part: structure::PatternPart) -> Result<
    FilterAllRead,
    ErrorView,
> {
    match part {
        structure::PatternPart::Marker(marker) => match marked_selectors_model(marker.tokens@) {
            Err(e) => Err(e),
            Ok(selectors) => Ok(
                FilterAllRead {
                    outside: before.outside,
                    inside: before.inside + selectors,
                    has_marker: true,
                },
            ),
        },
        structure::PatternPart::Token(token) => match token_selector_model(token) {
            Err(e) => Err(e),
            Ok(selector) => Ok(
                FilterAllRead {
                    outside: before.outside.push(selector),
                    inside: before.inside,
                    has_marker: before.has_marker,
                },
            ),
        },
        structure::PatternPart::And(group) | structure::PatternPart::Or(
            group,
        ) => match group_selector_model(group) {
            Err(e) => Err(e),
            Ok(selector) => Ok(
                FilterAllRead {
                    outside: before.outside.push(selector),
                    inside: before.inside,
                    has_marker: before.has_marker,
                },
            ),
        },
        structure::PatternPart::Unify(_) => Err(unify_in_filterall()),
    }
}

/// What has been read after the elements `parts` are added to `before`, one
/// after the other.
pub open spec fn filter_all_steps_model(before: FilterAllRead, parts: Seq<structure::PatternPart>) -> Result<
    FilterAllRead,
    ErrorView,
>
    decreases parts.len(),
{
    if parts.len() == 0 {
        Ok(before)
    } else {
        match filter_all_step_model(before, parts[0]) {
            Err(e) => Err(e),
            Ok(after) => filter_all_steps_model(after, parts.drop_first()),
        }
    }
}

/// The selectors of a rule that filters all its tokens by the tags that the
/// pattern asks of them: those of the tokens inside markers where there is
/// a marker, else those of all tokens.
pub open spec fn filter_all_model(pattern: structure::Pattern) -> Result<
    Seq<Option<SelectorView>>,
    ErrorView,
> {
    match filter_all_steps_model(
        FilterAllRead { outside: seq![], inside: seq![], has_marker: false },
        pattern.parts@,
    ) {
        Err(e) => Err(e),
        Ok(read) => if read.has_marker {
            Ok(read.inside)
        } else {
            Ok(read.outside)
        },
    }
}

fn token_selector(token: &structure::Token) -> (res: Result<Option<Selector>, Error>)
    ensures
        result_view(res) == token_selector_model(*token),
{
    match token_filter(token)? {
        Some(filter) => Ok(Some(Selector::Filter(filter))),
        None => Ok(None),
    }
}

fn group_selector(tokens: &structure::Tokens) -> (res: Result<Option<Selector>, Error>)
    ensures
        result_view(res) == group_selector_model(*tokens),
{
    match group_filter(tokens)? {
        Some(filter) => Ok(Some(Selector::Filter(filter))),
        None => Ok(None),
    }
}

fn marked_selectors(tokens: &Vec<structure::TokenCombination>) -> (res: Result<
    Vec<Option<Selector>>,
    Error,
>)
    ensures
        result_view(res) == marked_selectors_model(tokens@),
{
    let mut out: Vec<Option<Selector>> = empty_view();
    let mut i: usize = 0;
    proof {
        assert(tokens@.skip(0) =~= tokens@);
        let all = marked_selectors_model(tokens@);
        if all is Ok {
            assert(out.deep_view() + all->Ok_0 =~= all->Ok_0);
        }
    }
    while i < tokens.len()
        invariant
            i <= tokens.len(),
            marked_selectors_model(tokens@) == prepend(
                out.deep_view(),
                marked_selectors_model(tokens@.skip(i as int)),
            ),
        decreases tokens.len() - i,
    {
        let ghost done = out.deep_view();
        let ghost rest = marked_selectors_model(tokens@.skip(i + 1));
        assert(tokens@.skip(i as int).drop_first() =~= tokens@.skip(i + 1));
        assert(tokens@.skip(i as int)[0] == tokens@[i as int]);
        let selector = match &tokens[i] {
            structure::TokenCombination::Token(token) => token_selector(token)?,
            structure::TokenCombination::And(group) | structure::TokenCombination::Or(
                group,
            ) => group_selector(group)?,
            structure::TokenCombination::Unify(_) => {
                return Err(Error::unimplemented("`unify` not supported in `filterall`"));
            },
        };
        push_view(&mut out, selector);
        proof {
            if rest is Ok {
                assert(done + (seq![selector.deep_view()] + rest->Ok_0) =~= done.push(
                    selector.deep_view(),
                ) + rest->Ok_0);
            }
        }
        i += 1;
    }
    assert(out.deep_view() + Seq::<Option<SelectorView>>::empty() =~= out.deep_view());
    Ok(out)
}

fn filter_all(pattern: &structure::Pattern) -> (res: Result<Vec<Option<Selector>>, Error>)
    ensures
        result_view(res) == filter_all_model(*pattern),
{
    let mut outside: Vec<Option<Selector>> = empty_view();
    let mut inside: Vec<Option<Selector>> = empty_view();
    let mut has_marker = false;
    let parts = &pattern.parts;
    let mut i: usize = 0;
    let ghost first = FilterAllRead { outside: seq![], inside: seq![], has_marker: false };
    assert(parts@.skip(0) =~= parts@);
    while i < parts.len()
        invariant
            i <= parts.len(),
            parts == &pattern.parts,
            first == (FilterAllRead { outside: seq![], inside: seq![], has_marker: false }),
            filter_all_steps_model(first, parts@) == filter_all_steps_model(
                FilterAllRead {
                    outside: outside.deep_view(),
                    inside: inside.deep_view(),
                    has_marker,
                },
                parts@.skip(i as int),
            ),
        decreases parts.len() - i,
    {
        assert(parts@.skip(i as int).drop_first() =~= parts@.skip(i + 1));
        assert(parts@.skip(i as int)[0] == parts@[i as int]);
        match &parts[i] {
            structure::PatternPart::Marker(marker) => {
                let selectors = marked_selectors(&marker.tokens)?;
                append_view(&mut inside, selectors);
                has_marker = true;
            },
            structure::PatternPart::Token(token) => {
                let selector = token_selector(token)?;
                push_view(&mut outside, selector);
            },
            structure::PatternPart::And(group) | structure::PatternPart::Or(group) => {
                let selector = group_selector(group)?;
                push_view(&mut outside, selector);
            },
            structure::PatternPart::Unify(_) => {
                return Err(Error::unimplemented("`unify` not supported in `filterall`"));
            },
        }
        i += 1;
    }
    if has_marker {
        Ok(inside)
    } else {
        Ok(outside)
    }
}

/// The agreement block that a rule with the action `unify` works on: the
/// only element of its pattern, or the only element of the marker that its
/// pattern ends with.
pub open spec fn unify_block_model(pattern: structure::Pattern) -> Result<
    structure::Unify,
    ErrorView,
> {
    let parts = pattern.parts@;
    if parts.len() > 0 && parts.last() is Marker {
        let tokens = parts.last()->Marker_0.tokens@;
        if tokens.len() == 1 && tokens[0] is Unify {
            Ok(tokens[0]->Unify_0)
        } else {
            Err(
                ErrorView::Unimplemented(
                    "only `unify` as only element in `marker` is implemented"@,
                ),
            )
        }
    } else if parts.len() == 1 && parts[0] is Unify {
        Ok(parts[0]->Unify_0)
    } else {
        Err(ErrorView::Unimplemented("only `unify` as only element in `pattern` is implemented"@))
    }
}

fn unify_block(pattern: &structure::Pattern) -> (res: Result<&structure::Unify, Error>)
    ensures
        match res {
            Ok(unify) => unify_block_model(*pattern) == Ok::<structure::Unify, ErrorView>(*unify),
            Err(e) => unify_block_model(*pattern) == Err::<structure::Unify, ErrorView>(e@),
        },
{
    let parts = &pattern.parts;
    let n = parts.len();
    if n > 0 {
        if let structure::PatternPart::Marker(marker) = &parts[n - 1] {
            if marker.tokens.len() == 1 {
                if let structure::TokenCombination::Unify(unify) = &marker.tokens[0] {
                    return Ok(unify);
                }
            }
            return Err(
                Error::unimplemented("only `unify` as only element in `marker` is implemented"),
            );
        }
    }
    if n == 1 {
        if let structure::PatternPart::Unify(unify) = &parts[0] {
            return Ok(unify);
        }
    }
    Err(Error::unimplemented("only `unify` as only element in `pattern` is implemented"))
}

/// What a rule does by the action `filter`, or without an action, with the
/// tag `postag` of its own if it has one; else with its selectors, one for
/// each token.
pub open spec fn filter_model(own: Option<SelectorView>, selectors: Seq<SelectorView>) -> DisambiguationView {
    match own {
        Some(selector) => DisambiguationView::Filter(seq![Some(selector)]),
        None => DisambiguationView::Filter(each_some(selectors)),
    }
}

/// The filter on tags that a disambiguation names by a tag of its own,
/// which is a regular expression.
pub open spec fn own_filter_model(postag: Option<String>) -> Result<Option<SelectorView>, ErrorView> {
    match postag {
        None => Ok(None),
        Some(postag) => match regex_filter_model(postag@) {
            Err(e) => Err(e),
            Ok(filter) => Ok(Some(SelectorView::Filter(filter))),
        },
    }
}

/// What the disambiguation of `data` does, given the selectors that its
/// entries stand for. The action decides:
/// - `remove` takes away what the rule's own tag, a regular expression,
///   picks, or else what the selectors pick;
/// - `add` and `replace` take the analyses that the selectors name;
/// - `ignore_spelling` and `immunize` do nothing;
/// - `filterall` filters each token by the tag that the pattern asks of it;
/// - `filter` keeps what the rule's own tag, a regular expression, picks,
///   or else what the selectors pick, one for each token;
/// - `unify` makes the tokens of the agreement block agree;
/// - no action filters like `filter`, but takes the rule's own tag as the
///   tag of an analysis without a lemma.
/// Any other action is not supported.
pub open spec fn action_model(data: structure::DisambiguationRule, selectors: Seq<SelectorView>) -> Result<
    DisambiguationView,
    ErrorView,
> {
    let postag = data.disambig.postag;
    match data.disambig.action {
        None => Ok(
            filter_model(
                match postag {
                    Some(postag) => Some(
                        SelectorView::WordData(WordDataView { lemma: seq![], pos: postag@ }),
                    ),
                    None => None,
                },
                selectors,
            ),
        ),
        Some(action) => if action@ == "remove"@ {
            match own_filter_model(postag) {
                Err(e) => Err(e),
                Ok(Some(selector)) => Ok(DisambiguationView::Remove(seq![selector])),
                Ok(None) => Ok(DisambiguationView::Remove(selectors)),
            }
        } else if action@ == "add"@ {
            match datas_model(postag, selectors, "add"@) {
                Err(e) => Err(e),
                Ok(datas) => Ok(DisambiguationView::Add(datas)),
            }
        } else if action@ == "replace"@ {
            match datas_model(postag, selectors, "replace"@) {
                Err(e) => Err(e),
                Ok(datas) => Ok(DisambiguationView::Replace(datas)),
            }
        } else if action@ == "ignore_spelling"@ || action@ == "immunize"@ {
            Ok(DisambiguationView::Nop)
        } else if action@ == "filterall"@ {
            match filter_all_model(data.pattern) {
                Err(e) => Err(e),
                Ok(selectors) => Ok(DisambiguationView::Filter(selectors)),
            }
        } else if action@ == "filter"@ {
            match own_filter_model(postag) {
                Err(e) => Err(e),
                Ok(own) => Ok(filter_model(own, selectors)),
            }
        } else if action@ == "unify"@ {
            match unify_block_model(data.pattern) {
                Err(e) => Err(e),
                Ok(unify) => match unify_model(unify, data.unifications) {
                    Err(e) => Err(e),
                    Ok(read) => Ok(DisambiguationView::Unify(read.filters, read.disambig, read.mask)),
                },
            }
        } else {
            Err(ErrorView::Unimplemented("action "@ + action@))
        },
    }
}

fn own_filter(postag: &Option<String>) -> (res: Result<Option<Selector>, Error>)
    ensures
        result_view(res) == own_filter_model(*postag),
{
    match postag {
        None => Ok(None),
        Some(postag) => Ok(Some(Selector::Filter(regex_filter(postag.as_str())?))),
    }
}

fn filter_with(own: Option<Selector>, selectors: Vec<Selector>) -> (d: Disambiguation)
    ensures
        d@ == filter_model(own.deep_view(), selectors.deep_view()),
{
    match own {
        Some(selector) => Disambiguation::Filter(single_view(Some(selector))),
        None => Disambiguation::Filter(wrap_each(selectors)),
    }
}

fn parse_action(data: &structure::DisambiguationRule, selectors: Vec<Selector>) -> (res: Result<
    Disambiguation,
    Error,
>)
    ensures
        result_view(res) == action_model(*data, selectors.deep_view()),
{
    let postag = &data.disambig.postag;
    let action = match &data.disambig.action {
        Some(action) => action.as_str(),
        None => {
            let own = match postag {
                Some(postag) => Some(
                    Selector::WordData(OwnedWordData::new(String::new(), postag.clone())),
                ),
                None => None,
            };
            return Ok(filter_with(own, selectors));
        },
    };
    if same_text(action, "remove") {
        match own_filter(postag)? {
            Some(selector) => Ok(Disambiguation::Remove(single_view(selector))),
            None => Ok(Disambiguation::Remove(selectors)),
        }
    } else if same_text(action, "add") {
        Ok(Disambiguation::Add(take_datas(postag, selectors, "add")?))
    } else if same_text(action, "replace") {
        Ok(Disambiguation::Replace(take_datas(postag, selectors, "replace")?))
    } else if same_text(action, "ignore_spelling") || same_text(action, "immunize") {
        Ok(Disambiguation::Nop)
    } else if same_text(action, "filterall") {
        Ok(Disambiguation::Filter(filter_all(&data.pattern)?))
    } else if same_text(action, "filter") {
        let own = own_filter(postag)?;
        Ok(filter_with(own, selectors))
    } else if same_text(action, "unify") {
        let unify = unify_block(&data.pattern)?;
        let (filters, disambig, mask) = parse_unify(unify, &data.unifications)?;
        Ok(Disambiguation::Unify(filters, disambig, mask))
    } else {
        Err(Error::Unimplemented(String::from_str("action ").concat(action)))
    }
}

/// The error for an argument of a filter that is not written as a key and
/// a value with a colon between them.
pub open spec fn bad_filter_argument() -> ErrorView {
    ErrorView::Unexpected("a filter argument must be written as key:value"@)
}

/// The key and the value of one argument of a filter.
pub open spec fn argument_model(argument: Seq<char>) -> Result<(Seq<char>, Seq<char>), ErrorView> {
    let colon = position(argument, ':');
    if 0 <= colon < argument.len() {
        Ok((argument.take(colon), argument.skip(colon + 1)))
    } else {
        Err(bad_filter_argument())
    }
}

/// The keys and values of the arguments `arguments`, in their order.
pub open spec fn arguments_model(arguments: Seq<Seq<char>>) -> Result<
    Seq<(Seq<char>, Seq<char>)>,
    ErrorView,
>
    decreases arguments.len(),
{
    if arguments.len() == 0 {
        Ok(seq![])
    } else {
        match argument_model(arguments[0]) {
            Err(e) => Err(e),
            Ok(pair) => prepend(seq![pair], arguments_model(arguments.drop_first())),
        }
    }
}

/// The filter that a rule asks for: by the last piece of the dotted name of
/// its class, with the arguments that stand in `args` with blanks between
/// them.
pub open spec fn filter_request_model(filter: structure::Filter) -> Result<
    FilterRequestView,
    ErrorView,
> {
    match arguments_model(pieces(filter.args@, ' ')) {
        Err(e) => Err(e),
        Ok(args) => Ok(FilterRequestView { name: pieces(filter.class@, '.').last(), args }),
    }
}

fn parse_argument(argument: &str) -> (res: Result<(String, String), Error>)
    ensures
        result_view(res) == argument_model(argument@),
{
    let n = argument.unicode_len();
    proof {
        lemma_position(argument@, ':');
    }
    match find_char(argument, ':') {
        Some(colon) => {
            assert(argument@.subrange(0, colon as int) =~= argument@.take(colon as int));
            assert(argument@.subrange(colon + 1, n as int) =~= argument@.skip(colon + 1));
            Ok(
                (
                    String::from_str(argument.substring_char(0, colon)),
                    String::from_str(argument.substring_char(colon + 1, n)),
                ),
            )
        },
        None => Err(Error::unexpected("a filter argument must be written as key:value")),
    }
}

/// Reads the filter that a rule asks for.
pub fn parse_filter_request(filter: &structure::Filter) -> (res: Result<FilterRequest, Error>)
    ensures
        result_view(res) == filter_request_model(*filter),
{
    let arguments = split(filter.args.as_str(), ' ');
    let mut args: Vec<(String, String)> = empty_view();
    let mut i: usize = 0;
    let ghost all = arguments.deep_view();
    proof {
        assert(all.skip(0) =~= all);
        let whole = arguments_model(all);
        if whole is Ok {
            assert(args.deep_view() + whole->Ok_0 =~= whole->Ok_0);
        }
    }
    while i < arguments.len()
        invariant
            i <= arguments.len(),
            all == arguments.deep_view(),
            all == pieces(filter.args@, ' '),
            arguments_model(all) == prepend(args.deep_view(), arguments_model(all.skip(i as int))),
        decreases arguments.len() - i,
    {
        let ghost done = args.deep_view();
        let ghost rest = arguments_model(all.skip(i + 1));
        assert(all.skip(i as int).drop_first() =~= all.skip(i + 1));
        assert(all.skip(i as int)[0] == arguments@[i as int]@);
        let pair = parse_argument(arguments[i].as_str())?;
        push_view(&mut args, pair);
        proof {
            if rest is Ok {
                assert(done + (seq![pair.deep_view()] + rest->Ok_0) =~= done.push(pair.deep_view())
                    + rest->Ok_0);
            }
        }
        i += 1;
    }
    assert(args.deep_view() + Seq::<(Seq<char>, Seq<char>)>::empty() =~= args.deep_view());
    let names = split(filter.class.as_str(), '.');
    proof {
        crate::text::lemma_pieces_nonempty(filter.class@, '.');
    }
    let last = names.len() - 1;
    assert(names.deep_view()[last as int] == names@[last as int]@);
    let name = names[last].clone();
    Ok(FilterRequest { name, args })
}

/// The filter of a rule: none where it asks for none.
pub open spec fn optional_filter_model(filter: Option<structure::Filter>) -> Result<
    Option<FilterRequestView>,
    ErrorView,
> {
    match filter {
        None => Ok(None),
        Some(filter) => match filter_request_model(filter) {
            Err(e) => Err(e),
            Ok(request) => Ok(Some(request)),
        },
    }
}

/// What has been read of an example: its text so far, and where its marker
/// stands, in characters.
pub struct MarkedRead {
    pub text: Seq<char>,
    pub char_span: Option<(nat, nat)>,
}

/// What has been read of an example after the piece `part` is added to
/// `before`. A second marker is a fault.
pub open spec fn marked_step_model(before: MarkedRead, part: structure::ExamplePart) -> Result<
    MarkedRead,
    ErrorView,
> {
    match part {
        structure::ExamplePart::Text(text) => Ok(
            MarkedRead { text: before.text + text@, char_span: before.char_span },
        ),
        structure::ExamplePart::Marker(marker) => if before.char_span is Some {
            Err(ErrorView::Unexpected("example must have one or zero markers"@))
        } else {
            Ok(
                MarkedRead {
                    text: before.text + marker.text@,
                    char_span: Some(
                        (before.text.len(), (before.text.len() + marker.text@.len()) as nat),
                    ),
                },
            )
        },
    }
}

/// What has been read of an example after the pieces `parts` are added to
/// `before`, one after the other.
pub open spec fn marked_steps_model(before: MarkedRead, parts: Seq<structure::ExamplePart>) -> Result<
    MarkedRead,
    ErrorView,
>
    decreases parts.len(),
{
    if parts.len() == 0 {
        Ok(before)
    } else {
        match marked_step_model(before, parts[0]) {
            Err(e) => Err(e),
            Ok(after) => marked_steps_model(after, parts.drop_first()),
        }
    }
}

/// The error for an example that is to change a word and does not say all
/// of which word, from what and to what.
pub open spec fn incomplete_example(what: Seq<char>) -> ErrorView {
    ErrorView::Unexpected("must have "@ + what + " when ambiguous example"@)
}

/// The change that an example of the kind `ambiguous` expects.
pub open spec fn change_model(example: structure::DisambiguationExample, read: MarkedRead) -> Result<
    DisambiguationChangeView,
    ErrorView,
> {
    match example.inputform {
        None => Err(incomplete_example("inputform"@)),
        Some(inputform) => match tag_form_model(inputform@) {
            Err(e) => Err(e),
            Ok(before) => match example.outputform {
                None => Err(incomplete_example("outputform"@)),
                Some(outputform) => match tag_form_model(outputform@) {
                    Err(e) => Err(e),
                    Ok(after) => match read.char_span {
                        None => Err(incomplete_example("marker"@)),
                        Some(char_span) => Ok(
                            DisambiguationChangeView { text: read.text, char_span, before, after },
                        ),
                    },
                },
            },
        },
    }
}

/// The test that an example of a disambiguation rule describes: by its
/// kind, that the rule leaves the sentence untouched, or that it changes
/// the analyses of the marked word from one form to another.
pub open spec fn disambiguation_example_model(example: structure::DisambiguationExample) -> Result<
    DisambiguationTestView,
    ErrorView,
> {
    match marked_steps_model(MarkedRead { text: seq![], char_span: None }, example.parts@) {
        Err(e) => Err(e),
        Ok(read) => if example.kind@ == "untouched"@ {
            Ok(DisambiguationTestView::Unchanged(read.text))
        } else if example.kind@ == "ambiguous"@ {
            match change_model(example, read) {
                Err(e) => Err(e),
                Ok(change) => Ok(DisambiguationTestView::Changed(change)),
            }
        } else {
            Err(ErrorView::Unexpected("unknown disambiguation example type "@ + example.kind@))
        },
    }
}

/// The tests that the examples `examples` describe, in their order.
pub open spec fn disambiguation_examples_model(examples: Seq<structure::DisambiguationExample>) -> Result<
    Seq<DisambiguationTestView>,
    ErrorView,
>
    decreases examples.len(),
{
    if examples.len() == 0 {
        Ok(seq![])
    } else {
        match disambiguation_example_model(examples[0]) {
            Err(e) => Err(e),
            Ok(test) => prepend(seq![test], disambiguation_examples_model(examples.drop_first())),
        }
    }
}

fn incomplete(what: &str) -> (e: Error)
    ensures
        e@ == incomplete_example(what@),
{
    Error::Unexpected(String::from_str("must have ").concat(what).concat(" when ambiguous example"))
}

fn read_change(
    example: &structure::DisambiguationExample,
    text: String,
    char_span: Option<(usize, usize)>,
) -> (res: Result<DisambiguationChange, Error>)
    ensures
        result_view(res) == change_model(
            *example,
            MarkedRead {
                text: text@,
                char_span: match char_span {
                    Some(span) => Some((span.0 as nat, span.1 as nat)),
                    None => None,
                },
            },
        ),
{
    let before = match &example.inputform {
        Some(form) => parse_tag_form(form.as_str())?,
        None => {
            return Err(incomplete("inputform"));
        },
    };
    let after = match &example.outputform {
        Some(form) => parse_tag_form(form.as_str())?,
        None => {
            return Err(incomplete("outputform"));
        },
    };
    match char_span {
        Some(char_span) => Ok(DisambiguationChange { text, char_span, before, after }),
        None => Err(incomplete("marker")),
    }
}

fn read_example(example: &structure::DisambiguationExample) -> (res: Result<
    DisambiguationTest,
    Error,
>)
    ensures
        result_view(res) == disambiguation_example_model(*example),
{
    let mut text = String::new();
    let mut char_span: Option<(usize, usize)> = None;
    let mut i: usize = 0;
    let ghost first = MarkedRead { text: seq![], char_span: None };
    assert(example.parts@.skip(0) =~= example.parts@);
    while i < example.parts.len()
        invariant
            i <= example.parts.len(),
            first == (MarkedRead { text: seq![], char_span: None }),
            marked_steps_model(first, example.parts@) == marked_steps_model(
                MarkedRead {
                    text: text@,
                    char_span: match char_span {
                        Some(span) => Some((span.0 as nat, span.1 as nat)),
                        None => None,
                    },
                },
                example.parts@.skip(i as int),
            ),
        decreases example.parts.len() - i,
    {
        assert(example.parts@.skip(i as int).drop_first() =~= example.parts@.skip(i + 1));
        assert(example.parts@.skip(i as int)[0] == example.parts@[i as int]);
        match &example.parts[i] {
            structure::ExamplePart::Text(piece) => {
                text = text.concat(piece.as_str());
            },
            structure::ExamplePart::Marker(marker) => {
                if char_span.is_some() {
                    return Err(Error::unexpected("example must have one or zero markers"));
                }
                let start = text.as_str().unicode_len();
                text = text.concat(marker.text.as_str());
                let end = text.as_str().unicode_len();
                char_span = Some((start, end));
            },
        }
        i += 1;
    }
    if same_text(example.kind.as_str(), "untouched") {
        Ok(DisambiguationTest::Unchanged(text))
    } else if same_text(example.kind.as_str(), "ambiguous") {
        Ok(DisambiguationTest::Changed(read_change(example, text, char_span)?))
    } else {
        Err(
            Error::Unexpected(
                String::from_str("unknown disambiguation example type ").concat(
                    example.kind.as_str(),
                ),
            ),
        )
    }
}

fn read_examples(examples: &Vec<structure::DisambiguationExample>) -> (res: Result<
    Vec<DisambiguationTest>,
    Error,
>)
    ensures
        result_view(res) == disambiguation_examples_model(examples@),
{
    let mut out: Vec<DisambiguationTest> = empty_view();
    let mut i: usize = 0;
    proof {
        assert(examples@.skip(0) =~= examples@);
        let all = disambiguation_examples_model(examples@);
        if all is Ok {
            assert(out.deep_view() + all->Ok_0 =~= all->Ok_0);
        }
    }
    while i < examples.len()
        invariant
            i <= examples.len(),
            disambiguation_examples_model(examples@) == prepend(
                out.deep_view(),
                disambiguation_examples_model(examples@.skip(i as int)),
            ),
        decreases examples.len() - i,
    {
        let ghost done = out.deep_view();
        let ghost rest = disambiguation_examples_model(examples@.skip(i + 1));
        assert(examples@.skip(i as int).drop_first() =~= examples@.skip(i + 1));
        assert(examples@.skip(i as int)[0] == examples@[i as int]);
        let test = read_example(&examples[i])?;
        push_view(&mut out, test);
        proof {
            if rest is Ok {
                assert(done + (seq![test@] + rest->Ok_0) =~= done.push(test@) + rest->Ok_0);
            }
        }
        i += 1;
    }
    assert(out.deep_view() + Seq::<DisambiguationTestView>::empty() =~= out.deep_view());
    Ok(out)
}

/// The tests of a rule: none where it has no examples.
pub open spec fn tests_model(examples: Option<Vec<structure::DisambiguationExample>>) -> Result<
    Seq<DisambiguationTestView>,
    ErrorView,
> {
    match examples {
        Some(examples) => disambiguation_examples_model(examples@),
        None => Ok(seq![]),
    }
}

/// The disambiguation rule that `data` defines. It has no id yet. The
/// first fault found is the error: in the pattern, the antipatterns, the
/// entries of the disambiguation, its action, its filter and its examples,
/// in this order.
pub open spec fn disambiguation_rule_model(data: structure::DisambiguationRule) -> Result<
    DisambiguationRuleView,
    ErrorView,
> {
    match pattern_model(data.pattern) {
        Err(e) => Err(e),
        Ok(read) => match antipatterns_model(data.antipatterns) {
            Err(e) => Err(e),
            Ok(antipatterns) => match word_datas_model(data.disambig.word_datas) {
                Err(e) => Err(e),
                Ok(selectors) => match action_model(data, selectors) {
                    Err(e) => Err(e),
                    Ok(disambiguations) => match optional_filter_model(data.filter) {
                        Err(e) => Err(e),
                        Ok(filter) => match tests_model(data.examples) {
                            Err(e) => Err(e),
                            Ok(tests) => Ok(
                                DisambiguationRuleView {
                                    id: seq![],
                                    engine: EngineView::Token { composition: read.0, antipatterns },
                                    filter,
                                    disambiguations,
                                    start: read.1,
                                    end: read.2,
                                    tests,
                                },
                            ),
                        },
                    },
                },
            },
        },
    }
}

impl DisambiguationRule {
    /// Builds the disambiguation rule that `data` defines.
    pub fn try_from(data: &structure::DisambiguationRule) -> (res: Result<
        DisambiguationRule,
        Error,
    >)
        ensures
            result_view(res) == disambiguation_rule_model(*data),
    {
        let (composition, start, end) = parse_pattern(&data.pattern)?;
        let antipatterns = parse_antipatterns(&data.antipatterns)?;
        let selectors = parse_word_datas(&data.disambig.word_datas)?;
        let disambiguations = parse_action(data, selectors)?;
        let filter = match &data.filter {
            Some(filter) => Some(parse_filter_request(filter)?),
            None => None,
        };
        let tests = match &data.examples {
            Some(examples) => read_examples(examples)?,
            None => empty_view(),
        };
        Ok(
            DisambiguationRule {
                id: String::new(),
                engine: Engine::Token(TokenEngine { composition, antipatterns }),
                filter,
                disambiguations,
                start,
                end,
                tests,
            },
        )
    }
}

} // verus!
