//! From tag filters, agreement blocks and tagged word forms as they are
//! written to what a disambiguation works with.

use crate::compile::attributes::{yes_only, yes_only_model};
use crate::disambiguation::{
    OwnedWord,
    OwnedWordData,
    POSFilter,
    POSFilterView,
    WordDataView,
    WordView,
};
use crate::error::{prepend, result_view, Error, ErrorView};
use crate::regex::{compiled, CompiledRegex};
use crate::structure;
use crate::text::{find_char, lemma_position, pieces, position, same_text, split};
use crate::views::{append_view, empty_view, push_view, single_view};
use vstd::prelude::*;
use vstd::string::StrSliceExecFns;
use vstd::string::StringExecFns;

verus! {

/// The filter that passes the tags which the regular expression `postag`
/// matches as a whole.
pub open spec fn regex_filter_model(postag: Seq<char>) -> Result<POSFilterView, ErrorView> {
    match compiled(postag, true, true) {
        Ok(pattern) => Ok(POSFilterView::Regex(pattern)),
        Err(e) => Err(e),
    }
}

/// The filter on tags that `postag` describes: a regular expression where
/// `postag_regexp` says so, else the one tag.
pub open spec fn pos_filter_model(postag: Seq<char>, postag_regexp: Option<String>) -> Result<
    POSFilterView,
    ErrorView,
> {
    match yes_only_model(postag_regexp, "postag_regexp"@) {
        Err(e) => Err(e),
        Ok(is_regex) => if is_regex {
            regex_filter_model(postag)
        } else {
            Ok(POSFilterView::String(postag))
        },
    }
}

/// Builds the filter that passes the tags which the regular expression
/// `postag` matches.
pub fn regex_filter(postag: &str) -> (res: Result<POSFilter, Error>)
    ensures
        result_view(res) == regex_filter_model(postag@),
{
    Ok(POSFilter::Regex(CompiledRegex::new(postag, true, true)?))
}

/// Builds the filter on tags that `postag` describes.
pub fn parse_pos_filter(postag: &str, postag_regexp: &Option<String>) -> (res: Result<
    POSFilter,
    Error,
>)
    ensures
        result_view(res) == pos_filter_model(postag@, *postag_regexp),
{
    if yes_only(postag_regexp, "postag_regexp")? {
        regex_filter(postag)
    } else {
        Ok(POSFilter::String(String::from_str(postag)))
    }
}

/// The filter on tags that a token asks for, if it names a tag.
pub open spec fn token_filter_model(token: structure::Token) -> Result<
    Option<POSFilterView>,
    ErrorView,
> {
    match token.attributes.postag {
        None => Ok(None),
        Some(postag) => match pos_filter_model(postag@, token.attributes.postag_regexp) {
            Err(e) => Err(e),
            Ok(filter) => Ok(Some(filter)),
        },
    }
}

/// Builds the filter on tags that a token asks for.
pub fn token_filter(token: &structure::Token) -> (res: Result<Option<POSFilter>, Error>)
    ensures
        result_view(res) == token_filter_model(*token),
{
    match &token.attributes.postag {
        None => Ok(None),
        Some(postag) => Ok(
            Some(parse_pos_filter(postag.as_str(), &token.attributes.postag_regexp)?),
        ),
    }
}

/// The error for a group of tokens for one place that holds no token.
pub open spec fn empty_group() -> ErrorView {
    ErrorView::Unexpected("a group of tokens must hold a token"@)
}

/// The filter on tags that the first token of a group asks for.
pub open spec fn group_filter_model(tokens: structure::Tokens) -> Result<
    Option<POSFilterView>,
    ErrorView,
> {
    if tokens.tokens@.len() == 0 {
        Err(empty_group())
    } else {
        token_filter_model(tokens.tokens@[0])
    }
}

/// Builds the filter on tags that the first token of a group asks for.
pub fn group_filter(tokens: &structure::Tokens) -> (res: Result<Option<POSFilter>, Error>)
    ensures
        result_view(res) == group_filter_model(*tokens),
{
    if tokens.tokens.len() == 0 {
        Err(Error::unexpected("a group of tokens must hold a token"))
    } else {
        token_filter(&tokens.tokens[0])
    }
}

/// The filters for the values that a feature can take.
pub open spec fn equivalences_model(equivalences: Seq<structure::Equivalence>) -> Result<
    Seq<POSFilterView>,
    ErrorView,
>
    decreases equivalences.len(),
{
    if equivalences.len() == 0 {
        Ok(seq![])
    } else {
        match pos_filter_model(
            equivalences[0].token.postag@,
            equivalences[0].token.postag_regexp,
        ) {
            Err(e) => Err(e),
            Ok(filter) => prepend(seq![filter], equivalences_model(equivalences.drop_first())),
        }
    }
}

/// The error for a feature that no unification defines.
pub open spec fn unknown_feature(id: Seq<char>) -> ErrorView {
    ErrorView::Unexpected("no unification for feature "@ + id)
}

/// The filters for the values of the feature `id`, by the first of
/// `unifications` that defines it.
pub open spec fn feature_model(unifications: Seq<structure::Unification>, id: Seq<char>) -> Result<
    Seq<POSFilterView>,
    ErrorView,
>
    decreases unifications.len(),
{
    if unifications.len() == 0 {
        Err(unknown_feature(id))
    } else if unifications[0].feature@ == id {
        equivalences_model(unifications[0].equivalences@)
    } else {
        feature_model(unifications.drop_first(), id)
    }
}

/// What has been read of an agreement block: the filters of its features,
/// and for each of its tokens its own filter and whether it takes part.
pub struct UnifyRead {
    pub filters: Seq<Seq<POSFilterView>>,
    pub disambig: Seq<Option<POSFilterView>>,
    pub mask: Seq<bool>,
}

impl UnifyRead {
    /// `self` with one more token.
    pub open spec fn with_token(self, filter: Option<POSFilterView>, takes_part: bool) -> UnifyRead {
        UnifyRead {
            filters: self.filters,
            disambig: self.disambig.push(filter),
            mask: self.mask.push(takes_part),
        }
    }
}

/// The error for an agreement block inside another.
pub open spec fn nested_unify() -> ErrorView {
    ErrorView::Unimplemented("nested unify not supported"@)
}

/// What has been read after a token that is set aside is added to `before`:
/// it keeps its own filter and takes no part in the agreement.
pub open spec fn ignored_step_model(before: UnifyRead, c: structure::TokenCombination) -> Result<
    UnifyRead,
    ErrorView,
> {
    match c {
        structure::TokenCombination::Token(token) => match token_filter_model(token) {
            Err(e) => Err(e),
            Ok(filter) => Ok(before.with_token(filter, false)),
        },
        structure::TokenCombination::And(tokens) | structure::TokenCombination::Or(
            tokens,
        ) => match group_filter_model(tokens) {
            Err(e) => Err(e),
            Ok(filter) => Ok(before.with_token(filter, false)),
        },
        structure::TokenCombination::Unify(_) => Err(nested_unify()),
    }
}

/// What has been read after the tokens `tokens` that are set aside are
/// added to `before`, one after the other.
pub open spec fn ignored_steps_model(before: UnifyRead, tokens: Seq<structure::TokenCombination>) -> Result<
    UnifyRead,
    ErrorView,
>
    decreases tokens.len(),
{
    if tokens.len() == 0 {
        Ok(before)
    } else {
        match ignored_step_model(before, tokens[0]) {
            Err(e) => Err(e),
            Ok(after) => ignored_steps_model(after, tokens.drop_first()),
        }
    }
}

/// The unifications that a rule brings along: none where it names none.
pub open spec fn unifications_of(unifications: Option<Vec<structure::Unification>>) -> Seq<
    structure::Unification,
> {
    match unifications {
        Some(u) => u@,
        None => seq![],
    }
}

/// What has been read of an agreement block after the element `c` is added
/// to `before`. A feature adds the filters of its values; a token or a
/// group adds its own filter and takes part.
pub open spec fn unify_step_model(
    before: UnifyRead,
    c: structure::UnifyTokenCombination,
    unifications: Seq<structure::Unification>,
) -> Result<UnifyRead, ErrorView> {
    match c {
        structure::UnifyTokenCombination::Feature(feature) => match feature_model(
            unifications,
            feature.id@,
        ) {
            Err(e) => Err(e),
            Ok(filters) => Ok(
                UnifyRead {
                    filters: before.filters.push(filters),
                    disambig: before.disambig,
                    mask: before.mask,
                },
            ),
        },
        structure::UnifyTokenCombination::And(tokens) | structure::UnifyTokenCombination::Or(
            tokens,
        ) => match group_filter_model(tokens) {
            Err(e) => Err(e),
            Ok(filter) => Ok(before.with_token(filter, true)),
        },
        structure::UnifyTokenCombination::Token(token) => match token_filter_model(token) {
            Err(e) => Err(e),
            Ok(filter) => Ok(before.with_token(filter, true)),
        },
        structure::UnifyTokenCombination::Ignore(ignore) => ignored_steps_model(
            before,
            ignore.tokens@,
        ),
    }
}

/// What has been read of an agreement block after the elements `tokens` are
/// added to `before`, one after the other.
pub open spec fn unify_steps_model(
    before: UnifyRead,
    tokens: Seq<structure::UnifyTokenCombination>,
    unifications: Seq<structure::Unification>,
) -> Result<UnifyRead, ErrorView>
    decreases tokens.len(),
{
    if tokens.len() == 0 {
        Ok(before)
    } else {
        match unify_step_model(before, tokens[0], unifications) {
            Err(e) => Err(e),
            Ok(after) => unify_steps_model(after, tokens.drop_first(), unifications),
        }
    }
}

/// What the agreement block `unify` asks for: for each feature the filters
/// of its values, and for each token its own filter and whether it takes
/// part in the agreement.
pub open spec fn unify_model(
    unify: structure::Unify,
    unifications: Option<Vec<structure::Unification>>,
) -> Result<UnifyRead, ErrorView> {
    unify_steps_model(
        UnifyRead { filters: seq![], disambig: seq![], mask: seq![] },
        unify.tokens@,
        unifications_of(unifications),
    )
}

fn parse_equivalences(equivalences: &Vec<structure::Equivalence>) -> (res: Result<
    Vec<POSFilter>,
    Error,
>)
    ensures
        result_view(res) == equivalences_model(equivalences@),
{
    let mut out: Vec<POSFilter> = empty_view();
    let mut i: usize = 0;
    proof {
        assert(equivalences@.skip(0) =~= equivalences@);
        let all = equivalences_model(equivalences@);
        if all is Ok {
            assert(out.deep_view() + all->Ok_0 =~= all->Ok_0);
        }
    }
    while i < equivalences.len()
        invariant
            i <= equivalences.len(),
            equivalences_model(equivalences@) == prepend(
                out.deep_view(),
                equivalences_model(equivalences@.skip(i as int)),
            ),
        decreases equivalences.len() - i,
    {
        let ghost done = out.deep_view();
        let ghost rest = equivalences_model(equivalences@.skip(i + 1));
        assert(equivalences@.skip(i as int).drop_first() =~= equivalences@.skip(i + 1));
        assert(equivalences@.skip(i as int)[0] == equivalences@[i as int]);
        let token = &equivalences[i].token;
        let filter = parse_pos_filter(token.postag.as_str(), &token.postag_regexp)?;
        push_view(&mut out, filter);
        proof {
            if rest is Ok {
                assert(done + (seq![filter@] + rest->Ok_0) =~= done.push(filter@) + rest->Ok_0);
            }
        }
        i += 1;
    }
    assert(out.deep_view() + Seq::<POSFilterView>::empty() =~= out.deep_view());
    Ok(out)
}

fn parse_feature(unifications: &Option<Vec<structure::Unification>>, id: &str) -> (res: Result<
    Vec<POSFilter>,
    Error,
>)
    ensures
        result_view(res) == feature_model(unifications_of(*unifications), id@),
{
    let missing = Error::Unexpected(String::from_str("no unification for feature ").concat(id));
    let list = match unifications {
        Some(list) => list,
        None => {
            return Err(missing);
        },
    };
    let mut i: usize = 0;
    assert(list@.skip(0) =~= list@);
    while i < list.len()
        invariant
            i <= list.len(),
            unifications_of(*unifications) == list@,
            missing@ == unknown_feature(id@),
            feature_model(list@, id@) == feature_model(list@.skip(i as int), id@),
        decreases list.len() - i,
    {
        assert(list@.skip(i as int).drop_first() =~= list@.skip(i + 1));
        assert(list@.skip(i as int)[0] == list@[i as int]);
        if same_text(list[i].feature.as_str(), id) {
            return parse_equivalences(&list[i].equivalences);
        }
        i += 1;
    }
    Err(missing)
}

/// The vectors that hold what has been read of an agreement block.
pub open spec fn unify_read(
    filters: Vec<Vec<POSFilter>>,
    disambig: Vec<Option<POSFilter>>,
    mask: Vec<bool>,
) -> UnifyRead {
    UnifyRead { filters: filters.deep_view(), disambig: disambig.deep_view(), mask: mask@ }
}

fn add_token(
    disambig: &mut Vec<Option<POSFilter>>,
    mask: &mut Vec<bool>,
    filter: Option<POSFilter>,
    takes_part: bool,
)
    ensures
        final(disambig).deep_view() == old(disambig).deep_view().push(filter.deep_view()),
        final(mask)@ == old(mask)@.push(takes_part),
{
    push_view(disambig, filter);
    mask.push(takes_part);
}

fn parse_ignored(
    tokens: &Vec<structure::TokenCombination>,
    disambig: &mut Vec<Option<POSFilter>>,
    mask: &mut Vec<bool>,
    Ghost(filters): Ghost<Seq<Seq<POSFilterView>>>,
) -> (res: Result<(), Error>)
    ensures
        match res {
            Ok(_) => ignored_steps_model(
                UnifyRead { filters, disambig: old(disambig).deep_view(), mask: old(mask)@ },
                tokens@,
            ) == Ok::<UnifyRead, ErrorView>(
                UnifyRead { filters, disambig: final(disambig).deep_view(), mask: final(mask)@ },
            ),
            Err(e) => ignored_steps_model(
                UnifyRead { filters, disambig: old(disambig).deep_view(), mask: old(mask)@ },
                tokens@,
            ) == Err::<UnifyRead, ErrorView>(e@),
        },
{
    let mut i: usize = 0;
    let ghost first = UnifyRead { filters, disambig: disambig.deep_view(), mask: mask@ };
    assert(tokens@.skip(0) =~= tokens@);
    while i < tokens.len()
        invariant
            i <= tokens.len(),
            first == (UnifyRead {
                filters,
                disambig: old(disambig).deep_view(),
                mask: old(mask)@,
            }),
            ignored_steps_model(first, tokens@) == ignored_steps_model(
                UnifyRead { filters, disambig: disambig.deep_view(), mask: mask@ },
                tokens@.skip(i as int),
            ),
        decreases tokens.len() - i,
    {
        assert(tokens@.skip(i as int).drop_first() =~= tokens@.skip(i + 1));
        assert(tokens@.skip(i as int)[0] == tokens@[i as int]);
        match &tokens[i] {
            structure::TokenCombination::Token(token) => {
                let filter = token_filter(token)?;
                add_token(disambig, mask, filter, false);
            },
            structure::TokenCombination::And(group) | structure::TokenCombination::Or(group) => {
                let filter = group_filter(group)?;
                add_token(disambig, mask, filter, false);
            },
            structure::TokenCombination::Unify(_) => {
                return Err(Error::unimplemented("nested unify not supported"));
            },
        }
        i += 1;
    }
    Ok(())
}

/// Reads what the agreement block `unify` asks for: for each feature the
/// filters of its values, by the unifications that the rule brings along;
/// and for each token its own filter and whether it takes part.
pub fn parse_unify(unify: &structure::Unify, unifications: &Option<Vec<structure::Unification>>) -> (res:
    Result<(Vec<Vec<POSFilter>>, Vec<Option<POSFilter>>, Vec<bool>), Error>)
    ensures
        match res {
            Ok(read) => unify_model(*unify, *unifications) == Ok::<UnifyRead, ErrorView>(
                unify_read(read.0, read.1, read.2),
            ),
            Err(e) => unify_model(*unify, *unifications) == Err::<UnifyRead, ErrorView>(e@),
        },
{
    let mut filters: Vec<Vec<POSFilter>> = empty_view();
    let mut disambig: Vec<Option<POSFilter>> = empty_view();
    let mut mask: Vec<bool> = Vec::new();
    let tokens = &unify.tokens;
    let mut i: usize = 0;
    let ghost known = unifications_of(*unifications);
    let ghost first = UnifyRead { filters: seq![], disambig: seq![], mask: seq![] };
    assert(tokens@.skip(0) =~= tokens@);
    assert(mask@ =~= Seq::<bool>::empty());
    while i < tokens.len()
        invariant
            i <= tokens.len(),
            tokens == &unify.tokens,
            known == unifications_of(*unifications),
            first == (UnifyRead { filters: seq![], disambig: seq![], mask: seq![] }),
            unify_steps_model(first, tokens@, known) == unify_steps_model(
                unify_read(filters, disambig, mask),
                tokens@.skip(i as int),
                known,
            ),
        decreases tokens.len() - i,
    {
        assert(tokens@.skip(i as int).drop_first() =~= tokens@.skip(i + 1));
        assert(tokens@.skip(i as int)[0] == tokens@[i as int]);
        match &tokens[i] {
            structure::UnifyTokenCombination::Feature(feature) => {
                let values = parse_feature(unifications, feature.id.as_str())?;
                push_view(&mut filters, values);
            },
            structure::UnifyTokenCombination::And(group) | structure::UnifyTokenCombination::Or(
                group,
            ) => {
                let filter = group_filter(group)?;
                add_token(&mut disambig, &mut mask, filter, true);
            },
            structure::UnifyTokenCombination::Token(token) => {
                let filter = token_filter(token)?;
                add_token(&mut disambig, &mut mask, filter, true);
            },
            structure::UnifyTokenCombination::Ignore(ignore) => {
                parse_ignored(&ignore.tokens, &mut disambig, &mut mask, Ghost(filters.deep_view()))?;
            },
        }
        i += 1;
    }
    Ok((filters, disambig, mask))
}

/// The error for a word form that is not written as a text and tags in
/// square brackets behind it.
pub open spec fn bad_tag_form() -> ErrorView {
    ErrorView::Unexpected("a tagged form must be written as text[tags]"@)
}

/// The place of the bracket that opens the tags of `form`: its first `[`,
/// not counting one that the form begins with.
pub open spec fn tags_open(form: Seq<char>) -> int {
    1 + position(form.skip(1), '[')
}

/// The place of the bracket that closes the tags of `form`: the first `]`
/// that leaves room for a character behind the opening bracket.
pub open spec fn tags_close(form: Seq<char>) -> int {
    tags_open(form) + 2 + position(form.skip(tags_open(form) + 2), ']')
}

/// The analysis that an entry among the tags stands for: its lemma and its
/// tag with a slash between them. The mark of the end of a sentence and an
/// entry without a slash stand for none.
pub open spec fn tag_model(entry: Seq<char>) -> Seq<WordDataView> {
    let halves = pieces(entry, '/');
    if entry == "</S>"@ || halves.len() < 2 {
        seq![]
    } else {
        seq![WordDataView { lemma: halves[0], pos: halves[1] }]
    }
}

/// The analyses that the entries `entries` stand for, in their order.
pub open spec fn tags_model(entries: Seq<Seq<char>>) -> Seq<WordDataView>
    decreases entries.len(),
{
    if entries.len() == 0 {
        seq![]
    } else {
        tag_model(entries[0]) + tags_model(entries.drop_first())
    }
}

/// The word that `form` describes: a text, and behind it in square brackets
/// its analyses with commas between them.
pub open spec fn tag_form_model(form: Seq<char>) -> Result<WordView, ErrorView> {
    let open = tags_open(form);
    let close = tags_close(form);
    if form.len() > 0 && open < form.len() && close < form.len() {
        Ok(
            WordView {
                text: form.take(open),
                tags: tags_model(pieces(form.subrange(open + 1, close), ',')),
            },
        )
    } else {
        Err(bad_tag_form())
    }
}

fn parse_tag(entry: &str) -> (out: Vec<OwnedWordData>)
    ensures
        out.deep_view() == tag_model(entry@),
{
    if same_text(entry, "</S>") {
        return empty_view();
    }
    let mut halves = split(entry, '/');
    if halves.len() < 2 {
        empty_view()
    } else {
        assert(halves.deep_view()[0] == halves@[0]@);
        assert(halves.deep_view()[1] == halves@[1]@);
        let lemma = halves[0].clone();
        let pos = halves[1].clone();
        single_view(OwnedWordData::new(lemma, pos))
    }
}

/// Reads a word with its analyses from the form `text[lemma/tag,...]`.
pub fn parse_tag_form(form: &str) -> (res: Result<OwnedWord, Error>)
    ensures
        result_view(res) == tag_form_model(form@),
{
    let n = form.unicode_len();
    if n == 0 {
        return Err(Error::unexpected("a tagged form must be written as text[tags]"));
    }
    proof {
        lemma_position(form@.skip(1), '[');
    }
    assert(form@.subrange(1, n as int) =~= form@.skip(1));
    let open = match find_char(form.substring_char(1, n), '[') {
        Some(i) => i + 1,
        None => {
            return Err(Error::unexpected("a tagged form must be written as text[tags]"));
        },
    };
    if n - open < 2 {
        proof {
            lemma_position(form@.skip(open + 2), ']');
        }
        return Err(Error::unexpected("a tagged form must be written as text[tags]"));
    }
    proof {
        lemma_position(form@.skip(open + 2), ']');
    }
    assert(form@.subrange(open + 2, n as int) =~= form@.skip(open + 2));
    let close = match find_char(form.substring_char(open + 2, n), ']') {
        Some(j) => open + 2 + j,
        None => {
            return Err(Error::unexpected("a tagged form must be written as text[tags]"));
        },
    };
    let text = String::from_str(form.substring_char(0, open));
    assert(form@.subrange(0, open as int) =~= form@.take(open as int));
    let entries = split(form.substring_char(open + 1, close), ',');
    let mut tags: Vec<OwnedWordData> = empty_view();
    let mut i: usize = 0;
    proof {
        assert(entries.deep_view().skip(0) =~= entries.deep_view());
        assert(tags.deep_view() + tags_model(entries.deep_view()) =~= tags_model(
            entries.deep_view(),
        ));
    }
    while i < entries.len()
        invariant
            i <= entries.len(),
            tags_model(entries.deep_view()) == tags.deep_view() + tags_model(
                entries.deep_view().skip(i as int),
            ),
        decreases entries.len() - i,
    {
        let ghost done = tags.deep_view();
        let ghost all = entries.deep_view();
        assert(all.skip(i as int).drop_first() =~= all.skip(i + 1));
        assert(all.skip(i as int)[0] == entries@[i as int]@);
        let more = parse_tag(entries[i].as_str());
        append_view(&mut tags, more);
        assert(done + (more.deep_view() + tags_model(all.skip(i + 1))) =~= (done
            + more.deep_view()) + tags_model(all.skip(i + 1)));
        i += 1;
    }
    assert(tags.deep_view() + Seq::<WordDataView>::empty() =~= tags.deep_view());
    Ok(OwnedWord { text, tags })
}

} // verus!
