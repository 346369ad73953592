//! Carrying out a disambiguation on the tokens of a marked span.

use crate::disambiguation::{
    Disambiguation,
    DisambiguationView,
    OwnedWordData,
    POSFilter,
    POSFilterView,
    Selector,
    SelectorView,
    WordDataView,
};
use crate::regex::accepts;
use crate::text::same_text;
use crate::tokens::{Token, TokenView};
use crate::views::{empty_view, push_view};
use vstd::prelude::*;

verus! {

impl POSFilterView {
    /// Whether the filter passes `tag`.
    pub open spec fn passes(self, tag: Seq<char>) -> bool {
        match self {
            POSFilterView::Regex(pattern) => accepts(pattern, tag),
            POSFilterView::String(wanted) => tag == wanted,
        }
    }
}

impl SelectorView {
    /// Whether the selector picks the analysis `a`. A literal analysis
    /// picks the analyses with its tag and its lemma; one without a lemma
    /// picks them whatever their lemma.
    pub open spec fn picks(self, a: WordDataView) -> bool {
        match self {
            SelectorView::WordData(data) => a.pos == data.pos && (data.lemma.len() == 0 || a.lemma
                == data.lemma),
            SelectorView::Filter(filter) => filter.passes(a.pos),
        }
    }
}

/// Whether one of `selectors` picks `a`.
pub open spec fn any_picks(selectors: Seq<SelectorView>, a: WordDataView) -> bool {
    exists|i: int| 0 <= i < selectors.len() && (#[trigger] selectors[i]).picks(a)
}

impl POSFilter {
    /// Whether the filter passes `tag`.
    pub fn passes(&self, tag: &str) -> (r: bool)
        ensures
            r == self@.passes(tag@),
    {
        match self {
            POSFilter::Regex(regex) => regex.is_match(tag),
            POSFilter::String(wanted) => same_text(tag, wanted.as_str()),
        }
    }
}

impl Selector {
    /// Whether the selector picks the analysis `a`.
    pub fn picks(&self, a: &OwnedWordData) -> (r: bool)
        ensures
            r == self@.picks(a@),
    {
        match self {
            Selector::WordData(data) => {
                let any_lemma = data.lemma.as_str().is_empty();
                same_text(a.pos.as_str(), data.pos.as_str()) && (any_lemma || same_text(
                    a.lemma.as_str(),
                    data.lemma.as_str(),
                ))
            },
            Selector::Filter(filter) => filter.passes(a.pos.as_str()),
        }
    }
}

fn is_picked(selectors: &Vec<Selector>, a: &OwnedWordData) -> (r: bool)
    ensures
        r == any_picks(selectors.deep_view(), a@),
{
    let mut i: usize = 0;
    while i < selectors.len()
        invariant
            i <= selectors.len(),
            forall|k: int| 0 <= k < i ==> !(#[trigger] selectors.deep_view()[k]).picks(a@),
        decreases selectors.len() - i,
    {
        assert(selectors.deep_view()[i as int] == selectors@[i as int]@);
        if selectors[i].picks(a) {
            return true;
        }
        i += 1;
    }
    false
}

/// Whether the analysis `a` fits the choice `choice` of a value for each
/// feature: the token's own filter passes its tag, and so does the filter of
/// every chosen value.
pub open spec fn fits(
    a: WordDataView,
    own: Option<POSFilterView>,
    features: Seq<Seq<POSFilterView>>,
    choice: Seq<usize>,
) -> bool {
    &&& match own {
        Some(filter) => filter.passes(a.pos),
        None => true,
    }
    &&& forall|f: int|
        0 <= f < features.len() ==> (#[trigger] features[f])[choice[f] as int].passes(a.pos)
}

/// Whether `choice` names a value of every feature.
pub open spec fn is_choice(features: Seq<Seq<POSFilterView>>, choice: Seq<usize>) -> bool {
    &&& choice.len() == features.len()
    &&& forall|f: int| 0 <= f < features.len() ==> (#[trigger] choice[f]) < features[f].len()
}

/// What an agreement works on: the values of its features, the filters and
/// the parts of its tokens, and the tokens themselves, which are those of
/// `tokens` from `from` up to `to`.
pub struct Agreement {
    pub features: Seq<Seq<POSFilterView>>,
    pub filters: Seq<Option<POSFilterView>>,
    pub mask: Seq<bool>,
    pub tokens: Seq<TokenView>,
    pub from: int,
    pub to: int,
}

impl Agreement {
    /// Whether the token at `i` takes part in the agreement.
    pub open spec fn takes_part(self, i: int) -> bool {
        self.from <= i < self.to && i < self.tokens.len() && i - self.from < self.mask.len()
            && self.mask[i - self.from]
    }

    /// The own filter of the token at `i`.
    pub open spec fn own_filter(self, i: int) -> Option<POSFilterView> {
        if 0 <= i - self.from < self.filters.len() {
            self.filters[i - self.from]
        } else {
            None
        }
    }

    /// Whether the token at `i` has an analysis that fits `choice`.
    pub open spec fn token_agrees(self, i: int, choice: Seq<usize>) -> bool {
        exists|k: int|
            0 <= k < self.tokens[i].tags.len() && fits(
                #[trigger] self.tokens[i].tags[k],
                self.own_filter(i),
                self.features,
                choice,
            )
    }

    /// Whether every token that takes part has an analysis that fits
    /// `choice`.
    pub open spec fn admissible(self, choice: Seq<usize>) -> bool {
        forall|i: int| #[trigger] self.takes_part(i) ==> self.token_agrees(i, choice)
    }

    /// The first admissible choice that begins with `prefix`, in the order
    /// of the values of each feature.
    pub open spec fn search(self, prefix: Seq<usize>) -> Option<Seq<usize>>
        decreases self.features.len() - prefix.len(), 1int, 0int,
    {
        if prefix.len() >= self.features.len() {
            if self.admissible(prefix) {
                Some(prefix)
            } else {
                None
            }
        } else {
            self.search_from(prefix, 0)
        }
    }

    /// The first admissible choice that begins with `prefix` and goes on
    /// with the value `v` or a later one.
    pub open spec fn search_from(self, prefix: Seq<usize>, v: usize) -> Option<Seq<usize>>
        decreases self.features.len() - prefix.len(), 0int, self.features[prefix.len() as int].len()
            - v,
    {
        if prefix.len() < self.features.len() && v < self.features[prefix.len() as int].len() {
            match self.search(prefix.push(v)) {
                Some(choice) => Some(choice),
                None => if v < usize::MAX {
                    self.search_from(prefix, (v + 1) as usize)
                } else {
                    None
                },
            }
        } else {
            None
        }
    }

    /// The analyses that the token at `i` keeps under `choice`.
    pub open spec fn agreed_tags(self, i: int, choice: Seq<usize>) -> Seq<WordDataView> {
        if self.takes_part(i) {
            self.tokens[i].tags.filter(
                |a: WordDataView| fits(a, self.own_filter(i), self.features, choice),
            )
        } else {
            self.tokens[i].tags
        }
    }
}

/// What `search` finds is a choice that begins with `prefix` and is
/// admissible; and where it finds nothing, no choice that begins with
/// `prefix` is admissible.
pub proof fn lemma_search(agreement: Agreement, prefix: Seq<usize>)
    requires
        prefix.len() <= agreement.features.len(),
    ensures
        agreement.search(prefix) matches Some(choice) ==> choice.len() == agreement.features.len()
            && choice.take(prefix.len() as int) == prefix && agreement.admissible(choice),
        agreement.search(prefix) is None ==> forall|choice: Seq<usize>|
            #![trigger agreement.admissible(choice)]
            is_choice(agreement.features, choice) && choice.take(prefix.len() as int) == prefix
                ==> !agreement.admissible(choice),
    decreases agreement.features.len() - prefix.len(), 1int, 0int,
{
    if prefix.len() >= agreement.features.len() {
        assert(prefix.take(prefix.len() as int) =~= prefix);
        if agreement.search(prefix) is None {
            assert forall|choice: Seq<usize>|
                #![trigger agreement.admissible(choice)]
                is_choice(agreement.features, choice) && choice.take(prefix.len() as int)
                    == prefix implies !agreement.admissible(choice) by {
                assert(choice.take(prefix.len() as int) =~= choice);
            }
        }
    } else {
        lemma_search_from(agreement, prefix, 0);
    }
}

proof fn lemma_search_from(agreement: Agreement, prefix: Seq<usize>, v: usize)
    requires
        prefix.len() < agreement.features.len(),
    ensures
        agreement.search_from(prefix, v) matches Some(choice) ==> choice.len()
            == agreement.features.len() && choice.take(prefix.len() as int) == prefix
            && agreement.admissible(choice),
        agreement.search_from(prefix, v) is None ==> forall|choice: Seq<usize>|
            #![trigger agreement.admissible(choice)]
            is_choice(agreement.features, choice) && choice.take(prefix.len() as int) == prefix
                && choice[prefix.len() as int] >= v ==> !agreement.admissible(choice),
    decreases agreement.features.len() - prefix.len(), 0int, agreement.features[prefix.len() as int].len()
        - v,
{
    let n = prefix.len() as int;
    if v < agreement.features[n].len() {
        let longer = prefix.push(v);
        lemma_search(agreement, longer);
        match agreement.search(longer) {
            Some(choice) => {
                assert(choice.take(n) =~= choice.take(n + 1).take(n));
                assert(longer.take(n) =~= prefix);
            },
            None => {
                if v < usize::MAX {
                    lemma_search_from(agreement, prefix, (v + 1) as usize);
                }
                if agreement.search_from(prefix, v) is None {
                    assert forall|choice: Seq<usize>|
                        #![trigger agreement.admissible(choice)]
                        is_choice(agreement.features, choice) && choice.take(n) == prefix
                            && choice[n] >= v implies !agreement.admissible(choice) by {
                        if choice[n] == v {
                            assert(choice.take(n + 1) =~= choice.take(n).push(choice[n]));
                        }
                    }
                }
            },
        }
    } else {
        assert forall|choice: Seq<usize>|
            #![trigger agreement.admissible(choice)]
            is_choice(agreement.features, choice) && choice.take(n) == prefix && choice[n]
                >= v implies !agreement.admissible(choice) by {
            assert(choice[n] < agreement.features[n].len());
        }
    }
}

impl DisambiguationView {
    /// The analyses of the token at `i` after the disambiguation, for a
    /// token inside the span from `from` up to `to`.
    pub open spec fn new_tags(
        self,
        tokens: Seq<TokenView>,
        from: int,
        to: int,
        i: int,
    ) -> Seq<WordDataView> {
        let tags = tokens[i].tags;
        match self {
            DisambiguationView::Remove(selectors) => tags.filter(
                |a: WordDataView| !any_picks(selectors, a),
            ),
            DisambiguationView::Add(datas) => tags + datas,
            DisambiguationView::Replace(datas) => datas,
            DisambiguationView::Filter(selectors) => {
                if 0 <= i - from < selectors.len() && selectors[i - from] is Some {
                    let kept = tags.filter(|a: WordDataView| selectors[i - from]->Some_0.picks(a));
                    if kept.len() > 0 {
                        kept
                    } else {
                        tags
                    }
                } else {
                    tags
                }
            },
            DisambiguationView::Unify(features, filters, mask) => {
                let agreement = Agreement { features, filters, mask, tokens, from, to };
                match agreement.search(seq![]) {
                    Some(choice) => agreement.agreed_tags(i, choice),
                    None => tags,
                }
            },
            DisambiguationView::Nop => tags,
        }
    }

    /// Whether the disambiguation can be carried out on the span: an
    /// agreement needs a choice that all tokens that take part can agree
    /// on, everything else can always be done.
    pub open spec fn applies(self, tokens: Seq<TokenView>, from: int, to: int) -> bool {
        match self {
            DisambiguationView::Unify(features, filters, mask) => (Agreement {
                features,
                filters,
                mask,
                tokens,
                from,
                to,
            }).search(seq![]) is Some,
            _ => true,
        }
    }

    /// The tokens after the disambiguation of the span from `from` up to
    /// `to`: the tokens inside the span have their analyses changed, and
    /// nothing else is touched.
    /// - `Remove` takes away the analyses that a selector picks.
    /// - `Add` puts the given analyses behind those of each token.
    /// - `Replace` puts them in their place.
    /// - `Filter` keeps, of each token in turn, the analyses that its
    ///   selector picks; a token without a selector, or one that would be
    ///   left without an analysis, stays as it is.
    /// - `Unify` keeps, of each token that takes part, the analyses that fit
    ///   the first choice of values that all can agree on, and changes
    ///   nothing where there is no such choice.
    /// - `Nop` changes nothing.
    pub open spec fn applied(self, tokens: Seq<TokenView>, from: int, to: int) -> Seq<TokenView> {
        Seq::new(
            tokens.len(),
            |i: int|
                if from <= i < to {
                    TokenView { tags: self.new_tags(tokens, from, to, i), ..tokens[i] }
                } else {
                    tokens[i]
                },
        )
    }
}

fn copy_all(datas: &Vec<OwnedWordData>, out: &mut Vec<OwnedWordData>)
    ensures
        final(out).deep_view() == old(out).deep_view() + datas.deep_view(),
{
    let mut i: usize = 0;
    assert(out.deep_view() + datas.deep_view().take(0) =~= out.deep_view());
    while i < datas.len()
        invariant
            i <= datas.len(),
            out.deep_view() == old(out).deep_view() + datas.deep_view().take(i as int),
        decreases datas.len() - i,
    {
        let copy = datas[i].clone();
        assert(datas.deep_view()[i as int] == datas@[i as int]@);
        push_view(out, copy);
        assert(datas.deep_view().take(i + 1) =~= datas.deep_view().take(i as int).push(copy@));
        assert(out.deep_view() =~= old(out).deep_view() + datas.deep_view().take(i + 1));
        i += 1;
    }
    assert(datas.deep_view().take(datas.len() as int) =~= datas.deep_view());
}

fn without_picked(tags: &Vec<OwnedWordData>, selectors: &Vec<Selector>) -> (out: Vec<
    OwnedWordData,
>)
    ensures
        out.deep_view() == tags.deep_view().filter(
            |a: WordDataView| !any_picks(selectors.deep_view(), a),
        ),
{
    let mut out: Vec<OwnedWordData> = empty_view();
    let mut i: usize = 0;
    let ghost all = tags.deep_view();
    let ghost keep = |a: WordDataView| !any_picks(selectors.deep_view(), a);
    assert(all.take(0) =~= Seq::<WordDataView>::empty());
    while i < tags.len()
        invariant
            i <= tags.len(),
            all == tags.deep_view(),
            keep == |a: WordDataView| !any_picks(selectors.deep_view(), a),
            out.deep_view() == all.take(i as int).filter(keep),
        decreases tags.len() - i,
    {
        assert(all[i as int] == tags@[i as int]@);
        assert(all.take(i + 1).drop_last() =~= all.take(i as int));
        reveal(Seq::filter);
        if !is_picked(selectors, &tags[i]) {
            push_view(&mut out, tags[i].clone());
        }
        i += 1;
    }
    assert(all.take(tags.len() as int) =~= all);
    out
}

fn only_picked(tags: &Vec<OwnedWordData>, selector: &Selector) -> (out: Vec<OwnedWordData>)
    ensures
        out.deep_view() == tags.deep_view().filter(|a: WordDataView| selector@.picks(a)),
{
    let mut out: Vec<OwnedWordData> = empty_view();
    let mut i: usize = 0;
    let ghost all = tags.deep_view();
    let ghost keep = |a: WordDataView| selector@.picks(a);
    assert(all.take(0) =~= Seq::<WordDataView>::empty());
    while i < tags.len()
        invariant
            i <= tags.len(),
            all == tags.deep_view(),
            keep == |a: WordDataView| selector@.picks(a),
            out.deep_view() == all.take(i as int).filter(keep),
        decreases tags.len() - i,
    {
        assert(all[i as int] == tags@[i as int]@);
        assert(all.take(i + 1).drop_last() =~= all.take(i as int));
        reveal(Seq::filter);
        if selector.picks(&tags[i]) {
            push_view(&mut out, tags[i].clone());
        }
        i += 1;
    }
    assert(all.take(tags.len() as int) =~= all);
    out
}

/// An agreement as it is carried out.
struct Unification<'a> {
    features: &'a Vec<Vec<POSFilter>>,
    filters: &'a Vec<Option<POSFilter>>,
    mask: &'a Vec<bool>,
    tokens: &'a Vec<Token>,
    from: usize,
    to: usize,
}

impl<'a> Unification<'a> {
    spec fn model(&self) -> Agreement {
        Agreement {
            features: self.features.deep_view(),
            filters: self.filters.deep_view(),
            mask: self.mask@,
            tokens: self.tokens.deep_view(),
            from: self.from as int,
            to: self.to as int,
        }
    }

    fn takes_part(&self, i: usize) -> (r: bool)
        ensures
            r == self.model().takes_part(i as int),
    {
        self.from <= i && i < self.to && i < self.tokens.len() && i - self.from < self.mask.len()
            && self.mask[i - self.from]
    }

    fn own_filter(&self, i: usize) -> (own: &Option<POSFilter>)
        requires
            self.from <= i,
        ensures
            own.deep_view() == self.model().own_filter(i as int),
    {
        if i - self.from < self.filters.len() {
            assert(self.filters.deep_view()[i - self.from] == self.filters@[i
                - self.from].deep_view());
            &self.filters[i - self.from]
        } else {
            &None
        }
    }

    fn fits(&self, a: &OwnedWordData, own: &Option<POSFilter>, choice: &Vec<usize>) -> (r: bool)
        requires
            is_choice(self.model().features, choice@),
        ensures
            r == fits(a@, own.deep_view(), self.model().features, choice@),
    {
        let passed = match own {
            Some(filter) => filter.passes(a.pos.as_str()),
            None => true,
        };
        if !passed {
            return false;
        }
        let ghost features = self.features.deep_view();
        let mut f: usize = 0;
        while f < self.features.len()
            invariant
                f <= self.features.len(),
                features == self.features.deep_view(),
                is_choice(features, choice@),
                forall|k: int|
                    0 <= k < f ==> (#[trigger] features[k])[choice@[k] as int].passes(a@.pos),
            decreases self.features.len() - f,
        {
            assert(features[f as int] == self.features@[f as int].deep_view());
            assert(choice@[f as int] < features[f as int].len());
            let values = &self.features[f];
            assert(values.deep_view()[choice@[f as int] as int] == values@[choice@[f as int] as int]@);
            if !values[choice[f]].passes(a.pos.as_str()) {
                return false;
            }
            f += 1;
        }
        true
    }

    fn token_agrees(&self, i: usize, choice: &Vec<usize>) -> (r: bool)
        requires
            self.from <= i < self.tokens.len(),
            is_choice(self.model().features, choice@),
        ensures
            r == self.model().token_agrees(i as int, choice@),
    {
        let own = self.own_filter(i);
        let ghost all = self.tokens.deep_view();
        assert(all[i as int] == self.tokens@[i as int]@);
        let tags = &self.tokens[i].tags;
        let mut k: usize = 0;
        while k < tags.len()
            invariant
                k <= tags.len(),
                tags.deep_view() == self.model().tokens[i as int].tags,
                own.deep_view() == self.model().own_filter(i as int),
                is_choice(self.model().features, choice@),
                forall|j: int|
                    0 <= j < k ==> !fits(
                        #[trigger] self.model().tokens[i as int].tags[j],
                        self.model().own_filter(i as int),
                        self.model().features,
                        choice@,
                    ),
            decreases tags.len() - k,
        {
            assert(tags.deep_view()[k as int] == tags@[k as int]@);
            if self.fits(&tags[k], own, choice) {
                return true;
            }
            k += 1;
        }
        false
    }

    fn admissible(&self, choice: &Vec<usize>) -> (r: bool)
        requires
            is_choice(self.model().features, choice@),
        ensures
            r == self.model().admissible(choice@),
    {
        let mut i: usize = self.from;
        while i < self.to && i < self.tokens.len()
            invariant
                self.from <= i,
                is_choice(self.model().features, choice@),
                forall|j: int|
                    j < i && #[trigger] self.model().takes_part(j) ==> self.model().token_agrees(
                        j,
                        choice@,
                    ),
            decreases self.tokens.len() - i,
        {
            if self.takes_part(i) && !self.token_agrees(i, choice) {
                return false;
            }
            i += 1;
        }
        true
    }

    fn search(&self, choice: &mut Vec<usize>) -> (found: bool)
        requires
            old(choice).len() <= self.features.len(),
            forall|f: int|
                0 <= f < old(choice).len() ==> (#[trigger] old(choice)@[f])
                    < self.model().features[f].len(),
        ensures
            found ==> self.model().search(old(choice)@) == Some(final(choice)@) && is_choice(
                self.model().features,
                final(choice)@,
            ),
            !found ==> self.model().search(old(choice)@) is None && final(choice)@ == old(
                choice,
            )@,
        decreases self.features.len() - old(choice).len(),
    {
        let k = choice.len();
        if k >= self.features.len() {
            return self.admissible(choice);
        }
        let ghost prefix = choice@;
        let ghost features = self.features.deep_view();
        assert(features[k as int] == self.features@[k as int].deep_view());
        let values = self.features[k].len();
        let mut v: usize = 0;
        while v < values
            invariant
                v <= values,
                k == prefix.len(),
                k < self.features.len(),
                values == self.model().features[k as int].len(),
                choice@ == prefix,
                old(choice)@ == prefix,
                forall|f: int|
                    0 <= f < prefix.len() ==> (#[trigger] prefix[f])
                        < self.model().features[f].len(),
                self.model().search(prefix) == self.model().search_from(prefix, v),
            decreases values - v,
        {
            choice.push(v);
            if self.search(choice) {
                return true;
            }
            choice.pop();
            assert(choice@ =~= prefix);
            v += 1;
        }
        false
    }

    fn agreed_tags(&self, i: usize, choice: &Vec<usize>) -> (out: Vec<OwnedWordData>)
        requires
            self.from <= i < self.tokens.len(),
            is_choice(self.model().features, choice@),
        ensures
            out.deep_view() == self.model().agreed_tags(i as int, choice@),
    {
        let ghost all = self.tokens.deep_view();
        assert(all[i as int] == self.tokens@[i as int]@);
        let tags = &self.tokens[i].tags;
        let mut out: Vec<OwnedWordData> = empty_view();
        if !self.takes_part(i) {
            copy_all(tags, &mut out);
            assert(out.deep_view() =~= tags.deep_view());
            return out;
        }
        let own = self.own_filter(i);
        let ghost keep = |a: WordDataView|
            fits(a, self.model().own_filter(i as int), self.model().features, choice@);
        let ghost these = tags.deep_view();
        let mut k: usize = 0;
        assert(these.take(0) =~= Seq::<WordDataView>::empty());
        while k < tags.len()
            invariant
                k <= tags.len(),
                these == tags.deep_view(),
                own.deep_view() == self.model().own_filter(i as int),
                is_choice(self.model().features, choice@),
                keep == |a: WordDataView|
                    fits(a, self.model().own_filter(i as int), self.model().features, choice@),
                out.deep_view() == these.take(k as int).filter(keep),
            decreases tags.len() - k,
        {
            assert(these[k as int] == tags@[k as int]@);
            assert(these.take(k + 1).drop_last() =~= these.take(k as int));
            reveal(Seq::filter);
            if self.fits(&tags[k], own, choice) {
                push_view(&mut out, tags[k].clone());
            }
            k += 1;
        }
        assert(these.take(tags.len() as int) =~= these);
        out
    }
}

fn set_tags(tokens: &mut Vec<Token>, i: usize, tags: Vec<OwnedWordData>)
    requires
        i < old(tokens).len(),
    ensures
        final(tokens).deep_view() == old(tokens).deep_view().update(
            i as int,
            TokenView { tags: tags.deep_view(), ..old(tokens).deep_view()[i as int] },
        ),
{
    let ghost before = tokens.deep_view();
    assert(before[i as int] == tokens@[i as int]@);
    tokens[i].tags = tags;
    assert(tokens.deep_view() =~= before.update(
        i as int,
        TokenView { tags: tags.deep_view(), ..before[i as int] },
    ));
}

impl Disambiguation {
    /// The analyses that the token at `i` has after the disambiguation of
    /// the span from `from` up to `to`; `found` says whether an agreement
    /// found a choice, which is then in `choice`.
    fn new_tags(
        &self,
        tokens: &Vec<Token>,
        from: usize,
        to: usize,
        i: usize,
        found: bool,
        choice: &Vec<usize>,
    ) -> (out: Vec<OwnedWordData>)
        requires
            from <= i < to,
            i < tokens.len(),
            self@ matches DisambiguationView::Unify(features, filters, mask) ==> {
                let agreement = Agreement {
                    features,
                    filters,
                    mask,
                    tokens: tokens.deep_view(),
                    from: from as int,
                    to: to as int,
                };
                &&& found ==> agreement.search(seq![]) == Some(choice@) && is_choice(
                    features,
                    choice@,
                )
                &&& !found ==> agreement.search(seq![]) is None
            },
        ensures
            out.deep_view() == self@.new_tags(
                tokens.deep_view(),
                from as int,
                to as int,
                i as int,
            ),
    {
        assert(tokens.deep_view()[i as int] == tokens@[i as int]@);
        let tags = &tokens[i].tags;
        let mut out: Vec<OwnedWordData> = empty_view();
        match self {
            Disambiguation::Remove(selectors) => without_picked(tags, selectors),
            Disambiguation::Add(datas) => {
                copy_all(tags, &mut out);
                copy_all(datas, &mut out);
                assert(out.deep_view() =~= tags.deep_view() + datas.deep_view());
                out
            },
            Disambiguation::Replace(datas) => {
                copy_all(datas, &mut out);
                assert(out.deep_view() =~= datas.deep_view());
                out
            },
            Disambiguation::Filter(selectors) => {
                if i - from < selectors.len() {
                    assert(selectors.deep_view()[i - from] == selectors@[i - from].deep_view());
                    if let Some(selector) = &selectors[i - from] {
                        let kept = only_picked(tags, selector);
                        if kept.len() > 0 {
                            return kept;
                        }
                    }
                }
                copy_all(tags, &mut out);
                assert(out.deep_view() =~= tags.deep_view());
                out
            },
            Disambiguation::Unify(features, filters, mask) => {
                if found {
                    let unification = Unification { features, filters, mask, tokens, from, to };
                    unification.agreed_tags(i, choice)
                } else {
                    copy_all(tags, &mut out);
                    assert(out.deep_view() =~= tags.deep_view());
                    out
                }
            },
            Disambiguation::Nop => {
                copy_all(tags, &mut out);
                assert(out.deep_view() =~= tags.deep_view());
                out
            },
        }
    }

    /// Carries out the disambiguation on the tokens of the span from `from`
    /// up to `to`, and says whether it could be carried out: an agreement
    /// that finds no choice leaves the tokens as they are.
    pub fn apply(&self, tokens: &mut Vec<Token>, from: usize, to: usize) -> (applied: bool)
        ensures
            applied == self@.applies(old(tokens).deep_view(), from as int, to as int),
            final(tokens).deep_view() == self@.applied(
                old(tokens).deep_view(),
                from as int,
                to as int,
            ),
    {
        let ghost before = tokens.deep_view();
        let end = if to < tokens.len() {
            to
        } else {
            tokens.len()
        };
        let mut choice: Vec<usize> = Vec::new();
        let found = match self {
            Disambiguation::Unify(features, filters, mask) => {
                let unification = Unification { features, filters, mask, tokens, from, to };
                unification.search(&mut choice)
            },
            _ => true,
        };
        let mut new: Vec<Vec<OwnedWordData>> = Vec::new();
        let mut i: usize = from;
        while i < end
            invariant
                from <= i,
                i <= end || i == from,
                end <= tokens.len(),
                end <= to,
                before == tokens.deep_view(),
                self@ matches DisambiguationView::Unify(features, filters, mask) ==> {
                    let agreement = Agreement {
                        features,
                        filters,
                        mask,
                        tokens: before,
                        from: from as int,
                        to: to as int,
                    };
                    &&& found ==> agreement.search(seq![]) == Some(choice@) && is_choice(
                        features,
                        choice@,
                    )
                    &&& !found ==> agreement.search(seq![]) is None
                },
                new.len() == i - from,
                forall|j: int|
                    0 <= j < new.len() ==> (#[trigger] new@[j]).deep_view() == self@.new_tags(
                        before,
                        from as int,
                        to as int,
                        from + j,
                    ),
            decreases end - i,
        {
            let tags = self.new_tags(tokens, from, to, i, found, &choice);
            new.push(tags);
            i += 1;
        }
        while new.len() > 0
            invariant
                from + new.len() <= end || new.len() == 0,
                end <= tokens.len(),
                end <= to,
                tokens.len() == before.len(),
                forall|j: int|
                    0 <= j < new.len() ==> (#[trigger] new@[j]).deep_view() == self@.new_tags(
                        before,
                        from as int,
                        to as int,
                        from + j,
                    ),
                tokens.deep_view() == Seq::new(
                    before.len(),
                    |k: int|
                        if from + new.len() <= k < end {
                            TokenView {
                                tags: self@.new_tags(before, from as int, to as int, k),
                                ..before[k]
                            }
                        } else {
                            before[k]
                        },
                ),
            decreases new.len(),
        {
            let ghost now = tokens.deep_view();
            let j = new.len() - 1;
            let tags = new.pop().unwrap();
            set_tags(tokens, from + j, tags);
            assert(tokens.deep_view() =~= Seq::new(
                before.len(),
                |k: int|
                    if from + new.len() <= k < end {
                        TokenView {
                            tags: self@.new_tags(before, from as int, to as int, k),
                            ..before[k]
                        }
                    } else {
                        before[k]
                    },
            ));
        }
        assert(tokens.deep_view() =~= self@.applied(before, from as int, to as int));
        found
    }
}

} // verus!
