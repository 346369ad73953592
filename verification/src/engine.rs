//! Matching: matchers on strings, atoms on tokens, compositions on runs of
//! tokens.

use crate::composition::{
    Atom,
    AtomView,
    Composition,
    Matcher,
    MatcherTarget,
    MatcherTargetView,
    MatcherView,
    Part,
    PartView,
};
use crate::regex::accepts;
use crate::text::{is_same_word, same_word};
use crate::tokens::{Token, TokenView};
use vstd::prelude::*;

verus! {

/// The text that a reference to the part `id` stands for while a pattern is
/// being matched: the text of the first token that the part matched. `graph`
/// holds for each id the run of tokens that its part matched, as the place
/// of the first and the place behind the last.
pub open spec fn referred_text(id: usize, tokens: Seq<TokenView>, graph: Seq<(usize, usize)>) -> Option<
    Seq<char>,
> {
    if id < graph.len() && graph[id as int].0 < graph[id as int].1 && graph[id as int].0
        < tokens.len() {
        Some(tokens[graph[id as int].0 as int].text)
    } else {
        None
    }
}

impl MatcherView {
    /// Whether the matcher accepts `input`. A literal is compared with or
    /// without regard to case, a regular expression must match the whole
    /// input, and `negate` turns the outcome round. A reference that stands
    /// for no text accepts nothing.
    pub open spec fn accepts(
        self,
        input: Seq<char>,
        tokens: Seq<TokenView>,
        graph: Seq<(usize, usize)>,
    ) -> bool {
        match self {
            MatcherView::String { target, negate, case_sensitive, .. } => match target {
                MatcherTargetView::Text(text) => same_word(input, text, case_sensitive) != negate,
                MatcherTargetView::Reference(id) => match referred_text(id, tokens, graph) {
                    Some(text) => same_word(input, text, case_sensitive) != negate,
                    None => false,
                },
            },
            MatcherView::Regex { pattern, negate, .. } => accepts(pattern, input) != negate,
        }
    }
}

/// Whether an optional matcher accepts `input`: one that is absent does.
pub open spec fn passes(
    matcher: Option<MatcherView>,
    input: Seq<char>,
    tokens: Seq<TokenView>,
    graph: Seq<(usize, usize)>,
) -> bool {
    match matcher {
        Some(m) => m.accepts(input, tokens, graph),
        None => true,
    }
}

impl AtomView {
    /// Whether the atom holds of the token at `position`. An atom that
    /// reads a token holds of no place outside the sentence.
    pub open spec fn holds(
        self,
        tokens: Seq<TokenView>,
        graph: Seq<(usize, usize)>,
        position: int,
    ) -> bool
        decreases self,
    {
        match self {
            AtomView::True => true,
            AtomView::Text(m) => 0 <= position < tokens.len() && m.accepts(
                tokens[position].text,
                tokens,
                graph,
            ),
            AtomView::WordData { pos, lemma, .. } => 0 <= position < tokens.len() && exists|
                i: int,
            |
                0 <= i < tokens[position].tags.len() && passes(
                    pos,
                    (#[trigger] tokens[position].tags[i]).pos,
                    tokens,
                    graph,
                ) && passes(lemma, tokens[position].tags[i].lemma, tokens, graph),
            AtomView::Chunk(m) => 0 <= position < tokens.len() && exists|i: int|
                0 <= i < tokens[position].chunks.len() && m.accepts(
                    #[trigger] tokens[position].chunks[i],
                    tokens,
                    graph,
                ),
            AtomView::SpaceBefore(value) => 0 <= position < tokens.len()
                && tokens[position].has_space_before == value,
            AtomView::And(atoms) => forall|i: int|
                0 <= i < atoms.len() ==> (#[trigger] atoms[i]).holds(tokens, graph, position),
            AtomView::Or(atoms) => exists|i: int|
                0 <= i < atoms.len() && (#[trigger] atoms[i]).holds(tokens, graph, position),
            AtomView::Not(atom) => !atom.holds(tokens, graph, position),
            AtomView::Offset(atom, offset) => 0 <= position + offset < tokens.len() && atom.holds(
                tokens,
                graph,
                position + offset,
            ),
        }
    }
}

/// A conjunction made of atoms holds where all of them hold, also where it
/// is made of one atom and stands as that atom.
pub proof fn lemma_and_holds(
    atoms: Seq<AtomView>,
    tokens: Seq<TokenView>,
    graph: Seq<(usize, usize)>,
    position: int,
)
    ensures
        AtomView::and(atoms).holds(tokens, graph, position) <==> forall|i: int|
            0 <= i < atoms.len() ==> (#[trigger] atoms[i]).holds(tokens, graph, position),
{
    let all = forall|i: int|
        0 <= i < atoms.len() ==> (#[trigger] atoms[i]).holds(tokens, graph, position);
    if atoms.len() == 1 {
        assert(AtomView::and(atoms) == atoms[0]);
        if atoms[0].holds(tokens, graph, position) {
            assert forall|i: int| 0 <= i < atoms.len() implies (#[trigger] atoms[i]).holds(
                tokens,
                graph,
                position,
            ) by {
                assert(atoms[i] == atoms[0]);
            }
        }
    } else {
        assert(AtomView::and(atoms) == AtomView::And(atoms));
        if AtomView::And(atoms).holds(tokens, graph, position) {
            assert forall|i: int| 0 <= i < atoms.len() implies (#[trigger] atoms[i]).holds(
                tokens,
                graph,
                position,
            ) by {
                assert(AtomView::And(atoms)->And_0[i].holds(tokens, graph, position));
            }
        }
        if all {
            assert(AtomView::And(atoms).holds(tokens, graph, position));
        }
    }
}

/// A disjunction made of atoms holds where one of them holds, also where it
/// is made of one atom and stands as that atom.
pub proof fn lemma_or_holds(
    atoms: Seq<AtomView>,
    tokens: Seq<TokenView>,
    graph: Seq<(usize, usize)>,
    position: int,
)
    ensures
        AtomView::or(atoms).holds(tokens, graph, position) <==> exists|i: int|
            0 <= i < atoms.len() && (#[trigger] atoms[i]).holds(tokens, graph, position),
{
    let any = exists|i: int|
        0 <= i < atoms.len() && (#[trigger] atoms[i]).holds(tokens, graph, position);
    if atoms.len() == 1 {
        assert(AtomView::or(atoms) == atoms[0]);
        if any {
            let i = choose|i: int|
                0 <= i < atoms.len() && (#[trigger] atoms[i]).holds(tokens, graph, position);
            assert(atoms[i] == atoms[0]);
        }
    } else {
        assert(AtomView::or(atoms) == AtomView::Or(atoms));
        if any {
            let i = choose|i: int|
                0 <= i < atoms.len() && (#[trigger] atoms[i]).holds(tokens, graph, position);
            assert(AtomView::Or(atoms)->Or_0[i].holds(tokens, graph, position));
            assert(AtomView::Or(atoms).holds(tokens, graph, position));
        }
        if AtomView::Or(atoms).holds(tokens, graph, position) {
            assert(any);
        }
    }
}

impl Matcher {
    /// Whether the matcher accepts `input`, in a sentence with the tokens
    /// `tokens` of which `graph` says what has been matched so far.
    pub fn is_match(&self, input: &str, tokens: &Vec<Token>, graph: &Vec<(usize, usize)>) -> (r:
        bool)
        ensures
            r == self@.accepts(input@, tokens.deep_view(), graph@),
    {
        match self {
            Matcher::String { target, negate, case_sensitive, inflected: _ } => {
                match target {
                    MatcherTarget::Text(text) => is_same_word(input, text.as_str(), *case_sensitive)
                        != *negate,
                    MatcherTarget::Reference(id) => {
                        if *id < graph.len() && graph[*id].0 < graph[*id].1 && graph[*id].0
                            < tokens.len() {
                            let first = graph[*id].0;
                            assert(tokens.deep_view()[first as int] == tokens@[first as int]@);
                            is_same_word(input, tokens[first].text.as_str(), *case_sensitive)
                                != *negate
                        } else {
                            false
                        }
                    },
                }
            },
            Matcher::Regex { regex, negate, inflected: _ } => regex.is_match(input) != *negate,
        }
    }
}

fn is_passed(
    matcher: &Option<Matcher>,
    input: &str,
    tokens: &Vec<Token>,
    graph: &Vec<(usize, usize)>,
) -> (r: bool)
    ensures
        r == passes(matcher.deep_view(), input@, tokens.deep_view(), graph@),
{
    match matcher {
        Some(m) => m.is_match(input, tokens, graph),
        None => true,
    }
}

/// The place `offset` tokens further on than `position`, if it lies inside
/// a sentence of `len` tokens.
pub fn shifted(position: usize, offset: isize, len: usize) -> (r: Option<usize>)
    ensures
        r == (if 0 <= position + offset < len {
            Some((position + offset) as usize)
        } else {
            None::<usize>
        }),
{
    if offset >= 0 {
        let forth = offset as usize;
        if forth < len && position < len - forth {
            Some(position + forth)
        } else {
            None
        }
    } else {
        let back = (-(offset + 1)) as usize + 1;
        if position >= back && position - back < len {
            Some(position - back)
        } else {
            None
        }
    }
}

impl Atom {
    /// Whether the atom holds of the token at `position`.
    pub fn is_match(&self, tokens: &Vec<Token>, graph: &Vec<(usize, usize)>, position: usize) -> (r:
        bool)
        ensures
            r == self@.holds(tokens.deep_view(), graph@, position as int),
        decreases self,
    {
        let ghost all = tokens.deep_view();
        match self {
            Atom::True => true,
            Atom::Text(m) => {
                if position < tokens.len() {
                    assert(all[position as int] == tokens@[position as int]@);
                    m.is_match(tokens[position].text.as_str(), tokens, graph)
                } else {
                    false
                }
            },
            Atom::WordData { pos, lemma, case_sensitive } => {
                if position >= tokens.len() {
                    return false;
                }
                assert(all[position as int] == tokens@[position as int]@);
                let tags = &tokens[position].tags;
                let mut i: usize = 0;
                while i < tags.len()
                    invariant
                        i <= tags.len(),
                        all == tokens.deep_view(),
                        position < tokens.len(),
                        tags.deep_view() == all[position as int].tags,
                        self@ == (AtomView::WordData {
                            pos: pos.deep_view(),
                            lemma: lemma.deep_view(),
                            case_sensitive: *case_sensitive,
                        }),
                        forall|k: int|
                            0 <= k < i ==> !(passes(
                                pos.deep_view(),
                                (#[trigger] all[position as int].tags[k]).pos,
                                all,
                                graph@,
                            ) && passes(
                                lemma.deep_view(),
                                all[position as int].tags[k].lemma,
                                all,
                                graph@,
                            )),
                    decreases tags.len() - i,
                {
                    assert(tags.deep_view()[i as int] == tags@[i as int]@);
                    if is_passed(pos, tags[i].pos.as_str(), tokens, graph) && is_passed(
                        lemma,
                        tags[i].lemma.as_str(),
                        tokens,
                        graph,
                    ) {
                        return true;
                    }
                    i += 1;
                }
                false
            },
            Atom::Chunk(m) => {
                if position >= tokens.len() {
                    return false;
                }
                assert(all[position as int] == tokens@[position as int]@);
                let chunks = &tokens[position].chunks;
                let mut i: usize = 0;
                while i < chunks.len()
                    invariant
                        i <= chunks.len(),
                        all == tokens.deep_view(),
                        position < tokens.len(),
                        chunks.deep_view() == all[position as int].chunks,
                        self@ == AtomView::Chunk(m@),
                        forall|k: int|
                            0 <= k < i ==> !m@.accepts(
                                #[trigger] all[position as int].chunks[k],
                                all,
                                graph@,
                            ),
                    decreases chunks.len() - i,
                {
                    assert(chunks.deep_view()[i as int] == chunks@[i as int]@);
                    if m.is_match(chunks[i].as_str(), tokens, graph) {
                        return true;
                    }
                    i += 1;
                }
                false
            },
            Atom::SpaceBefore(value) => {
                if position < tokens.len() {
                    assert(all[position as int] == tokens@[position as int]@);
                    tokens[position].has_space_before == *value
                } else {
                    false
                }
            },
            Atom::And(atoms) => {
                let mut i: usize = 0;
                while i < atoms.len()
                    invariant
                        i <= atoms.len(),
                        all == tokens.deep_view(),
                        self == Atom::And(*atoms),
                        forall|k: int|
                            0 <= k < i ==> (#[trigger] self@->And_0[k]).holds(
                                all,
                                graph@,
                                position as int,
                            ),
                    decreases atoms.len() - i,
                {
                    assert(self@->And_0[i as int] == atoms@[i as int]@);
                    if !atoms[i].is_match(tokens, graph, position) {
                        return false;
                    }
                    i += 1;
                }
                true
            },
            Atom::Or(atoms) => {
                let mut i: usize = 0;
                while i < atoms.len()
                    invariant
                        i <= atoms.len(),
                        all == tokens.deep_view(),
                        self == Atom::Or(*atoms),
                        forall|k: int|
                            0 <= k < i ==> !(#[trigger] self@->Or_0[k]).holds(
                                all,
                                graph@,
                                position as int,
                            ),
                    decreases atoms.len() - i,
                {
                    assert(self@->Or_0[i as int] == atoms@[i as int]@);
                    if atoms[i].is_match(tokens, graph, position) {
                        return true;
                    }
                    i += 1;
                }
                false
            },
            Atom::Not(atom) => !atom.is_match(tokens, graph, position),
            Atom::Offset(atom, offset) => match shifted(position, *offset, tokens.len()) {
                Some(target) => atom.is_match(tokens, graph, target),
                None => false,
            },
        }
    }
}

/// How many tokens from `position` on the atom holds of without a break,
/// counting no more than `limit`.
pub open spec fn run_length(
    atom: AtomView,
    tokens: Seq<TokenView>,
    graph: Seq<(usize, usize)>,
    position: int,
    limit: nat,
) -> nat
    decreases limit,
{
    if limit > 0 && 0 <= position < tokens.len() && atom.holds(tokens, graph, position) {
        1 + run_length(atom, tokens, graph, position + 1, (limit - 1) as nat)
    } else {
        0
    }
}

/// The run that a part takes first is the longest that it can take: it is
/// no longer than `limit` and ends inside the sentence, the atom holds of
/// every token in it, and it stops short of `limit` only at the end of the
/// sentence or before a token of which the atom does not hold.
pub proof fn lemma_run_length(
    atom: AtomView,
    tokens: Seq<TokenView>,
    graph: Seq<(usize, usize)>,
    position: int,
    limit: nat,
)
    requires
        0 <= position <= tokens.len(),
    ensures
        run_length(atom, tokens, graph, position, limit) <= limit,
        position + run_length(atom, tokens, graph, position, limit) <= tokens.len(),
        forall|p: int|
            position <= p < position + run_length(atom, tokens, graph, position, limit)
                ==> #[trigger] atom.holds(tokens, graph, p),
        run_length(atom, tokens, graph, position, limit) < limit && position + run_length(
            atom,
            tokens,
            graph,
            position,
            limit,
        ) < tokens.len() ==> !atom.holds(
            tokens,
            graph,
            position + run_length(atom, tokens, graph, position, limit),
        ),
    decreases limit,
{
    if limit > 0 && 0 <= position < tokens.len() && atom.holds(tokens, graph, position) {
        lemma_run_length(atom, tokens, graph, position + 1, (limit - 1) as nat);
    }
}

/// `graph` with the run from `from` to `to` entered for `part`, if the part
/// is visible: it gets the next id.
pub open spec fn recorded(graph: Seq<(usize, usize)>, part: PartView, from: int, to: int) -> Seq<
    (usize, usize),
> {
    if part.visible {
        graph.push((from as usize, to as usize))
    } else {
        graph
    }
}

/// The match of the parts from the `k`th on with the tokens from `position`
/// on: the graph with their runs entered, and the place behind the last
/// token matched. Each part takes the longest run of tokens that its atom
/// holds of and its quantifier allows, and gives tokens back one at a time
/// for as long as the parts behind it find no match.
pub open spec fn match_rest(
    parts: Seq<PartView>,
    k: int,
    tokens: Seq<TokenView>,
    graph: Seq<(usize, usize)>,
    position: int,
) -> Option<(Seq<(usize, usize)>, int)>
    decreases parts.len() - k, 1int, 0int,
{
    if 0 <= k < parts.len() {
        match_counted(
            parts,
            k,
            tokens,
            graph,
            position,
            run_length(parts[k].atom, tokens, graph, position, parts[k].quantifier.max),
        )
    } else {
        Some((graph, position))
    }
}

/// The match of the parts from the `k`th on where the `k`th takes `count`
/// tokens or fewer.
pub open spec fn match_counted(
    parts: Seq<PartView>,
    k: int,
    tokens: Seq<TokenView>,
    graph: Seq<(usize, usize)>,
    position: int,
    count: nat,
) -> Option<(Seq<(usize, usize)>, int)>
    decreases parts.len() - k, 0int, count,
{
    if 0 <= k < parts.len() && count >= parts[k].quantifier.min {
        match match_rest(
            parts,
            k + 1,
            tokens,
            recorded(graph, parts[k], position, position + count),
            position + count,
        ) {
            Some(found) => Some(found),
            None => if count > 0 {
                match_counted(parts, k, tokens, graph, position, (count - 1) as nat)
            } else {
                None
            },
        }
    } else {
        None
    }
}

/// The match of `parts` with the tokens from `start` on: for every id the
/// run of tokens that its part matched, and for the id zero the run of the
/// whole match. There is none from a place outside the sentence.
pub open spec fn match_at(parts: Seq<PartView>, tokens: Seq<TokenView>, start: int) -> Option<
    Seq<(usize, usize)>,
> {
    if 0 <= start <= tokens.len() {
        match match_rest(parts, 0, tokens, seq![(start as usize, start as usize)], start) {
            Some(found) => Some(found.0.update(0, (start as usize, found.1 as usize))),
            None => None,
        }
    } else {
        None
    }
}

fn count_run(
    atom: &Atom,
    tokens: &Vec<Token>,
    graph: &Vec<(usize, usize)>,
    position: usize,
    limit: usize,
) -> (run: usize)
    requires
        position <= tokens.len(),
    ensures
        run == run_length(atom@, tokens.deep_view(), graph@, position as int, limit as nat),
        run <= limit,
        position + run <= tokens.len(),
{
    let mut run: usize = 0;
    while run < limit && position + run < tokens.len() && atom.is_match(
        tokens,
        graph,
        position + run,
    )
        invariant
            run <= limit,
            position + run <= tokens.len(),
            run_length(atom@, tokens.deep_view(), graph@, position as int, limit as nat) == run
                + run_length(
                atom@,
                tokens.deep_view(),
                graph@,
                position + run,
                (limit - run) as nat,
            ),
        decreases limit - run,
    {
        run += 1;
    }
    run
}

fn match_parts(
    parts: &Vec<Part>,
    k: usize,
    tokens: &Vec<Token>,
    graph: &mut Vec<(usize, usize)>,
    position: usize,
) -> (end: Option<usize>)
    requires
        k <= parts.len(),
        position <= tokens.len(),
    ensures
        match end {
            Some(end) => match_rest(
                parts.deep_view(),
                k as int,
                tokens.deep_view(),
                old(graph)@,
                position as int,
            ) == Some((final(graph)@, end as int)) && position <= end <= tokens.len(),
            None => match_rest(
                parts.deep_view(),
                k as int,
                tokens.deep_view(),
                old(graph)@,
                position as int,
            ) is None && final(graph)@ == old(graph)@,
        },
    decreases parts.len() - k,
{
    if k >= parts.len() {
        return Some(position);
    }
    let part = &parts[k];
    let ghost all = parts.deep_view();
    let ghost before = graph@;
    assert(all[k as int] == part@);
    let run = count_run(&part.atom, tokens, graph, position, part.quantifier.max());
    let min = part.quantifier.min();
    let mut count = run;
    loop
        invariant
            k < parts.len(),
            position + run <= tokens.len(),
            count <= run,
            all == parts.deep_view(),
            all[k as int] == part@,
            min == part@.quantifier.min,
            graph@ == before,
            old(graph)@ == before,
            match_rest(all, k as int, tokens.deep_view(), before, position as int)
                == match_counted(
                all,
                k as int,
                tokens.deep_view(),
                before,
                position as int,
                count as nat,
            ),
        ensures
            match_rest(all, k as int, tokens.deep_view(), before, position as int) is None,
            graph@ == before,
        decreases count,
    {
        if count < min {
            break;
        }
        if part.visible {
            graph.push((position, position + count));
        }
        assert(graph@ == recorded(before, part@, position as int, position + count));
        match match_parts(parts, k + 1, tokens, graph, position + count) {
            Some(end) => {
                return Some(end);
            },
            None => {},
        }
        if part.visible {
            graph.pop();
        }
        assert(graph@ =~= before);
        if count == 0 {
            break;
        }
        count -= 1;
    }
    None
}

impl Composition {
    /// Matches the composition with the tokens from `start` on. A match
    /// says for every id which tokens its part matched, as the place of the
    /// first and the place behind the last; the id zero stands for the
    /// whole match.
    pub fn apply(&self, tokens: &Vec<Token>, start: usize) -> (graph: Option<Vec<(usize, usize)>>)
        ensures
            graph.deep_view() == match_at(self@.parts, tokens.deep_view(), start as int),
            graph matches Some(g) ==> g.len() > 0 && g[0].0 == start && g[0].1 <= tokens.len(),
    {
        if start > tokens.len() {
            return None;
        }
        let mut graph: Vec<(usize, usize)> = Vec::new();
        graph.push((start, start));
        assert(graph@ =~= seq![(start, start)]);
        match match_parts(&self.parts, 0, tokens, &mut graph, start) {
            Some(end) => {
                assert(graph.len() > 0) by {
                    lemma_graph_grows(
                        self@.parts,
                        0,
                        tokens.deep_view(),
                        seq![(start, start)],
                        start as int,
                    );
                }
                graph.set(0, (start, end));
                assert(Some(graph).deep_view() =~= match_at(
                    self@.parts,
                    tokens.deep_view(),
                    start as int,
                ));
                Some(graph)
            },
            None => None,
        }
    }
}

/// A match keeps what the graph held before and adds to it.
pub proof fn lemma_graph_grows(
    parts: Seq<PartView>,
    k: int,
    tokens: Seq<TokenView>,
    graph: Seq<(usize, usize)>,
    position: int,
)
    ensures
        match_rest(parts, k, tokens, graph, position) matches Some(found) ==> found.0.len()
            >= graph.len() && found.0.take(graph.len() as int) == graph,
    decreases parts.len() - k, 1int, 0int,
{
    if 0 <= k < parts.len() {
        lemma_graph_grows_counted(
            parts,
            k,
            tokens,
            graph,
            position,
            run_length(parts[k].atom, tokens, graph, position, parts[k].quantifier.max),
        );
    } else {
        assert(graph.take(graph.len() as int) =~= graph);
    }
}

proof fn lemma_graph_grows_counted(
    parts: Seq<PartView>,
    k: int,
    tokens: Seq<TokenView>,
    graph: Seq<(usize, usize)>,
    position: int,
    count: nat,
)
    ensures
        match_counted(parts, k, tokens, graph, position, count) matches Some(found)
            ==> found.0.len() >= graph.len() && found.0.take(graph.len() as int) == graph,
    decreases parts.len() - k, 0int, count,
{
    if 0 <= k < parts.len() && count >= parts[k].quantifier.min {
        let next = recorded(graph, parts[k], position, position + count);
        lemma_graph_grows(parts, k + 1, tokens, next, position + count);
        match match_rest(parts, k + 1, tokens, next, position + count) {
            Some(found) => {
                assert(found.0.take(graph.len() as int) =~= found.0.take(next.len() as int).take(
                    graph.len() as int,
                ));
                assert(next.take(graph.len() as int) =~= graph);
            },
            None => {
                if count > 0 {
                    lemma_graph_grows_counted(
                        parts,
                        k,
                        tokens,
                        graph,
                        position,
                        (count - 1) as nat,
                    );
                }
            },
        }
    }
}

/// Whether the parts from the `k`th on can match the tokens from `position`
/// on by taking `counts` tokens each, in turn: every count is one that the
/// quantifier of its part allows, and the atom of the part holds of every
/// token that the part takes.
pub open spec fn admits(
    parts: Seq<PartView>,
    k: int,
    tokens: Seq<TokenView>,
    graph: Seq<(usize, usize)>,
    position: int,
    counts: Seq<nat>,
) -> bool
    decreases counts.len(),
{
    if counts.len() == 0 {
        k >= parts.len()
    } else {
        &&& 0 <= k < parts.len()
        &&& parts[k].quantifier.min <= counts[0] <= parts[k].quantifier.max
        &&& position + counts[0] <= tokens.len()
        &&& forall|p: int|
            position <= p < position + counts[0] ==> #[trigger] parts[k].atom.holds(
                tokens,
                graph,
                p,
            )
        &&& admits(
            parts,
            k + 1,
            tokens,
            recorded(graph, parts[k], position, position + counts[0]),
            position + counts[0],
            counts.drop_first(),
        )
    }
}

proof fn lemma_run_reaches(
    atom: AtomView,
    tokens: Seq<TokenView>,
    graph: Seq<(usize, usize)>,
    position: int,
    limit: nat,
    count: nat,
)
    requires
        0 <= position,
        count <= limit,
        position + count <= tokens.len(),
        forall|p: int| position <= p < position + count ==> #[trigger] atom.holds(tokens, graph, p),
    ensures
        run_length(atom, tokens, graph, position, limit) >= count,
    decreases count,
{
    if count > 0 {
        assert(atom.holds(tokens, graph, position));
        lemma_run_reaches(atom, tokens, graph, position + 1, (limit - 1) as nat, (count - 1) as nat);
    }
}

/// Where the parts can match at all, a match is found: the search gives up
/// only where no counts are admitted.
pub proof fn lemma_match_complete(
    parts: Seq<PartView>,
    k: int,
    tokens: Seq<TokenView>,
    graph: Seq<(usize, usize)>,
    position: int,
    counts: Seq<nat>,
)
    requires
        0 <= k,
        0 <= position <= tokens.len(),
        admits(parts, k, tokens, graph, position, counts),
    ensures
        match_rest(parts, k, tokens, graph, position) is Some,
    decreases counts.len(), 1int, 0int,
{
    if counts.len() > 0 {
        let run = run_length(parts[k].atom, tokens, graph, position, parts[k].quantifier.max);
        lemma_run_reaches(
            parts[k].atom,
            tokens,
            graph,
            position,
            parts[k].quantifier.max,
            counts[0],
        );
        lemma_counted_complete(parts, k, tokens, graph, position, counts, run);
    }
}

proof fn lemma_counted_complete(
    parts: Seq<PartView>,
    k: int,
    tokens: Seq<TokenView>,
    graph: Seq<(usize, usize)>,
    position: int,
    counts: Seq<nat>,
    count: nat,
)
    requires
        0 <= k,
        0 <= position <= tokens.len(),
        counts.len() > 0,
        admits(parts, k, tokens, graph, position, counts),
        count >= counts[0],
    ensures
        match_counted(parts, k, tokens, graph, position, count) is Some,
    decreases counts.len(), 0int, 1 + count - counts[0],
{
    let next = recorded(graph, parts[k], position, position + count);
    if match_rest(parts, k + 1, tokens, next, position + count) is None {
        if count == counts[0] {
            lemma_match_complete(
                parts,
                k + 1,
                tokens,
                next,
                position + count,
                counts.drop_first(),
            );
        } else {
            lemma_counted_complete(parts, k, tokens, graph, position, counts, (count - 1) as nat);
        }
    }
}

/// Where a match is found, the parts can match: there are counts that are
/// admitted.
pub proof fn lemma_match_sound(
    parts: Seq<PartView>,
    k: int,
    tokens: Seq<TokenView>,
    graph: Seq<(usize, usize)>,
    position: int,
)
    requires
        0 <= k,
        0 <= position <= tokens.len(),
        match_rest(parts, k, tokens, graph, position) is Some,
    ensures
        exists|counts: Seq<nat>| admits(parts, k, tokens, graph, position, counts),
    decreases parts.len() - k, 1int, 0int,
{
    if 0 <= k < parts.len() {
        let run = run_length(parts[k].atom, tokens, graph, position, parts[k].quantifier.max);
        lemma_run_length(parts[k].atom, tokens, graph, position, parts[k].quantifier.max);
        lemma_counted_sound(parts, k, tokens, graph, position, run);
    } else {
        assert(admits(parts, k, tokens, graph, position, Seq::<nat>::empty()));
    }
}

proof fn lemma_counted_sound(
    parts: Seq<PartView>,
    k: int,
    tokens: Seq<TokenView>,
    graph: Seq<(usize, usize)>,
    position: int,
    count: nat,
)
    requires
        0 <= k < parts.len(),
        0 <= position <= tokens.len(),
        count <= parts[k].quantifier.max,
        position + count <= tokens.len(),
        forall|p: int|
            position <= p < position + count ==> #[trigger] parts[k].atom.holds(tokens, graph, p),
        match_counted(parts, k, tokens, graph, position, count) is Some,
    ensures
        exists|counts: Seq<nat>| admits(parts, k, tokens, graph, position, counts),
    decreases parts.len() - k, 0int, count,
{
    let next = recorded(graph, parts[k], position, position + count);
    let behind = k + 1;
    let end = position + count;
    if match_rest(parts, behind, tokens, next, end) is Some {
        lemma_match_sound(parts, behind, tokens, next, end);
        let rest = choose|counts: Seq<nat>| admits(parts, behind, tokens, next, end, counts);
        let counts = seq![count] + rest;
        assert(counts.drop_first() =~= rest);
        assert(admits(parts, k, tokens, graph, position, counts));
    } else {
        lemma_counted_sound(parts, k, tokens, graph, position, (count - 1) as nat);
    }
}

} // verus!
