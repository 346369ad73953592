//! Finding the matches of a regular expression in a text, by characters.

use crate::regex::{search_groups, CompiledRegex};
use crate::views::push_view;
use vstd::prelude::*;
use vstd::string::StrSliceExecFns;
use vstd::string::StringExecFns;
use vstd::utf8::encode_utf8;

verus! {

/// The number of bytes that the first `k` characters of `text` take.
pub open spec fn byte_offset(text: Seq<char>, k: int) -> int {
    encode_utf8(text.take(k)).len() as int
}

/// The number of the character that begins at the byte `byte` of `text`, if
/// one does, looking from the `k`th character on; the end of the text counts
/// as the beginning of a character.
pub open spec fn char_index_from(text: Seq<char>, byte: int, k: int) -> Option<usize>
    decreases text.len() - k,
{
    if 0 <= k <= text.len() && k <= usize::MAX {
        if byte_offset(text, k) == byte {
            Some(k as usize)
        } else if k < text.len() {
            char_index_from(text, byte, k + 1)
        } else {
            None
        }
    } else {
        None
    }
}

/// The number of the character that begins at the byte `byte` of `text`.
pub open spec fn char_index(text: Seq<char>, byte: int) -> Option<usize> {
    char_index_from(text, byte, 0)
}

/// The byte at which the `k`th character of `text` begins.
pub fn byte_position(text: &str, k: usize) -> (byte: usize)
    requires
        k <= text@.len(),
    ensures
        byte == byte_offset(text@, k as int),
        byte <= encode_utf8(text@).len(),
{
    let n = text.unicode_len();
    let head = text.substring_char(0, k);
    let tail = text.substring_char(k, n);
    proof {
        assert(text@.subrange(0, k as int) =~= text@.take(k as int));
        assert(head@ + tail@ =~= text@);
        lemma_encode_concat(head@, tail@);
    }
    head.as_bytes().len()
}

/// The bytes of two texts joined are the bytes of the one and the bytes of
/// the other.
pub proof fn lemma_encode_concat(a: Seq<char>, b: Seq<char>)
    ensures
        encode_utf8(a + b) == encode_utf8(a) + encode_utf8(b),
    decreases a.len(),
{
    if a.len() == 0 {
        assert(a + b =~= b);
        assert(encode_utf8(a) + encode_utf8(b) =~= encode_utf8(b));
    } else {
        assert((a + b).drop_first() =~= a.drop_first() + b);
        lemma_encode_concat(a.drop_first(), b);
        assert(encode_utf8(a + b) =~= encode_utf8(a) + encode_utf8(b));
    }
}

/// The number of the character that begins at the byte `byte` of `text`.
pub fn char_position(text: &str, byte: usize) -> (k: Option<usize>)
    ensures
        k == char_index(text@, byte as int),
        k matches Some(k) ==> k <= text@.len(),
{
    let n = text.unicode_len();
    let mut k: usize = 0;
    while k <= n
        invariant
            n == text@.len(),
            k <= n + 1,
            char_index(text@, byte as int) == char_index_from(text@, byte as int, k as int),
        decreases n + 1 - k,
    {
        if byte_position(text, k) == byte {
            return Some(k);
        }
        if k == n {
            return None;
        }
        k += 1;
    }
    None
}

/// A group by the characters at which it begins and ends, given the bytes.
/// A group that does not begin and end where characters begin, in this
/// order, counts as one that took no part.
pub open spec fn in_chars(text: Seq<char>, group: Option<(usize, usize)>) -> Option<
    (usize, usize),
> {
    match group {
        Some(bytes) => match (char_index(text, bytes.0 as int), char_index(text, bytes.1 as int)) {
            (Some(from), Some(to)) if from <= to => Some((from, to)),
            _ => None,
        },
        None => None,
    }
}

/// The groups of the first match of `pattern` in `text` from the `from`th
/// character on, each by the characters at which it begins and ends.
pub open spec fn found_at(pattern: Seq<char>, text: Seq<char>, from: int) -> Option<
    Seq<Option<(usize, usize)>>,
> {
    if 0 <= from <= text.len() && byte_offset(text, from) <= usize::MAX {
        match search_groups(pattern, text, byte_offset(text, from) as usize) {
            Some(groups) => Some(Seq::new(groups.len(), |i: int| in_chars(text, groups[i]))),
            None => None,
        }
    } else {
        None
    }
}

fn group_in_chars(text: &str, group: Option<(usize, usize)>) -> (r: Option<(usize, usize)>)
    ensures
        r == in_chars(text@, group),
        r matches Some(span) ==> span.0 <= span.1 <= text@.len(),
{
    match group {
        Some(bytes) => match (char_position(text, bytes.0), char_position(text, bytes.1)) {
            (Some(from), Some(to)) => {
                if from <= to {
                    Some((from, to))
                } else {
                    None
                }
            },
            _ => None,
        },
        None => None,
    }
}

/// Whether every group of `groups` lies inside a text of `length`
/// characters.
pub open spec fn groups_fit(groups: Seq<Option<(usize, usize)>>, length: int) -> bool {
    forall|i: int|
        0 <= i < groups.len() ==> ((#[trigger] groups[i]) matches Some(span) ==> span.0 <= span.1
            <= length)
}

/// Finds the first match of `regex` in `text` from the `from`th character
/// on.
pub fn find_at(regex: &CompiledRegex, text: &str, from: usize) -> (found: Option<
    Vec<Option<(usize, usize)>>,
>)
    requires
        from <= text@.len(),
    ensures
        found.deep_view() == found_at(regex@, text@, from as int),
        found matches Some(groups) ==> groups_fit(groups@, text@.len() as int),
{
    let groups = regex.search(text, byte_position(text, from))?;
    let mut out: Vec<Option<(usize, usize)>> = Vec::new();
    let mut i: usize = 0;
    while i < groups.len()
        invariant
            i <= groups.len(),
            out.len() == i,
            forall|k: int| 0 <= k < i ==> #[trigger] out@[k] == in_chars(text@, groups@[k]),
            groups_fit(out@, text@.len() as int),
        decreases groups.len() - i,
    {
        out.push(group_in_chars(text, groups[i]));
        i += 1;
    }
    assert(Some(out).deep_view() =~= found_at(regex@, text@, from as int)) by {
        assert(groups.deep_view() =~= groups@);
        assert(out.deep_view() =~= out@);
        assert(out@ =~= Seq::new(groups@.len(), |i: int| in_chars(text@, groups@[i])));
    }
    Some(out)
}

/// The whole of a match that begins at the `from`th character or later.
pub open spec fn whole_match_span(groups: Seq<Option<(usize, usize)>>, from: int, length: int) -> Option<
    (usize, usize),
> {
    if groups.len() > 0 && groups[0] is Some && from <= groups[0]->Some_0.0 <= groups[0]->Some_0.1
        <= length {
        groups[0]
    } else {
        None
    }
}

/// The matches of `pattern` in `text` from the `from`th character on, one
/// after the other and none inside another; `last` is where the match before
/// ended. A match of no characters right behind the match before is passed
/// over. Each match is given by its groups, the whole match first.
pub open spec fn matches_from(pattern: Seq<char>, text: Seq<char>, from: int, last: Option<int>) -> Seq<
    Seq<Option<(usize, usize)>>,
>
    decreases 2 * (text.len() + 1 - from) + (if last == Some(from) {
        0int
    } else {
        1int
    }),
{
    if 0 <= from <= text.len() {
        match found_at(pattern, text, from) {
            None => seq![],
            Some(groups) => match whole_match_span(groups, from, text.len() as int) {
                None => seq![],
                Some(span) => if span.0 == span.1 && last == Some(span.1 as int) {
                    matches_from(pattern, text, from + 1, last)
                } else {
                    seq![groups] + matches_from(pattern, text, span.1 as int, Some(span.1 as int))
                },
            },
        }
    } else {
        seq![]
    }
}

/// All matches of `pattern` in `text`.
pub open spec fn all_matches(pattern: Seq<char>, text: Seq<char>) -> Seq<Seq<Option<(usize, usize)>>> {
    matches_from(pattern, text, 0, None)
}

/// Finds all matches of `regex` in `text`, one after the other and none
/// inside another.
pub fn find_all(regex: &CompiledRegex, text: &str) -> (found: Vec<Vec<Option<(usize, usize)>>>)
    ensures
        found.deep_view() == all_matches(regex@, text@),
        forall|i: int| 0 <= i < found.len() ==> groups_fit(#[trigger] found@[i]@, text@.len() as int),
{
    let n = text.unicode_len();
    let mut found: Vec<Vec<Option<(usize, usize)>>> = Vec::new();
    let mut from: usize = 0;
    let mut last: Option<usize> = None;
    let ghost all = all_matches(regex@, text@);
    assert(found.deep_view() + all =~= all);
    loop
        invariant
            n == text@.len(),
            from <= n,
            all == all_matches(regex@, text@),
            all == found.deep_view() + matches_from(
                regex@,
                text@,
                from as int,
                match last {
                    Some(l) => Some(l as int),
                    None => None,
                },
            ),
            forall|i: int|
                0 <= i < found.len() ==> groups_fit(#[trigger] found@[i]@, text@.len() as int),
        ensures
            all == found.deep_view(),
            forall|i: int|
                0 <= i < found.len() ==> groups_fit(#[trigger] found@[i]@, text@.len() as int),
        decreases
                2 * (n + 1 - from) + (if (match last {
                    Some(l) => Some(l as int),
                    None => None::<int>,
                }) == Some(from as int) {
                    0int
                } else {
                    1int
                }),
    {
        let ghost done = found.deep_view();
        let groups = match find_at(regex, text, from) {
            Some(groups) => groups,
            None => {
                assert(done + Seq::<Seq<Option<(usize, usize)>>>::empty() =~= done);
                break;
            },
        };
        assert(groups.deep_view() =~= groups@);
        let span = if groups.len() > 0 {
            match groups[0] {
                Some(span) => if from <= span.0 && span.0 <= span.1 && span.1 <= n {
                    Some(span)
                } else {
                    None
                },
                None => None,
            }
        } else {
            None
        };
        assert(span == whole_match_span(groups@, from as int, n as int));
        match span {
            None => {
                assert(done + Seq::<Seq<Option<(usize, usize)>>>::empty() =~= done);
                break;
            },
            Some(span) => {
                if span.0 == span.1 && last == Some(span.1) {
                    if from == n {
                        assert(matches_from(
                            regex@,
                            text@,
                            from + 1,
                            match last {
                                Some(l) => Some(l as int),
                                None => None,
                            },
                        ) =~= Seq::<Seq<Option<(usize, usize)>>>::empty());
                        assert(done + Seq::<Seq<Option<(usize, usize)>>>::empty() =~= done);
                        break;
                    }
                    from += 1;
                } else {
                    let ghost rest = matches_from(
                        regex@,
                        text@,
                        span.1 as int,
                        Some(span.1 as int),
                    );
                    push_view(&mut found, groups);
                    assert(done + (seq![groups@] + rest) =~= done.push(groups@) + rest);
                    from = span.1;
                    last = Some(span.1);
                }
            },
        }
    }
    found
}

/// `text` from the `cursor`th character on, with `replacement` in place of
/// each of `matches` that lies behind the cursor and behind the matches
/// before it.
pub open spec fn replaced_from(
    text: Seq<char>,
    matches: Seq<Seq<Option<(usize, usize)>>>,
    replacement: Seq<char>,
    cursor: int,
) -> Seq<char>
    decreases matches.len(),
{
    if matches.len() == 0 {
        text.skip(cursor)
    } else {
        match whole_match_span(matches[0], cursor, text.len() as int) {
            Some(span) => text.subrange(cursor, span.0 as int) + replacement + replaced_from(
                text,
                matches.drop_first(),
                replacement,
                span.1 as int,
            ),
            None => replaced_from(text, matches.drop_first(), replacement, cursor),
        }
    }
}

/// `text` with `replacement` in place of every match of `pattern`.
pub open spec fn replaced(pattern: Seq<char>, text: Seq<char>, replacement: Seq<char>) -> Seq<
    char,
> {
    replaced_from(text, all_matches(pattern, text), replacement, 0)
}

/// Puts `replacement` in place of every match of `regex` in `text`.
pub fn replace_all(regex: &CompiledRegex, text: &str, replacement: &str) -> (out: String)
    ensures
        out@ == replaced(regex@, text@, replacement@),
{
    let n = text.unicode_len();
    let matches = find_all(regex, text);
    let ghost all = matches.deep_view();
    let mut out = String::new();
    let mut cursor: usize = 0;
    let mut i: usize = 0;
    assert(all.skip(0) =~= all);
    assert(out@ + replaced_from(text@, all, replacement@, 0) =~= replaced_from(
        text@,
        all,
        replacement@,
        0,
    ));
    while i < matches.len()
        invariant
            i <= matches.len(),
            n == text@.len(),
            cursor <= n,
            all == matches.deep_view(),
            replaced_from(text@, all, replacement@, 0) == out@ + replaced_from(
                text@,
                all.skip(i as int),
                replacement@,
                cursor as int,
            ),
        decreases matches.len() - i,
    {
        let ghost done = out@;
        assert(all.skip(i as int).drop_first() =~= all.skip(i + 1));
        assert(all.skip(i as int)[0] == matches@[i as int].deep_view());
        assert(matches@[i as int].deep_view() =~= matches@[i as int]@);
        let groups = &matches[i];
        let span = if groups.len() > 0 {
            match groups[0] {
                Some(span) => if cursor <= span.0 && span.0 <= span.1 && span.1 <= n {
                    Some(span)
                } else {
                    None
                },
                None => None,
            }
        } else {
            None
        };
        assert(span == whole_match_span(groups@, cursor as int, n as int));
        match span {
            Some(span) => {
                let ghost rest = replaced_from(
                    text@,
                    all.skip(i + 1),
                    replacement@,
                    span.1 as int,
                );
                out = out.concat(text.substring_char(cursor, span.0)).concat(replacement);
                assert(done + (text@.subrange(cursor as int, span.0 as int) + replacement@ + rest)
                    =~= (done + text@.subrange(cursor as int, span.0 as int) + replacement@)
                    + rest);
                cursor = span.1;
            },
            None => {},
        }
        i += 1;
    }
    assert(text@.subrange(cursor as int, n as int) =~= text@.skip(cursor as int));
    out.concat(text.substring_char(cursor, n))
}

} // verus!
