//! Making text from a template and a match.

use crate::find::{replace_all, replaced};
use crate::grammar::{
    Conversion,
    Match,
    MatchView,
    Synthesizer,
    SynthesizerPart,
    SynthesizerPartView,
    SynthesizerView,
};
use crate::text::{
    capitalize,
    capitalized,
    char_is_uppercase,
    is_uppercase,
    lowercase_of,
    to_lowercase,
    to_uppercase_text,
    uncapitalize,
    uncapitalized,
    uppercase_of,
    uppercase_text,
};
use vstd::prelude::*;
use vstd::string::StrSliceExecFns;
use vstd::string::StringExecFns;

verus! {

/// The characters of `text` that `span` covers, from its first place up to
/// its second: none for no span and for a span that does not lie in the
/// text.
pub open spec fn span_text(text: Seq<char>, span: Option<(usize, usize)>) -> Seq<char> {
    match span {
        Some(span) if span.0 <= span.1 <= text.len() => text.subrange(
            span.0 as int,
            span.1 as int,
        ),
        _ => seq![],
    }
}

/// The span that a reference to the part `id` stands for, where `groups`
/// holds the span of every id and `marked` is the span that the rule marks.
/// The id zero stands for the marked span; an id that the match does not
/// have stands for nothing.
pub open spec fn referred_span(
    groups: Seq<Option<(usize, usize)>>,
    marked: Option<(usize, usize)>,
    id: nat,
) -> Option<Option<(usize, usize)>> {
    if id == 0 {
        Some(marked)
    } else if id < groups.len() {
        Some(groups[id as int])
    } else {
        None
    }
}

/// `text` after the change of case `conversion`.
pub open spec fn converted(text: Seq<char>, conversion: Conversion) -> Seq<char> {
    match conversion {
        Conversion::Nop => text,
        Conversion::AllLower => lowercase_of(text),
        Conversion::StartLower => uncapitalized(text),
        Conversion::StartUpper => capitalized(text),
        Conversion::AllUpper => uppercase_text(text),
    }
}

/// `text` with a capital first letter where `matched` begins with one.
pub open spec fn title_case_adjusted(matched: Seq<char>, text: Seq<char>) -> Seq<char> {
    if matched.len() > 0 && char_is_uppercase(matched[0]) {
        capitalized(text)
    } else {
        text
    }
}

/// The text is given a capital exactly where the matched text begins with
/// one.
/// Doing so a second time changes nothing more, as long as the upper-case
/// form of the first character begins with a character that is its own
/// upper-case form.
pub proof fn lemma_title_case(matched: Seq<char>, text: Seq<char>)
    ensures
        matched.len() > 0 && char_is_uppercase(matched[0]) ==> title_case_adjusted(
            matched,
            text,
        ) == capitalized(text),
        !(matched.len() > 0 && char_is_uppercase(matched[0])) ==> title_case_adjusted(
            matched,
            text,
        ) == text,
        text.len() > 0 && uppercase_of(text[0]).len() > 0 && uppercase_of(
            uppercase_of(text[0])[0],
        ) == seq![uppercase_of(text[0])[0]] ==> title_case_adjusted(
            matched,
            title_case_adjusted(matched, text),
        ) == title_case_adjusted(matched, text),
        text.len() == 0 ==> title_case_adjusted(matched, title_case_adjusted(matched, text))
            == title_case_adjusted(matched, text),
{
    if text.len() > 0 && uppercase_of(text[0]).len() > 0 && uppercase_of(uppercase_of(text[0])[0])
        == seq![uppercase_of(text[0])[0]] {
        let once = capitalized(text);
        let upper = uppercase_of(text[0]);
        assert(once[0] == upper[0]);
        assert(once.drop_first() =~= upper.drop_first() + text.drop_first());
        assert(capitalized(once) =~= once);
    }
}

impl MatchView {
    /// The text that the reference resolves to: the text of its span, with
    /// its replacement made and its case changed, in this order. It
    /// resolves to nothing where the match does not have its id, and where
    /// it asks for another form of the word, which cannot be made without a
    /// dictionary.
    pub open spec fn resolved(
        self,
        text: Seq<char>,
        groups: Seq<Option<(usize, usize)>>,
        marked: Option<(usize, usize)>,
    ) -> Option<Seq<char>> {
        match referred_span(groups, marked, self.id) {
            None => None,
            Some(span) => if self.pos_replacer is Some {
                None
            } else {
                let found = span_text(text, span);
                let replaced = match self.regex_replacer {
                    Some(pair) => replaced(pair.0, found, pair.1),
                    None => found,
                };
                Some(converted(replaced, self.conversion))
            },
        }
    }
}

/// The text that the pieces `parts` come to, one after the other: nothing
/// where one of them resolves to nothing.
pub open spec fn filled(
    parts: Seq<SynthesizerPartView>,
    text: Seq<char>,
    groups: Seq<Option<(usize, usize)>>,
    marked: Option<(usize, usize)>,
) -> Option<Seq<char>>
    decreases parts.len(),
{
    if parts.len() == 0 {
        Some(seq![])
    } else {
        let first = match parts[0] {
            SynthesizerPartView::Text(piece) => Some(piece),
            SynthesizerPartView::Match(m) => m.resolved(text, groups, marked),
        };
        match (first, filled(parts.drop_first(), text, groups, marked)) {
            (Some(a), Some(b)) => Some(a + b),
            _ => None,
        }
    }
}

impl SynthesizerView {
    /// The text that the template comes to for a match in `text`: its
    /// pieces joined, with a capital first letter where the template
    /// adjusts to the matched text and the marked span begins with a
    /// capital.
    pub open spec fn applied(
        self,
        text: Seq<char>,
        groups: Seq<Option<(usize, usize)>>,
        marked: Option<(usize, usize)>,
    ) -> Option<Seq<char>> {
        match filled(self.parts, text, groups, marked) {
            None => None,
            Some(made) => if self.use_titlecase_adjust {
                Some(title_case_adjusted(span_text(text, marked), made))
            } else {
                Some(made)
            },
        }
    }
}

/// The characters of `text` that `span` covers.
pub fn text_of_span<'a>(text: &'a str, span: Option<(usize, usize)>) -> (found: &'a str)
    ensures
        found@ == span_text(text@, span),
{
    match span {
        Some(span) => {
            if span.0 <= span.1 && span.1 <= text.unicode_len() {
                return text.substring_char(span.0, span.1);
            }
        },
        None => {},
    }
    proof {
        reveal_strlit("");
    }
    assert(""@ =~= Seq::<char>::empty());
    ""
}

/// Changes the case of `text`.
pub fn convert(text: &str, conversion: Conversion) -> (out: String)
    ensures
        out@ == converted(text@, conversion),
{
    match conversion {
        Conversion::Nop => String::from_str(text),
        Conversion::AllLower => to_lowercase(text),
        Conversion::StartLower => uncapitalize(text),
        Conversion::StartUpper => capitalize(text),
        Conversion::AllUpper => to_uppercase_text(text),
    }
}

/// Gives `text` a capital first letter where `matched` begins with one.
pub fn title_case_adjust(matched: &str, text: String) -> (out: String)
    ensures
        out@ == title_case_adjusted(matched@, text@),
{
    if matched.unicode_len() > 0 && is_uppercase(matched.get_char(0)) {
        capitalize(text.as_str())
    } else {
        text
    }
}

impl Match {
    /// The text that the reference resolves to for a match in `text`, of
    /// which `groups` holds the span of every id and `marked` is the span
    /// that the rule marks.
    pub fn apply(
        &self,
        text: &str,
        groups: &Vec<Option<(usize, usize)>>,
        marked: Option<(usize, usize)>,
    ) -> (made: Option<String>)
        ensures
            made.deep_view() == self@.resolved(text@, groups@, marked),
    {
        let span = if self.id == 0 {
            marked
        } else if self.id < groups.len() {
            groups[self.id]
        } else {
            return None;
        };
        if self.pos_replacer.is_some() {
            return None;
        }
        let found = text_of_span(text, span);
        match &self.regex_replacer {
            Some((regex, replacement)) => {
                let replaced = replace_all(regex, found, replacement.as_str());
                Some(convert(replaced.as_str(), self.conversion))
            },
            None => Some(convert(found, self.conversion)),
        }
    }
}

impl Synthesizer {
    /// The text that the template comes to for a match in `text`.
    pub fn apply(
        &self,
        text: &str,
        groups: &Vec<Option<(usize, usize)>>,
        marked: Option<(usize, usize)>,
    ) -> (made: Option<String>)
        ensures
            made.deep_view() == self@.applied(text@, groups@, marked),
    {
        let mut made = String::new();
        let mut i: usize = 0;
        let ghost parts = self.parts.deep_view();
        assert(parts.skip(0) =~= parts);
        while i < self.parts.len()
            invariant
                i <= self.parts.len(),
                parts == self.parts.deep_view(),
                filled(parts, text@, groups@, marked) == match filled(
                    parts.skip(i as int),
                    text@,
                    groups@,
                    marked,
                ) {
                    Some(rest) => Some(made@ + rest),
                    None => None,
                },
            decreases self.parts.len() - i,
        {
            let ghost done = made@;
            let ghost rest = filled(parts.skip(i + 1), text@, groups@, marked);
            assert(parts.skip(i as int).drop_first() =~= parts.skip(i + 1));
            assert(parts.skip(i as int)[0] == self.parts@[i as int]@);
            match &self.parts[i] {
                SynthesizerPart::Text(piece) => {
                    made = made.concat(piece.as_str());
                    proof {
                        if rest is Some {
                            assert(done + (piece@ + rest->Some_0) =~= (done + piece@)
                                + rest->Some_0);
                        }
                    }
                },
                SynthesizerPart::Match(m) => {
                    match m.apply(text, groups, marked) {
                        Some(piece) => {
                            made = made.concat(piece.as_str());
                            proof {
                                if rest is Some {
                                    assert(done + (piece@ + rest->Some_0) =~= (done + piece@)
                                        + rest->Some_0);
                                }
                            }
                        },
                        None => {
                            return None;
                        },
                    }
                },
            }
            i += 1;
        }
        assert(made@ + Seq::<char>::empty() =~= made@);
        if self.use_titlecase_adjust {
            Some(title_case_adjust(text_of_span(text, marked), made))
        } else {
            Some(made)
        }
    }
}

} // verus!
