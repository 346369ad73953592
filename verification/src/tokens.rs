//! Sentences as the tokenizer hands them over: tokens with their place in
//! the text and their candidate analyses.

use crate::disambiguation::{OwnedWordData, WordDataView};
use vstd::prelude::*;
use vstd::string::StrSliceExecFns;

verus! {

/// A token of a sentence.
#[derive(Debug)]
pub struct Token {
    pub text: String,
    /// Where the token stands in the text of the sentence, in characters:
    /// its start, and the place behind its end.
    pub char_span: (usize, usize),
    pub has_space_before: bool,
    pub chunks: Vec<String>,
    /// The candidate analyses of the token.
    pub tags: Vec<OwnedWordData>,
}

/// [`Token`] as a mathematical value.
pub struct TokenView {
    pub text: Seq<char>,
    pub char_span: (usize, usize),
    pub has_space_before: bool,
    pub chunks: Seq<Seq<char>>,
    pub tags: Seq<WordDataView>,
}

impl View for Token {
    type V = TokenView;

    open spec fn view(&self) -> TokenView {
        TokenView {
            text: self.text@,
            char_span: self.char_span,
            has_space_before: self.has_space_before,
            chunks: self.chunks.deep_view(),
            tags: self.tags.deep_view(),
        }
    }
}

impl DeepView for Token {
    type V = TokenView;

    open spec fn deep_view(&self) -> TokenView {
        self@
    }
}

/// Whether every token of `tokens` stands inside a text of `length`
/// characters.
pub open spec fn spans_fit(tokens: Seq<TokenView>, length: int) -> bool {
    forall|i: int|
        0 <= i < tokens.len() ==> 0 <= (#[trigger] tokens[i]).char_span.0 <= tokens[i].char_span.1
            <= length
}

/// A sentence: its text, and its tokens, each of which stands inside the
/// text.
pub struct Sentence {
    text: String,
    tokens: Vec<Token>,
}

/// [`Sentence`] as a mathematical value.
pub struct SentenceView {
    pub text: Seq<char>,
    pub tokens: Seq<TokenView>,
}

impl View for Sentence {
    type V = SentenceView;

    closed spec fn view(&self) -> SentenceView {
        SentenceView { text: self.text@, tokens: self.tokens.deep_view() }
    }
}

impl Sentence {
    #[verifier::type_invariant]
    spec fn well_formed(self) -> bool {
        spans_fit(self.tokens.deep_view(), self.text@.len() as int)
    }

    /// The sentence with this text and these tokens, if every token stands
    /// inside the text.
    pub fn new(text: String, tokens: Vec<Token>) -> (sentence: Option<Sentence>)
        ensures
            sentence is Some <==> spans_fit(tokens.deep_view(), text@.len() as int),
            sentence matches Some(s) ==> s@ == (SentenceView {
                text: text@,
                tokens: tokens.deep_view(),
            }),
    {
        let length = text.as_str().unicode_len();
        let mut i: usize = 0;
        while i < tokens.len()
            invariant
                i <= tokens.len(),
                length == text@.len(),
                spans_fit(tokens.deep_view().take(i as int), length as int),
            decreases tokens.len() - i,
        {
            assert(tokens.deep_view()[i as int] == tokens@[i as int]@);
            if !(tokens[i].char_span.0 <= tokens[i].char_span.1 && tokens[i].char_span.1
                <= length) {
                return None;
            }
            assert forall|k: int| 0 <= k < i + 1 implies 0 <= (#[trigger] tokens.deep_view().take(
                i + 1,
            )[k]).char_span.0 <= tokens.deep_view().take(i + 1)[k].char_span.1 <= length by {
                if k < i {
                    assert(tokens.deep_view().take(i as int)[k] == tokens.deep_view()[k]);
                }
            }
            i += 1;
        }
        assert(tokens.deep_view().take(tokens.len() as int) =~= tokens.deep_view());
        Some(Sentence { text, tokens })
    }

    /// The text of the sentence.
    pub fn text(&self) -> (text: &str)
        ensures
            text@ == self@.text,
    {
        self.text.as_str()
    }

    /// The tokens of the sentence.
    pub fn tokens(&self) -> (tokens: &Vec<Token>)
        ensures
            tokens.deep_view() == self@.tokens,
            spans_fit(self@.tokens, self@.text.len() as int),
    {
        proof {
            use_type_invariant(self);
        }
        &self.tokens
    }

    /// Takes the sentence apart again.
    pub fn into_parts(self) -> (parts: (String, Vec<Token>))
        ensures
            parts.0@ == self@.text,
            parts.1.deep_view() == self@.tokens,
    {
        (self.text, self.tokens)
    }
}

} // verus!
