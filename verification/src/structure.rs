//! Rule definitions as their authors write them: elements with attributes,
//! every attribute still the text it was written as.

use vstd::prelude::*;
use vstd::string::StringExecFns;

verus! {

/// The attributes by which a token or an exception says what it matches.
#[derive(Debug)]
pub struct MatchAttributes {
    pub case_sensitive: Option<String>,
    pub inflected: Option<String>,
    pub regexp: Option<String>,
    pub postag_regexp: Option<String>,
    pub negate: Option<String>,
    pub negate_pos: Option<String>,
    pub postag: Option<String>,
    pub chunk: Option<String>,
    pub chunk_re: Option<String>,
    pub spacebefore: Option<String>,
}

impl MatchAttributes {
    /// No attribute set.
    pub open spec fn none() -> MatchAttributes {
        MatchAttributes {
            case_sensitive: None,
            inflected: None,
            regexp: None,
            postag_regexp: None,
            negate: None,
            negate_pos: None,
            postag: None,
            chunk: None,
            chunk_re: None,
            spacebefore: None,
        }
    }

    /// No attribute set.
    pub fn empty() -> (a: MatchAttributes)
        ensures
            a == MatchAttributes::none(),
    {
        MatchAttributes {
            case_sensitive: None,
            inflected: None,
            regexp: None,
            postag_regexp: None,
            negate: None,
            negate_pos: None,
            postag: None,
            chunk: None,
            chunk_re: None,
            spacebefore: None,
        }
    }
}

/// A case in which the token that holds it does not match after all.
#[derive(Debug)]
pub struct Exception {
    pub attributes: MatchAttributes,
    /// `previous`, `current` or `next`: the token that the exception tests.
    pub scope: Option<String>,
    pub text: Option<String>,
}

/// A reference from a token to what an earlier token matched.
#[derive(Debug)]
pub struct Sub {
    pub no: String,
}

#[derive(Debug)]
pub enum TokenPart {
    Text(String),
    Exception(Exception),
    Sub(Sub),
}

/// One token of a pattern.
#[derive(Debug)]
pub struct Token {
    pub attributes: MatchAttributes,
    pub min: Option<String>,
    pub max: Option<String>,
    pub skip: Option<String>,
    pub parts: Option<Vec<TokenPart>>,
}

impl Token {
    /// A token without attributes or content.
    pub fn empty() -> (t: Token)
        ensures
            t.attributes == MatchAttributes::none(),
            t.min is None,
            t.max is None,
            t.skip is None,
            t.parts is None,
    {
        Token { attributes: MatchAttributes::empty(), min: None, max: None, skip: None, parts: None }
    }
}

/// Tokens that are to hold of one and the same place.
#[derive(Debug)]
pub struct Tokens {
    pub tokens: Vec<Token>,
}

/// A feature on which the tokens of a `unify` block are to agree.
#[derive(Debug)]
pub struct Feature {
    pub id: String,
}

/// Tokens inside a `unify` block that take no part in the agreement.
#[derive(Debug)]
pub struct Ignore {
    pub tokens: Vec<TokenCombination>,
}

#[derive(Debug)]
pub enum UnifyTokenCombination {
    Token(Token),
    And(Tokens),
    Or(Tokens),
    Feature(Feature),
    Ignore(Ignore),
}

#[derive(Debug)]
pub struct Unify {
    pub tokens: Vec<UnifyTokenCombination>,
}

#[derive(Debug)]
pub enum TokenCombination {
    Token(Token),
    And(Tokens),
    Or(Tokens),
    Unify(Unify),
}

/// The tokens of a pattern that delimit what the rule is about.
#[derive(Debug)]
pub struct PatternMarker {
    pub tokens: Vec<TokenCombination>,
}

#[derive(Debug)]
pub enum PatternPart {
    Token(Token),
    Marker(PatternMarker),
    And(Tokens),
    Or(Tokens),
    Unify(Unify),
}

#[derive(Debug)]
pub struct Pattern {
    pub case_sensitive: Option<String>,
    pub parts: Vec<PatternPart>,
}

/// A rule on the text of a sentence, in place of a pattern on its tokens.
#[derive(Debug)]
pub struct Regexp {
    pub text: String,
    pub case_sensitive: Option<String>,
    pub mark: Option<String>,
}

/// A reference to what a part of the pattern matched, inside a suggestion
/// or a message.
#[derive(Debug)]
pub struct Match {
    pub no: String,
    pub postag: Option<String>,
    pub postag_regex: Option<String>,
    pub postag_replace: Option<String>,
    pub text: Option<String>,
    pub include_skipped: Option<String>,
    pub case_conversion: Option<String>,
    pub regexp_match: Option<String>,
    pub regexp_replace: Option<String>,
}

impl Match {
    /// A plain reference to part `no`.
    pub fn to(no: &str) -> (m: Match)
        ensures
            m.no@ == no@,
            m.postag is None,
            m.postag_regex is None,
            m.postag_replace is None,
            m.text is None,
            m.include_skipped is None,
            m.case_conversion is None,
            m.regexp_match is None,
            m.regexp_replace is None,
    {
        Match {
            no: String::from_str(no),
            postag: None,
            postag_regex: None,
            postag_replace: None,
            text: None,
            include_skipped: None,
            case_conversion: None,
            regexp_match: None,
            regexp_replace: None,
        }
    }
}

#[derive(Debug)]
pub enum SuggestionPart {
    Text(String),
    Match(Match),
}

#[derive(Debug)]
pub struct Suggestion {
    pub parts: Vec<SuggestionPart>,
}

#[derive(Debug)]
pub enum MessagePart {
    Suggestion(Suggestion),
    Text(String),
    Match(Match),
}

#[derive(Debug)]
pub struct Message {
    pub parts: Vec<MessagePart>,
}

/// The stretch of an example sentence that a rule is to find.
#[derive(Debug)]
pub struct ExampleMarker {
    pub text: String,
}

#[derive(Debug)]
pub enum ExamplePart {
    Marker(ExampleMarker),
    Text(String),
}

/// An example sentence of a rule, with the corrections expected for it.
#[derive(Debug)]
pub struct Example {
    pub kind: Option<String>,
    pub correction: Option<String>,
    pub parts: Vec<ExamplePart>,
}

/// A named filter from outside the pattern language, with its arguments.
#[derive(Debug)]
pub struct Filter {
    pub class: String,
    pub args: String,
}

/// The definition of a rule that finds errors and suggests corrections.
#[derive(Debug)]
pub struct Rule {
    pub pattern: Option<Pattern>,
    pub regex: Option<Regexp>,
    pub antipatterns: Option<Vec<Pattern>>,
    pub message: Message,
    pub filter: Option<Filter>,
    pub default: Option<String>,
    pub suggestions: Option<Vec<Suggestion>>,
    pub examples: Vec<Example>,
}

/// An analysis of a word, as a disambiguation names it.
#[derive(Debug)]
pub struct WordData {
    pub pos: String,
    pub lemma: Option<String>,
}

/// A filter on tags, as a disambiguation names it.
#[derive(Debug)]
pub struct DisambiguationMatch {
    pub postag: Option<String>,
    pub postag_regexp: Option<String>,
}

#[derive(Debug)]
pub enum DisambiguationPart {
    WordData(WordData),
    Match(DisambiguationMatch),
}

/// What a disambiguation rule does to the tokens it matches.
#[derive(Debug)]
pub struct Disambiguation {
    pub word_datas: Option<Vec<DisambiguationPart>>,
    pub postag: Option<String>,
    pub action: Option<String>,
}

/// An example sentence of a disambiguation rule.
#[derive(Debug)]
pub struct DisambiguationExample {
    pub kind: String,
    pub inputform: Option<String>,
    pub outputform: Option<String>,
    pub parts: Vec<ExamplePart>,
}

#[derive(Debug)]
pub struct EquivalenceToken {
    pub postag: String,
    pub postag_regexp: Option<String>,
}

/// One value that a feature can take.
#[derive(Debug)]
pub struct Equivalence {
    pub token: EquivalenceToken,
}

/// A feature with the values it can take.
#[derive(Debug)]
pub struct Unification {
    pub feature: String,
    pub equivalences: Vec<Equivalence>,
}

/// The definition of a rule that narrows down the analyses of tokens.
#[derive(Debug)]
pub struct DisambiguationRule {
    pub pattern: Pattern,
    pub antipatterns: Option<Vec<Pattern>>,
    pub disambig: Disambiguation,
    pub filter: Option<Filter>,
    pub examples: Option<Vec<DisambiguationExample>>,
    pub unifications: Option<Vec<Unification>>,
}

} // verus!
