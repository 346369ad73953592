//! Rules of grammar and style: patterns over tagged tokens, the compiler that
//! builds them from declarative rule definitions, and what becomes of a
//! match, a suggestion to the writer or a change to the analyses of tokens.

use vstd::prelude::*;

pub mod apply;
pub mod compile;
pub mod composition;
pub mod disambiguation;
pub mod engine;
pub mod error;
pub mod executor;
pub mod find;
pub mod grammar;
pub mod regex;
pub mod rule;
pub mod structure;
pub mod synthesis;
pub mod text;
pub mod tokens;
pub mod views;

pub use error::Error;
pub use rule::{DisambiguationRule, Rule};

verus! {

/// Upper bound on how often one part of a pattern may repeat within a sentence.
pub fn max_matches() -> (cap: usize)
    ensures
        cap == composition::MAX_MATCHES,
{
    composition::MAX_MATCHES
}

} // verus!
