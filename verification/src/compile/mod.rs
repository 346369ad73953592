//! The compiler from rule definitions to rules.

pub mod attributes;
pub mod disambiguate;
pub mod pattern;
pub mod rule;
pub mod suggest;
pub mod token;
pub mod unify;
