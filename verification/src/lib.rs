//! A type-directed search engine over documented function signatures.

pub mod compare;
pub mod display;
pub mod index;
pub mod inspect;
pub mod parse;
pub mod pathtree;
pub mod query;
pub mod rank;
pub mod sample;
pub mod scope;
pub mod search;
pub mod store;
pub mod text;
pub mod types;
