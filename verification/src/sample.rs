//! A small crate of everyday code: a graph, a sort, a shop's users and
//! orders, a bounded vector and a few helpers for numbers and words. It is
//! what the search is tried on.

pub mod bounded;
pub mod error;
pub mod graph;
pub mod math;
pub mod order;
pub mod sort;
pub mod status;
pub mod user;
pub mod words;
