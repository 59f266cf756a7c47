//! Intermediate representation of a query-language compiler: a recursive
//! tagged tree of query syntax, coercion helpers that normalize the
//! "scalar vs one-element container" ambiguity, a generic pre-order fold
//! over the tree, and the unnest pass that collapses redundant singleton
//! `Terms` wrappers.

pub mod ast;
pub mod error;
pub mod fold;
pub mod model;
