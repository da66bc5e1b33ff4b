//! Typed access layers for SQL queries, generated from a small declarative
//! language, and a cache of prepared statements for the network backend.

pub mod cache;
pub mod text;
pub mod rewrite;
pub mod model;
pub mod parse;
pub mod resolve;
pub mod generate;
pub mod compile;
