//! Queries, send loops, date types and model assembly for ArangoDB documents.

pub mod aql;
pub mod collection;
pub mod dates;
pub mod json;
pub mod laws;
pub mod model;
pub mod send;
pub mod text;
pub mod update;
