//! Counts source lines: classifies each line of a source file as blank,
//! comment or code, estimates how much code sits in `unsafe` scopes, and
//! aggregates the results per language.

pub mod cli;
pub mod comment;
pub mod config;
pub mod count;
pub mod decode;
pub mod error;
pub mod fmt;
pub mod fsutil;
pub mod language;
pub mod text;
pub mod worker;
