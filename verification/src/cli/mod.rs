//! What the command line is checked against.

pub mod validators;
