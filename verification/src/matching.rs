//! Pattern matching: what the patterns of a match cover.

pub mod compile;
pub mod constructors;
pub mod first_match;
pub mod lower;
pub mod matrix;
