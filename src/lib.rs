//! Word filtering for Wordle-style puzzles: a candidate list of words is
//! narrowed, one constraint at a time, by letter-position, letter-membership
//! and wildcard-pattern rules.
pub mod text;
pub mod filters;
pub mod session;
pub mod lemmas;
pub mod source;
pub mod store;
