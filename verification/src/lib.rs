//! Self-learning correction of typos in dictated text, and the writing mode
//! of each application that text is dictated into.
//!
//! The engine in [`learning`] watches how a user edits transcribed text. It
//! aligns the words of the text with those of its edited form ([`align`]),
//! takes the pairs that look like a typo and its correction ([`detect`]), and
//! keeps those that were seen often enough in a cache. New text is rewritten
//! from the cache ([`rewrite`]), each replacement in the case of the word that
//! it replaces ([`case`]).

pub mod align;
pub mod cache;
pub mod case;
pub mod chars;
pub mod correction;
pub mod detect;
pub mod error;
pub mod learning;
pub mod modes;
pub mod rewrite;
pub mod similarity;
pub mod style;
pub mod table;
pub mod tokens;
