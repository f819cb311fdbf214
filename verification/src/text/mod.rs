//! Text helpers: characters, digits, words and integers in decimal notation.

pub mod digits;
pub mod parts;
pub mod sorted;
pub mod words;
