//! English word phrases for non-negative integers.
//!
//! The library turns a number such as `10021` into its English phrase,
//! here "ten thousand twenty-one": the number is split into base-1000
//! triplets, each triplet is rendered as a phrase, a scale word
//! ("thousand", "million", ...) is attached by position, zero triplets are
//! elided, and the surviving parts are joined with single spaces.

pub mod lexicon;
pub mod number;
pub mod text;
pub mod triplet;

pub use number::{number_to_words, split_number_into_triplets};
pub use triplet::{convert_triplet_to_phrase, split_digits};
