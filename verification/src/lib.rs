//! Similarity scoring for short Korean strings, tolerant of
//! consonant-confusion typing errors.
//!
//! The crate offers a character-level Levenshtein distance and a
//! Korean-specific scorer that decomposes each syllable block into jamo,
//! collapses confusable consonants to a canonical representative, and
//! aggregates per-syllable edit distances into the two integer parts
//! (numerator and denominator) of a normalized similarity score.

pub mod distance;
pub mod jamo;
pub mod score;

pub use distance::levenshtein_distance;
pub use distance::levenshtein_distance_chars;
pub use jamo::normalize;
pub use score::k_edit_distance_parts;
