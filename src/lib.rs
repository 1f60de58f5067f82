//! Levenshtein edit distance and partial (windowed) matching over the
//! characters of two strings.

pub mod chars;
pub mod levenshtein;
pub mod partial;
pub mod scores;
