//! Sentence segmentation over Unicode text.
//!
//! The library splits a text into sentences on UAX#29 sentence boundaries,
//! in one of two modes: `Trimmed` keeps each sentence's content with the
//! surrounding whitespace folded out, while `RawBounds` keeps every
//! boundary-delimited run verbatim, so the pieces concatenate back to the
//! original text. A batch dispatcher segments many texts at once, choosing
//! between a serial pass and a parallel pass over balanced contiguous
//! chunks; either way the results come back in the batch's own order.

pub mod chunking;
pub mod config;
pub mod pickle;
pub mod segmentation;
