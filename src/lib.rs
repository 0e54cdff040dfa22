//! Text extraction from uploaded documents (PDF, EPUB, plain text) and the
//! request shaping and reply reading of text-generation services that write
//! and grade comprehension questions, with the small pieces of logic around
//! them: query text, text layout, settings, request checks, learning
//! statistics and a time-to-live cache.

pub mod ai;
pub mod cache;
pub mod config;
pub mod json;
pub mod markup;
pub mod models;
pub mod numeric;
pub mod optimizations;
pub mod parsers;
pub mod progress;
pub mod text;
pub mod workflow;
