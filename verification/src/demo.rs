//! Optional film and trace of a story.
//!
//! Ordinary acceptance stories remain the source of truth. Recording turns the
//! same causal event stream into an H.264 film and a JSONL execution trace
//! without granting any new product authority.
pub mod encoder;
pub mod paint;
pub mod recorder;
