//! A build-time document-transformation stage for PlantUML diagrams.
//!
//! The library finds fenced code blocks tagged with the renderable marker
//! inside a linear token stream, replaces each such span with an image
//! reference pointing at a content-addressed artifact, and hands the host
//! program a list of render requests so that an external renderer is only
//! invoked for diagrams whose artifact does not exist yet.

pub mod cache;
pub mod fingerprint;
pub mod laws;
pub mod matcher;
pub mod pipeline;
pub mod rewriter;
pub mod token;
