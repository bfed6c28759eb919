//! A queue-churn micro-benchmark library.
//!
//! The library parses two integer command-line options (an iteration count
//! and a buffer size), pre-fills a first-in-first-out queue with that many
//! freshly allocated requests, and then repeatedly removes the oldest entry
//! while appending a new one.  Every step of that behaviour is stated as a
//! contract and proved.

pub mod bench;
pub mod cli;
pub mod numparse;
pub mod request;
