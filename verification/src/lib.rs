//! Parsing of logcat-style device log lines into structured records, their
//! classification by display surface, and the chunked, cancellable processing
//! of large logs.
//!
//! - [`pattern`]: the compiled patterns and the contracts on the `regex` crate
//! - [`text`]: whitespace, trimming, words, substrings, lowercase
//! - [`display`]: the display classifier
//! - [`record`]: the record a line is parsed into
//! - [`parser`]: the line parser and the batch parser
//! - [`counter`]: the line counter
//! - [`stream`]: the streaming processor as a state machine
//!
//! Nothing here reads a file or calls a consumer: callers hand in bytes and
//! lines and act on what comes back.

pub mod counter;
pub mod display;
pub mod parser;
pub mod pattern;
pub mod record;
pub mod stream;
pub mod text;
