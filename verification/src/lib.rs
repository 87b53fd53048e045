//! Classifies files as binary or text, infers the byte encoding of legacy
//! text (Shift_JIS, EUC-JP, ISO-2022-JP, windows-1252, UTF-16) and rewrites
//! it as UTF-8 with a leading byte-order mark.
//!
//! Every function here is pure: callers read files, hand the bytes in, and
//! persist what comes back.

pub mod batch;
pub mod bom;
pub mod candidate;
pub mod classifier;
pub mod config;
pub mod convert;
pub mod decoder;
pub mod encoder;
pub mod error;
pub mod launcher;
pub mod pipeline;
pub mod preview;
pub mod score;
pub mod scorer;
pub mod text;
pub mod utf8;
