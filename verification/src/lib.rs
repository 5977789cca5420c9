//! Byte-oriented framing for binary payloads on a serial line, together with
//! the logic of the small programs that ship alongside it.
//!
//! The [`codec`] module is the heart of the crate: an encoder that wraps a
//! payload into a delimited, checksummed frame and an incremental decoder that
//! rebuilds payloads from a fragmented byte stream.
//!
//! Beside it stand a mine-sweeping game ([`mines`]), what the game needs to
//! know of its terminal ([`term`]), the log entries of a product's events
//! ([`event`]), semantic version numbers ([`semver2`]), and numbers as
//! decimal text ([`text`]).

pub mod codec;
pub mod event;
pub mod mines;
pub mod semver2;
pub mod term;
pub mod text;
