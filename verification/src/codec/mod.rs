//! Frame encoder and incremental frame decoder.
//!
//! On the wire a frame is `STX`, the escaped body, `ETX`, where the body is the
//! payload followed by its CRC-16/GENIBUS checksum, high byte first.

pub mod control;
pub mod checksum;
pub mod frame;
pub mod decoder;
pub mod encoder;
pub mod laws;
