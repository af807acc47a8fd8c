//! Salvages the readable prefix of a truncated, single-entry compressed
//! telemetry capture: parses the entry header in front of the payload,
//! decompresses as much of the payload as the stream allows, keeps every
//! newline-terminated record, and repacks those records into a fresh,
//! fully valid archive.

pub mod archive;
pub mod cursor;
pub mod error;
pub mod header;
pub mod inflate;
pub mod lines;
pub mod salvage;
