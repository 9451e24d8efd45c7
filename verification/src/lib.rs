//! Low-level, failure-safe decoding primitives for DWARF debugging
//! information and ELF exception-handling unwind metadata.
//!
//! The crate turns untrusted byte buffers into typed primitive values:
//! fixed-width integers in either byte order, LEB128 variable-length
//! integers, null-terminated byte strings, the DWARF initial-length /
//! format-word disambiguation, and resolved `DW_EH_PE_*` encoded pointers.
//! Every decoder either returns the value together with the untouched
//! remainder of its input, or fails with a precise error kind; no decoder
//! panics or reads out of bounds.

pub mod cfi;
pub mod constants;
pub mod endianity;
pub mod leb128;
pub mod parser;
pub mod types;
