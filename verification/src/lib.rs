//! Packages files or directory trees into layered, optionally AES-encrypted
//! ZIP archives and renders them as self-contained HTML documents with the
//! payload embedded as base64.
//!
//! The library holds the whole archive-construction pipeline: file selection
//! (wildcard include/exclude patterns and a size cap), the archive encoder,
//! the layering orchestrator, and the password policy.  Callers are expected
//! to do the walking, reading and writing of real files and hand plain values
//! in and out.

pub mod archive;
pub mod config;
pub mod convert;
pub mod html;
pub mod password;
pub mod patterns;
pub mod select;
pub mod text;
