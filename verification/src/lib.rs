//! Verified core of a board-support command-line helper.
//!
//! The library holds every decision the tool makes: extracting a
//! toolchain version token from free text, reconciling a required
//! version against the installed one, sequencing the
//! compile/convert/flash pipeline, building the exact command lines,
//! and merging the fixed configuration block into a project manifest.
//! The thin binary around it only performs the I/O these decisions ask
//! for.

pub mod command;
pub mod manifest;
pub mod pipeline;
pub mod text;
pub mod travis;
pub mod version;
