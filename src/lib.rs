//! Native-side commands of a small desktop application: a greeting
//! formatter, the pure part of a file reader, and the registry that
//! resolves command names sent by the user interface.

pub mod file_reader;
pub mod greeting;
pub mod registry;
