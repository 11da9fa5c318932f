//! Validation of filesystem paths and selection of a directory's files by extension.
//!
//! The library decides; it does no I/O. A caller resolves a path to its canonical form,
//! asks the filesystem what lies there and lists a directory's entries, and hands those
//! facts to the functions here as plain values.
pub mod check_path;
pub mod seek_file;
