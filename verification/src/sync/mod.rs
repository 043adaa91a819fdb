//! Folder synchronisation: the three-way comparison of local files, remote
//! objects and the baseline of the last pass, and the pass that applies it.

pub mod bucket;
pub mod diff;
pub mod pass;
pub mod records;
pub mod resolve;
pub mod runtime;
pub mod types;
