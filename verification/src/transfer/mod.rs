//! The transfer primitives: what is sent to the store, in which order, and
//! what is undone when a transfer fails or is cancelled.

pub mod archive;
pub mod archive_layout;
pub mod client;
pub mod copy;
pub mod download;
pub mod errors;
pub mod listing;
pub mod plan;
pub mod upload;
pub mod upload_parts;
