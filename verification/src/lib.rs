//! Transfer scheduling and folder synchronisation between a local directory
//! and S3-compatible object stores, with the rules proved by Verus.

pub mod blank;
pub mod clock;
pub mod config_paths;
pub mod glob;
pub mod ids;
pub mod jobs;
pub mod keys;
pub mod sync;
pub mod text;
pub mod transfer;
pub mod updater;
pub mod vault;
pub mod vault_file;
