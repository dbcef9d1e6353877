//! A content-addressed version control core: object encoding, the staging
//! index, reference updates and repository paths, with machine-checked
//! contracts.

pub mod bytes;
pub mod cli;
pub mod commands;
pub mod compress;
pub mod config;
pub mod error;
pub mod hash;
pub mod index;
pub mod object;
pub mod options;
pub mod object_store;
pub mod path;
pub mod refs;
pub mod repo;
pub mod snapshot;
pub mod text;
