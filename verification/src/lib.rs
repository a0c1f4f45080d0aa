//! Path-indexed metadata cache for a personal media server.
//!
//! The crate keeps an in-memory map from album/file paths to metadata
//! entries, persists dirty entries to a durable row store by write-back,
//! and decides, for every path, whether a caller may read or administer
//! it by walking the directory ancestry.

pub mod albums;
pub mod assoc;
pub mod auth;
pub mod cache;
pub mod digest;
pub mod entry;
pub mod errors;
pub mod files;
pub mod images;
pub mod laws;
pub mod paths;
pub mod session;
pub mod store;
