//! Resolving starter identifiers into template files: identifier parsing,
//! the local template index, search over it, archive subdirectory selection
//! and the destination policy.

pub mod text;
pub mod error;
pub mod starter;
pub mod extract;
pub mod descriptor;
pub mod index;
pub mod search;
pub mod config;
pub mod resolve;
pub mod types;
pub mod files;
pub mod report;

pub use config::{Config, JumpStartInstance};
pub use starter::{LocalStarter, RemoteStarter};
