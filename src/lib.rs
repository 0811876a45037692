//! Verify-and-repair engine for a game installation, with the small pieces of
//! command-line plumbing (settings, configuration, message text) around it.

pub mod manifest;
pub mod partition;
pub mod text;
pub mod filter;
pub mod verify;
pub mod repair;
pub mod settings;
pub mod engine;
pub mod config;
pub mod output;
pub mod status;
pub mod patch_flow;
pub mod progress;

pub use manifest::IntegrityFile;
