//! Provisioning and lifecycle engine for standalone game-server processes.
//!
//! The crate resolves a requested software flavor, version and build against
//! remote distribution providers, plans artifact downloads, keeps a durable
//! registry of named server installations, and drives the supervision state
//! machine for a running server process.  All logic on plain values lives
//! here, verified; the surrounding binary performs the actual network, disk
//! and process work and feeds the results back in as plain values.

use vstd::prelude::*;

pub mod cli;
pub mod colors;
pub mod config;
pub mod config_cli;
pub mod document;
pub mod download;
pub mod error;
pub mod jars;
pub mod json;
pub mod server;
pub mod server_manipulator;
pub mod supervisor;
pub mod text;
pub mod theme;

verus! {

} // verus!
