//! The command surface: what a caller can ask for, as plain data, and the
//! checks the interactive wizard applies before it provisions anything.
//! Parsing the command line into these values is the binary's job.

use vstd::prelude::*;

use crate::config::Config;
use crate::config_cli::ConfigAction;
use crate::config::spec_get;

verus! {

/// The parsed command line: one command, and the verbosity switch.
#[derive(Debug)]
pub struct Args {
    pub dj: DJ,
    pub verbose: bool,
}

/// The top-level commands.
#[derive(Debug)]
pub enum DJ {
    /// Provision a server with everything given up front; an unspecified
    /// build resolves to the newest.
    Create { name: String, jar: String, location: String, version: String, build: Option<String> },
    /// Start an existing server by name.
    Start { name: String },
    /// Registry commands.
    Config { action: ConfigAction },
    /// Server commands.
    Server { action: ServerAction },
    /// Theme commands.
    Theme { action: ThemeAction },
}

/// The server subcommands.
#[derive(Debug)]
pub enum ServerAction {
    /// List every known server.
    List,
    /// Provision a server through the interactive wizard.
    Generate,
    /// Show one server's record.
    Info { name: String },
    /// Start one server.
    Start { name: String },
    /// Delete one server's installation from disk.
    Delete { name: String },
    /// Import an existing installation by its location.
    Add { location: String },
    /// Plugin commands for one server.
    Plugins { action: ServerPluginAction },
    /// Drop one server from the registry, leaving its files alone.
    Remove { name: String },
}

/// The plugin subcommands.
#[derive(Debug)]
pub enum ServerPluginAction {
    List { name: String },
    Add { name: String, plugin: String },
    Remove { name: String, plugin: String },
}

/// The theme subcommands.
#[derive(Debug)]
pub enum ThemeAction {
    List,
    Create,
    Delete,
    Info { name: String },
}

/// A name the wizard accepts for a new server: between one and one hundred
/// characters, and not yet answering to any registered server.
pub fn valid_server_name(config: &Config, name: &str) -> (r: bool)
    ensures
        r == (1 <= name@.len() <= 100 && spec_get(config.entries(), name@) is None),
{
    let n = name.unicode_len();
    if n < 1 || n > 100 {
        return false;
    }
    match config.get_server(name) {
        Some(_) => false,
        None => true,
    }
}

} // verus!
