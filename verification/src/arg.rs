//! The command-line surface of the tool: the actions and their
//! arguments, as plain data. The shell's argument parser fills its own
//! copies of these and converts.

use vstd::prelude::*;

verus! {

/// The parsed invocation: one action.
#[derive(Debug)]
pub struct Argument {
    pub action: Action,
}

/// What the user asked for.
#[derive(Debug)]
pub enum Action {
    Run(ActionRun),
    Clean(ActionClean),
    List(ActionList),
    Config,
    Version,
}

/// List projects, or one project's items.
#[derive(Debug)]
pub struct ActionList {
    pub project: Option<String>,
}

/// Clear one project's cache and logs, or all of them.
#[derive(Debug)]
pub struct ActionClean {
    pub project: Option<String>,
    pub all: bool,
}

/// Run a project's items, optionally under the debugger, with optional
/// port overrides.
#[derive(Debug)]
pub struct ActionRun {
    pub project: String,
    pub all_items: bool,
    pub items: Vec<String>,
    pub debug: bool,
    pub http_port: Option<u32>,
    pub server_port: Option<u32>,
    pub jpda_port: Option<u32>,
}

/// Print the example configuration.
#[derive(Debug)]
pub struct ActionConfig {
    pub example: bool,
}

} // verus!
