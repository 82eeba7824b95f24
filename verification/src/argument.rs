//! The older command-line surface: actions and arguments as plain
//! data, with the clean target choice.

use vstd::prelude::*;

verus! {

/// What a clean removes: the cache, the logs, or both.
#[derive(Debug, Clone, PartialEq, Eq, Structural)]
pub enum CleanTypeEnum {
    Cache,
    Log,
    All,
}

impl CleanTypeEnum {
    /// The display name of this choice.
    pub fn label(&self) -> (r: String)
        ensures
            *self is Cache ==> r@ == "cache"@,
            *self is Log ==> r@ == "log"@,
            *self is All ==> r@ == "all"@,
    {
        match self {
            CleanTypeEnum::Cache => String::from_str("cache"),
            CleanTypeEnum::Log => String::from_str("log"),
            CleanTypeEnum::All => String::from_str("all"),
        }
    }
}

/// List all projects, or one by name.
#[derive(Debug)]
pub struct TmsArgActionList {
    pub project: bool,
    pub item: Option<String>,
}

/// Clean one project or all, choosing what to remove.
#[derive(Debug)]
pub struct TmsArgActionClean {
    pub all_project: bool,
    pub project: Option<String>,
    pub target: CleanTypeEnum,
}

/// Run a project: all items or named ones, optionally under the
/// debugger or in a separate window.
#[derive(Debug)]
pub struct TmsArgActionRun {
    pub project: String,
    pub all_item: bool,
    pub item: Vec<String>,
    pub debug: bool,
    pub separate: bool,
}

/// What the user asked for.
#[derive(Debug)]
pub enum TmsAction {
    Run(TmsArgActionRun),
    Clean(TmsArgActionClean),
    List(TmsArgActionList),
}

/// The parsed invocation: one action.
#[derive(Debug)]
pub struct TmsArgument {
    pub action: TmsAction,
}

} // verus!
