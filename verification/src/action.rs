//! Lookup of projects and items by name or alias, and the pure parts
//! of the list and clean actions: which rows a listing shows, and which
//! cache directories a clean removes. The unverified shell prints the
//! rows and removes the directories.

use vstd::prelude::*;

use crate::app_util::AppError;
use crate::domain::{ProjectConfig, ProjectItemConfig, TmsConfig};
use crate::os_utils::joined;
use crate::text::str_eq;

verus! {

/// `target_name` picks an entry named `name`, or its alias when one is
/// set.
pub open spec fn spec_filter_by_name(
    target_name: Seq<char>,
    name: Seq<char>,
    alias: Option<Seq<char>>,
) -> bool {
    target_name == name || (alias is Some && target_name == alias->0)
}

/// Whether `target_name` picks an entry named `name` with alias `alias`.
pub fn filter_by_name(target_name: &str, name: &str, alias: Option<&String>) -> (r: bool)
    ensures
        r == spec_filter_by_name(
            target_name@,
            name@,
            match alias {
                Some(a) => Some(a@),
                None => None,
            },
        ),
{
    if str_eq(target_name, name) {
        return true;
    }
    if let Some(alias) = alias {
        return str_eq(target_name, alias.as_str());
    }
    false
}

/// Alias view of a project.
pub open spec fn alias_view(alias: Option<String>) -> Option<Seq<char>> {
    match alias {
        Some(a) => Some(a@),
        None => None,
    }
}

/// Index of the first project that `name` picks, by name or alias.
pub open spec fn find_project(projects: Seq<ProjectConfig>, name: Seq<char>) -> Option<int>
    decreases projects.len(),
{
    if projects.len() == 0 {
        None
    } else if spec_filter_by_name(name, projects[0].name@, alias_view(projects[0].alias)) {
        Some(0)
    } else {
        match find_project(projects.drop_first(), name) {
            Some(i) => Some(i + 1),
            None => None,
        }
    }
}

/// The message `get_project` rejects an unknown project name with.
pub open spec fn project_not_found_msg(name: Seq<char>) -> Seq<char> {
    "Project '"@.add(name).add("' not found"@)
}

/// The first project `project_name` picks, by name or alias, or an
/// error naming the project when none matches.
pub fn get_project<'a>(config: &'a TmsConfig, project_name: &str) -> (r: Result<
    &'a ProjectConfig,
    AppError,
>)
    ensures
        match r {
            Ok(p) => {
                &&& find_project(config.projects@, project_name@) is Some
                &&& *p == config.projects@[find_project(config.projects@, project_name@)->0]
            },
            Err(e) => {
                &&& find_project(config.projects@, project_name@) is None
                &&& e is Action
                &&& e->Action_0@ == project_not_found_msg(project_name@)
            },
        },
{
    let n = config.projects.len();
    let mut i: usize = 0;
    proof {
        assert(config.projects@.skip(0) =~= config.projects@);
    }
    while i < n
        invariant
            0 <= i <= n,
            n == config.projects@.len(),
            ({
                let rest = find_project(config.projects@.skip(i as int), project_name@);
                match find_project(config.projects@, project_name@) {
                    Some(j) => rest == Some(j - i),
                    None => rest is None,
                }
            }),
        decreases n - i,
    {
        let p = &config.projects[i];
        proof {
            assert(config.projects@.skip(i as int)[0] == config.projects@[i as int]);
            assert(config.projects@.skip(i as int).drop_first() =~= config.projects@.skip(
                i as int + 1,
            ));
        }
        if filter_by_name(project_name, p.name.as_str(), p.alias.as_ref()) {
            return Ok(p);
        }
        i = i + 1;
    }
    Err(
        AppError::Action(
            String::from_str("Project '").concat(project_name).concat("' not found"),
        ),
    )
}

/// Index of the first item that `name` picks, by name or alias.
pub open spec fn find_item(items: Seq<ProjectItemConfig>, name: Seq<char>) -> Option<int>
    decreases items.len(),
{
    if items.len() == 0 {
        None
    } else if spec_filter_by_name(name, items[0].name@, alias_view(items[0].alias)) {
        Some(0)
    } else {
        match find_item(items.drop_first(), name) {
            Some(i) => Some(i + 1),
            None => None,
        }
    }
}

/// The message `get_project_item` rejects an unknown item name with.
pub open spec fn item_not_found_msg(item: Seq<char>, project: Seq<char>) -> Seq<char> {
    "Item '"@.add(item).add("' of project '"@).add(project).add("' not found"@)
}

/// The first item of `config` that `item_name` picks, by name or alias,
/// or an error naming the item and the project when none matches.
pub fn get_project_item<'a>(config: &'a ProjectConfig, item_name: &str) -> (r: Result<
    &'a ProjectItemConfig,
    AppError,
>)
    ensures
        match r {
            Ok(p) => {
                &&& find_item(config.items@, item_name@) is Some
                &&& *p == config.items@[find_item(config.items@, item_name@)->0]
            },
            Err(e) => {
                &&& find_item(config.items@, item_name@) is None
                &&& e is Action
                &&& e->Action_0@ == item_not_found_msg(item_name@, config.name@)
            },
        },
{
    let n = config.items.len();
    let mut i: usize = 0;
    proof {
        assert(config.items@.skip(0) =~= config.items@);
    }
    while i < n
        invariant
            0 <= i <= n,
            n == config.items@.len(),
            ({
                let rest = find_item(config.items@.skip(i as int), item_name@);
                match find_item(config.items@, item_name@) {
                    Some(j) => rest == Some(j - i),
                    None => rest is None,
                }
            }),
        decreases n - i,
    {
        let p = &config.items[i];
        proof {
            assert(config.items@.skip(i as int)[0] == config.items@[i as int]);
            assert(config.items@.skip(i as int).drop_first() =~= config.items@.skip(i as int + 1));
        }
        if filter_by_name(item_name, p.name.as_str(), p.alias.as_ref()) {
            return Ok(p);
        }
        i = i + 1;
    }
    Err(
        AppError::Action(
            String::from_str("Item '").concat(item_name).concat("' of project '").concat(
                config.name.as_str(),
            ).concat("' not found"),
        ),
    )
}

/// The text shown for an optional column: the value, or nothing.
pub open spec fn opt_col(v: Option<String>) -> Seq<char> {
    match v {
        Some(s) => s@,
        None => Seq::empty(),
    }
}

/// One row per project: name, alias and description, absent values
/// shown empty. The shell draws the table.
pub fn project_rows(config: &TmsConfig) -> (r: Vec<(String, String, String)>)
    ensures
        r@.len() == config.projects@.len(),
        forall|i: int|
            0 <= i < r@.len() ==> {
                &&& (#[trigger] r@[i]).0@ == config.projects@[i].name@
                &&& r@[i].1@ == opt_col(config.projects@[i].alias)
                &&& r@[i].2@ == opt_col(config.projects@[i].description)
            },
{
    let mut rows: Vec<(String, String, String)> = Vec::new();
    let n = config.projects.len();
    let mut i: usize = 0;
    while i < n
        invariant
            0 <= i <= n,
            n == config.projects@.len(),
            rows@.len() == i,
            forall|k: int|
                0 <= k < i ==> {
                    &&& (#[trigger] rows@[k]).0@ == config.projects@[k].name@
                    &&& rows@[k].1@ == opt_col(config.projects@[k].alias)
                    &&& rows@[k].2@ == opt_col(config.projects@[k].description)
                },
        decreases n - i,
    {
        let p = &config.projects[i];
        let alias = match &p.alias {
            Some(a) => a.clone(),
            None => String::new(),
        };
        let description = match &p.description {
            Some(d) => d.clone(),
            None => String::new(),
        };
        rows.push((p.name.clone(), alias, description));
        i = i + 1;
    }
    rows
}

/// One row per item of the project: project name, item name, alias and
/// context path, absent values shown empty. The shell draws the table.
pub fn project_item_rows(project: &ProjectConfig) -> (r: Vec<(String, String, String, String)>)
    ensures
        r@.len() == project.items@.len(),
        forall|i: int|
            0 <= i < r@.len() ==> {
                &&& (#[trigger] r@[i]).0@ == project.name@
                &&& r@[i].1@ == project.items@[i].name@
                &&& r@[i].2@ == opt_col(project.items@[i].alias)
                &&& r@[i].3@ == project.items@[i].context_path@
            },
{
    let mut rows: Vec<(String, String, String, String)> = Vec::new();
    let n = project.items.len();
    let mut i: usize = 0;
    while i < n
        invariant
            0 <= i <= n,
            n == project.items@.len(),
            rows@.len() == i,
            forall|k: int|
                0 <= k < i ==> {
                    &&& (#[trigger] rows@[k]).0@ == project.name@
                    &&& rows@[k].1@ == project.items@[k].name@
                    &&& rows@[k].2@ == opt_col(project.items@[k].alias)
                    &&& rows@[k].3@ == project.items@[k].context_path@
                },
        decreases n - i,
    {
        let item = &project.items[i];
        let alias = match &item.alias {
            Some(a) => a.clone(),
            None => String::new(),
        };
        rows.push((project.name.clone(), item.name.clone(), alias, item.context_path.clone()));
        i = i + 1;
    }
    rows
}

/// Cache directory of one project under the cache folder.
pub open spec fn project_cache_dir(
    cache_dir: Seq<char>,
    project: Seq<char>,
    windows: bool,
) -> Seq<char> {
    joined(cache_dir, project, windows)
}

/// The cache directories of all projects, in order: what a full clean
/// removes. The shell performs the removal.
pub fn clean_all_projects(config: &TmsConfig, cache_dir: &str, windows: bool) -> (r: Vec<String>)
    ensures
        r@.len() == config.projects@.len(),
        forall|i: int|
            0 <= i < r@.len() ==> (#[trigger] r@[i])@ == project_cache_dir(
                cache_dir@,
                config.projects@[i].name@,
                windows,
            ),
{
    let mut dirs: Vec<String> = Vec::new();
    let n = config.projects.len();
    let mut i: usize = 0;
    while i < n
        invariant
            0 <= i <= n,
            n == config.projects@.len(),
            dirs@.len() == i,
            forall|k: int|
                0 <= k < i ==> (#[trigger] dirs@[k])@ == project_cache_dir(
                    cache_dir@,
                    config.projects@[k].name@,
                    windows,
                ),
        decreases n - i,
    {
        let p = &config.projects[i];
        dirs.push(crate::os_utils::join_path(cache_dir, p.name.as_str(), windows));
        i = i + 1;
    }
    dirs
}

/// The cache directory of the named project: what a single-project
/// clean removes, or the lookup error when the name matches nothing.
/// The shell performs the removal.
pub fn clean_project(config: &TmsConfig, cache_dir: &str, windows: bool, project_name: &str) -> (r:
    Result<String, AppError>)
    ensures
        match r {
            Ok(d) => {
                &&& find_project(config.projects@, project_name@) is Some
                &&& d@ == project_cache_dir(
                    cache_dir@,
                    config.projects@[find_project(config.projects@, project_name@)->0].name@,
                    windows,
                )
            },
            Err(e) => {
                &&& find_project(config.projects@, project_name@) is None
                &&& e is Action
                &&& e->Action_0@ == project_not_found_msg(project_name@)
            },
        },
{
    match get_project(config, project_name) {
        Ok(project) => Ok(
            crate::os_utils::join_path(cache_dir, project.name.as_str(), windows),
        ),
        Err(e) => Err(e),
    }
}

} // verus!
