//! The run action's decisions: which project runs, which of its items
//! run, and how the project's runtime overrides merge with the
//! tool-wide defaults. Process launching stays with the shell.

use vstd::prelude::*;

use crate::app_util::AppError;
use crate::argument::TmsArgActionRun;
use crate::configuration::TmsConfiguration;
use crate::ini::opt_seq;
use crate::os_utils::joined;
use crate::project::{models_of, seq_has, Project, ProjectItem};

verus! {

/// The items selected for a run, with their names alongside.
pub struct Items {
    pub items: Vec<ProjectItem>,
    pub names: Vec<String>,
}

/// `it` is (a copy of) one of `project_items`.
pub open spec fn item_from(it: ProjectItem, project_items: Seq<ProjectItem>) -> bool {
    exists|j: int| 0 <= j < project_items.len() && it.model() == project_items[j].model()
}

impl Items {
    /// No items selected yet.
    pub fn new() -> (r: Self)
        ensures
            r.items@ == Seq::<ProjectItem>::empty(),
            r.names@ == Seq::<String>::empty(),
    {
        Self { items: Vec::new(), names: Vec::new() }
    }
}

/// The run action: the arguments it was invoked with and the loaded
/// configuration.
pub struct RunAction {
    pub argument: Box<TmsArgActionRun>,
    pub configuration: Box<TmsConfiguration>,
}

impl RunAction {
    /// Binds arguments and configuration together.
    pub fn new(argument: Box<TmsArgActionRun>, configuration: Box<TmsConfiguration>) -> (r: Self)
        ensures
            r.argument == argument,
            r.configuration == configuration,
    {
        Self { argument, configuration }
    }

    /// The project the arguments name, by name or alias; an exact-name
    /// match anywhere takes precedence over any alias match.
    pub fn get_project(&self) -> (r: Option<&Project>)
        ensures
            match r {
                Some(p) => {
                    &&& exists|i: int|
                        0 <= i < self.configuration.projects@.len()
                            && self.configuration.projects@[i] == *p
                    &&& (p.name@ == self.argument.project@ || seq_has(
                        p.model().alias,
                        self.argument.project@,
                    ))
                    &&& (exists|i: int|
                        0 <= i < self.configuration.projects@.len() && (
                        #[trigger] self.configuration.projects@[i]).name@
                            == self.argument.project@) ==> p.name@ == self.argument.project@
                },
                None => forall|i: int|
                    0 <= i < self.configuration.projects@.len() ==> (
                    #[trigger] self.configuration.projects@[i]).name@ != self.argument.project@
                        && !seq_has(
                        self.configuration.projects@[i].model().alias,
                        self.argument.project@,
                    ),
            },
    {
        self.configuration.get_project(self.argument.project.as_str())
    }

    /// The items to run: all of the project's items with `all_item`,
    /// else the items the arguments name (by name or alias), each found
    /// or the run fails; naming none is a failure too.
    pub fn get_items(&self, project: &Project) -> (r: Result<Items, AppError>)
        ensures
            match r {
                Ok(its) => {
                    &&& its.items@.len() == its.names@.len()
                    &&& forall|k: int|
                        0 <= k < its.items@.len() ==> (#[trigger] its.names@[k])@
                            == its.items@[k].name@
                    &&& forall|k: int|
                        0 <= k < its.items@.len() ==> item_from(
                            #[trigger] its.items@[k],
                            project.items@,
                        )
                    &&& (self.argument.all_item ==> models_of(its.items@) == models_of(
                        project.items@,
                    ))
                    &&& (!self.argument.all_item ==> its.items@.len()
                        == self.argument.item@.len())
                },
                Err(e) => {
                    &&& !self.argument.all_item
                    &&& e is Action
                    &&& (self.argument.item@.len() == 0 ==> e->Action_0@
                        == "Missing --all-item(-a) or --item(-i) <ITEM>."@)
                    &&& (self.argument.item@.len() > 0 ==> exists|k: int|
                        0 <= k < self.argument.item@.len() && e->Action_0@
                            == "Item not available: "@.add(
                            (#[trigger] self.argument.item@[k])@,
                        ))
                },
            },
    {
        let mut items = Items::new();
        if self.argument.all_item {
            let n = project.items.len();
            let mut i: usize = 0;
            while i < n
                invariant
                    0 <= i <= n,
                    n == project.items@.len(),
                    items.items@.len() == i,
                    items.names@.len() == i,
                    forall|k: int|
                        0 <= k < i ==> (#[trigger] items.items@[k]).model()
                            == project.items@[k].model(),
                    forall|k: int|
                        0 <= k < i ==> (#[trigger] items.names@[k])@ == items.items@[k].name@,
                decreases n - i,
            {
                let item = crate::project::clone_project_item(&project.items[i]);
                items.names.push(item.name.clone());
                items.items.push(item);
                i = i + 1;
            }
            proof {
                assert forall|k: int| 0 <= k < items.items@.len() implies #[trigger] models_of(
                    items.items@,
                )[k] == models_of(project.items@)[k] by {
                    assert(models_of(items.items@)[k] == items.items@[k].model());
                    assert(models_of(project.items@)[k] == project.items@[k].model());
                }
                assert(models_of(items.items@) =~= models_of(project.items@));
                assert forall|k: int| 0 <= k < items.items@.len() implies item_from(
                    #[trigger] items.items@[k],
                    project.items@,
                ) by {
                    assert(0 <= k < project.items@.len() && items.items@[k].model()
                        == project.items@[k].model());
                }
            }
            Ok(items)
        } else {
            if self.argument.item.len() == 0 {
                return Err(
                    AppError::Action(
                        String::from_str("Missing --all-item(-a) or --item(-i) <ITEM>."),
                    ),
                );
            }
            let n = self.argument.item.len();
            let mut i: usize = 0;
            while i < n
                invariant
                    0 <= i <= n,
                    !self.argument.all_item,
                    n == self.argument.item@.len(),
                    items.items@.len() == i,
                    items.names@.len() == i,
                    forall|k: int|
                        0 <= k < i ==> (#[trigger] items.names@[k])@ == items.items@[k].name@,
                    forall|k: int| 0 <= k < i ==> item_from(#[trigger] items.items@[k], project.items@),
                decreases n - i,
            {
                let info: &String = &self.argument.item[i];
                match project.get_item(info.as_str()) {
                    None => {
                        let e = AppError::Action(
                            String::from_str("Item not available: ").concat(info.as_str()),
                        );
                        proof {
                            assert(e->Action_0@ =~= "Item not available: "@.add(
                                self.argument.item@[i as int]@,
                            ));
                        }
                        return Err(e);
                    },
                    Some(item) => {
                        let copied = crate::project::clone_project_item(item);
                        proof {
                            let j = choose|j: int|
                                0 <= j < project.items@.len() && project.items@[j] == *item;
                            assert(0 <= j < project.items@.len() && copied.model()
                                == project.items@[j].model());
                            assert(item_from(copied, project.items@));
                        }
                        items.names.push(copied.name.clone());
                        items.items.push(copied);
                    },
                }
                i = i + 1;
            }
            Ok(items)
        }
    }

    /// Merges the tool-wide runtime into the project's overrides: every
    /// unset override takes the default; project java options are
    /// appended after the default ones; the base directory is always
    /// the project's cache directory.
    pub fn merge_runtime(&self, project: &mut Project, windows: bool)
        ensures
            ({
                let pr = old(project).runtime;
                let tr = &self.configuration.runtime;
                let tc = &self.configuration.common;
                let out = final (project).runtime;
                &&& final (project).name == old(project).name
                &&& final (project).alias == old(project).alias
                &&& final (project).description == old(project).description
                &&& final (project).items == old(project).items
                &&& opt_seq(out.java_home) == Some(
                    match pr.java_home {
                        Some(h) => h@,
                        None => tr.java_home@,
                    },
                )
                &&& opt_seq(out.java_opts) == (match (pr.java_opts, tr.java_opts) {
                    (Option::None, Option::None) => None,
                    (Option::None, Option::Some(t)) => Some(t@),
                    (Option::Some(p), Option::None) => Some(p@),
                    (Option::Some(p), Option::Some(t)) => Some(t@.push(' ').add(p@)),
                })
                &&& opt_seq(out.catalina_home) == Some(
                    match pr.catalina_home {
                        Some(h) => h@,
                        None => tr.catalina_home@,
                    },
                )
                &&& opt_seq(out.catalina_base) == Some(
                    joined(tc.cache_dir@, old(project).name@, windows),
                )
                &&& out.http_port == Some(
                    match pr.http_port {
                        Some(p) => p,
                        None => tr.http_port,
                    },
                )
                &&& out.server_port == Some(
                    match pr.server_port {
                        Some(p) => p,
                        None => tr.server_port,
                    },
                )
                &&& out.jpda_port == Some(
                    match pr.jpda_port {
                        Some(p) => p,
                        None => tr.jpda_port,
                    },
                )
                &&& out.enable_logfile == Some(
                    match pr.enable_logfile {
                        Some(b) => b,
                        None => tr.enable_logfile,
                    },
                )
            }),
    {
        let tr = &self.configuration.runtime;
        let tc = &self.configuration.common;
        if project.runtime.java_home.is_none() {
            project.runtime.java_home = Some(tr.java_home.clone());
        }
        let merged_opts: Option<String> = match &project.runtime.java_opts {
            None => {
                match &tr.java_opts {
                    Some(t) => Some(t.clone()),
                    None => None,
                }
            },
            Some(p_val) => {
                match &tr.java_opts {
                    Some(t_val) => {
                        let mut s = t_val.clone();
                        s.append(" ");
                        s.append(p_val.as_str());
                        proof {
                            reveal_strlit(" ");
                            assert(s@ =~= t_val@.push(' ').add(p_val@));
                        }
                        Some(s)
                    },
                    None => Some(p_val.clone()),
                }
            },
        };
        project.runtime.java_opts = merged_opts;
        if project.runtime.catalina_home.is_none() {
            project.runtime.catalina_home = Some(tr.catalina_home.clone());
        }
        project.runtime.catalina_base = Some(
            crate::os_utils::join_path(tc.cache_dir.as_str(), project.name.as_str(), windows),
        );
        if project.runtime.http_port.is_none() {
            project.runtime.http_port = Some(tr.http_port);
        }
        if project.runtime.server_port.is_none() {
            project.runtime.server_port = Some(tr.server_port);
        }
        if project.runtime.jpda_port.is_none() {
            project.runtime.jpda_port = Some(tr.jpda_port);
        }
        if project.runtime.enable_logfile.is_none() {
            project.runtime.enable_logfile = Some(tr.enable_logfile);
        }
    }
}

} // verus!
