//! Validation of the raw configuration file into the resolved
//! configuration: required names and paths are enforced, context paths
//! are normalized, ports fall back to their defaults, and the
//! environment fallbacks for the default runtime are applied from
//! values the shell hands in.

use vstd::prelude::*;

use crate::app_util::AppError;
use crate::common::spec_parse_log_level;
use crate::domain::{
    clone_opt_string, clone_opt_u32, JavaConfig, ProjectConfig, ProjectItemConfig, RuntimeConfig,
    TmsConfig, TomcatConfig,
};
use crate::file::{
    JavaFileConfig, ProjectFileConfig, ProjectItemFileConfig, RuntimeFileConfig, TmsFileConfig,
    TomcatFileConfig,
};
use crate::ini::opt_seq;
use crate::text::{dec_str, starts_with, str_starts_with, u64_to_string};

verus! {

/// The value that applies: the file's when set, else the environment's
/// when this is the default runtime, else none.
pub open spec fn chosen(
    file: Option<Seq<char>>,
    is_default: bool,
    env: Option<Seq<char>>,
) -> Option<Seq<char>> {
    if file is Some {
        file
    } else if is_default {
        env
    } else {
        None
    }
}

/// A port with its fallback.
pub open spec fn port_or(file: Option<u32>, fallback: u32) -> Option<u32> {
    if file is Some {
        file
    } else {
        Some(fallback)
    }
}

/// The Java settings that apply: the file's `java_home` falls back to
/// the `JAVA_HOME` environment value (handed in by the shell) for the
/// default runtime only; the options come from the file alone.
pub fn init_java_config(
    java_config: Option<&JavaFileConfig>,
    is_default: bool,
    env_java_home: Option<String>,
) -> (r: Result<JavaConfig, AppError>)
    ensures
        r is Ok,
        opt_seq(r->Ok_0.java_home) == chosen(
            match java_config {
                Some(v) => opt_seq(v.java_home),
                None => None,
            },
            is_default,
            opt_seq(env_java_home),
        ),
        opt_seq(r->Ok_0.java_options) == (match java_config {
            Some(v) => opt_seq(v.java_options),
            None => None,
        }),
{
    let mut java_home: Option<String> = None;
    let mut java_opts: Option<String> = None;
    if let Some(value) = java_config {
        java_home = clone_opt_string(&value.java_home);
        java_opts = clone_opt_string(&value.java_options);
    }
    if java_home.is_none() && is_default {
        java_home = env_java_home;
    }
    Ok(JavaConfig { java_home, java_options: java_opts })
}

/// The Tomcat settings that apply: the file's `tomcat_home` falls back
/// to the `CATALINA_HOME` environment value for the default runtime
/// only; unset ports fall back to 8080, 8005 and 8000.
pub fn init_tomcat_config(
    tomcat_config: Option<&TomcatFileConfig>,
    is_default: bool,
    env_catalina_home: Option<String>,
) -> (r: Result<TomcatConfig, AppError>)
    ensures
        r is Ok,
        opt_seq(r->Ok_0.tomcat_home) == chosen(
            match tomcat_config {
                Some(v) => opt_seq(v.tomcat_home),
                None => None,
            },
            is_default,
            opt_seq(env_catalina_home),
        ),
        r->Ok_0.http_port == port_or(
            match tomcat_config {
                Some(v) => v.http_port,
                None => None,
            },
            8080,
        ),
        r->Ok_0.server_port == port_or(
            match tomcat_config {
                Some(v) => v.server_port,
                None => None,
            },
            8005,
        ),
        r->Ok_0.jpda_port == port_or(
            match tomcat_config {
                Some(v) => v.jpda_port,
                None => None,
            },
            8000,
        ),
{
    let mut tomcat_home: Option<String> = None;
    let mut http_port: Option<u32> = None;
    let mut server_port: Option<u32> = None;
    let mut jpda_port: Option<u32> = None;
    if let Some(value) = tomcat_config {
        tomcat_home = clone_opt_string(&value.tomcat_home);
        http_port = clone_opt_u32(&value.http_port);
        server_port = clone_opt_u32(&value.server_port);
        jpda_port = clone_opt_u32(&value.jpda_port);
    }
    if tomcat_home.is_none() && is_default {
        tomcat_home = env_catalina_home;
    }
    if http_port.is_none() {
        http_port = Some(8080);
    }
    if server_port.is_none() {
        server_port = Some(8005);
    }
    if jpda_port.is_none() {
        jpda_port = Some(8000);
    }
    Ok(TomcatConfig { tomcat_home, http_port, server_port, jpda_port })
}

/// The runtime configuration and the file's runtime settings agree,
/// under the given default flag and environment values.
pub open spec fn runtime_converted(
    file: Option<RuntimeFileConfig>,
    out: RuntimeConfig,
    is_default: bool,
    env_java_home: Option<Seq<char>>,
    env_catalina_home: Option<Seq<char>>,
) -> bool {
    let java_file = match file {
        Some(f) => match f.java {
            Some(j) => Some(j),
            None => None,
        },
        None => None,
    };
    let tomcat_file = match file {
        Some(f) => match f.tomcat {
            Some(t) => Some(t),
            None => None,
        },
        None => None,
    };
    &&& out.java is Some
    &&& out.tomcat is Some
    &&& opt_seq(out.java->0.java_home) == chosen(
        match java_file {
            Some(v) => opt_seq(v.java_home),
            None => None,
        },
        is_default,
        env_java_home,
    )
    &&& opt_seq(out.java->0.java_options) == (match java_file {
        Some(v) => opt_seq(v.java_options),
        None => None,
    })
    &&& opt_seq(out.tomcat->0.tomcat_home) == chosen(
        match tomcat_file {
            Some(v) => opt_seq(v.tomcat_home),
            None => None,
        },
        is_default,
        env_catalina_home,
    )
    &&& out.tomcat->0.http_port == port_or(
        match tomcat_file {
            Some(v) => v.http_port,
            None => None,
        },
        8080,
    )
    &&& out.tomcat->0.server_port == port_or(
        match tomcat_file {
            Some(v) => v.server_port,
            None => None,
        },
        8005,
    )
    &&& out.tomcat->0.jpda_port == port_or(
        match tomcat_file {
            Some(v) => v.jpda_port,
            None => None,
        },
        8000,
    )
}

/// The runtime that applies: Java and Tomcat settings resolved side by
/// side.
pub fn init_runtime(
    runtime_config: Option<&RuntimeFileConfig>,
    is_default: bool,
    env_java_home: Option<String>,
    env_catalina_home: Option<String>,
) -> (r: Result<RuntimeConfig, AppError>)
    ensures
        r is Ok,
        runtime_converted(
            match runtime_config {
                Some(f) => Some(*f),
                None => None,
            },
            r->Ok_0,
            is_default,
            opt_seq(env_java_home),
            opt_seq(env_catalina_home),
        ),
{
    let (java_file, tomcat_file): (Option<&JavaFileConfig>, Option<&TomcatFileConfig>) =
        match runtime_config {
        Some(rc) => (
            match &rc.java {
                Some(j) => Some(j),
                None => None,
            },
            match &rc.tomcat {
                Some(t) => Some(t),
                None => None,
            },
        ),
        None => (None, None),
    };
    let java = match init_java_config(java_file, is_default, env_java_home) {
        Ok(j) => j,
        Err(e) => {
            return Err(e);
        },
    };
    let tomcat = match init_tomcat_config(tomcat_file, is_default, env_catalina_home) {
        Ok(t) => t,
        Err(e) => {
            return Err(e);
        },
    };
    Ok(RuntimeConfig { java: Some(java), tomcat: Some(tomcat) })
}

/// The context path an item gets: `/` when none is set, the value when
/// it already starts with `/`, else the value with `/` prepended.
pub open spec fn spec_context_path(cp: Option<Seq<char>>) -> Seq<char> {
    match cp {
        None => "/"@,
        Some(c) => if starts_with(c, "/"@) {
            c
        } else {
            seq!['/'].add(c)
        },
    }
}

/// The item configuration and the file's item entry agree.
pub open spec fn item_converted(file: ProjectItemFileConfig, out: ProjectItemConfig) -> bool {
    &&& file.name is Some
    &&& out.name@ == file.name->0@
    &&& opt_seq(out.alias) == opt_seq(file.alias)
    &&& file.path is Some
    &&& out.path@ == file.path->0@
    &&& out.context_path@ == spec_context_path(opt_seq(file.context_path))
}

/// Index of the first invalid item: one missing its name or its path.
pub open spec fn first_bad_item(items: Seq<ProjectItemFileConfig>) -> Option<int>
    decreases items.len(),
{
    if items.len() == 0 {
        None
    } else if items[0].name is None || items[0].path is None {
        Some(0)
    } else {
        match first_bad_item(items.drop_first()) {
            Some(i) => Some(i + 1),
            None => None,
        }
    }
}

pub open spec fn msg_no_items(pname: Seq<char>) -> Seq<char> {
    "No items defined for project '"@.add(pname).add("'"@)
}

pub open spec fn msg_item_no_name(pname: Seq<char>, idx: int) -> Seq<char> {
    "No name defined for project '"@.add(pname).add("' item "@).add(dec_str(idx + 1))
}

pub open spec fn msg_item_no_path(pname: Seq<char>, iname: Seq<char>) -> Seq<char> {
    "No path defined for project '"@.add(pname).add("' item '"@).add(iname).add("'"@)
}

/// The message the first invalid item is rejected with: a missing name
/// by position, a missing path by name.
pub open spec fn bad_item_msg(pname: Seq<char>, items: Seq<ProjectItemFileConfig>, i: int) -> Seq<
    char,
> {
    if items[i].name is None {
        msg_item_no_name(pname, i)
    } else {
        msg_item_no_path(pname, items[i].name->0@)
    }
}

/// A scan over valid items pins the first invalid one.
proof fn lemma_first_bad_item(items: Seq<ProjectItemFileConfig>, k: int)
    requires
        0 <= k <= items.len(),
        forall|t: int|
            0 <= t < k ==> (#[trigger] items[t]).name is Some && items[t].path is Some,
    ensures
        k < items.len() && (items[k].name is None || items[k].path is None) ==> first_bad_item(
            items,
        ) == Some(k),
        k == items.len() ==> first_bad_item(items) is None,
    decreases items.len(),
{
    if items.len() > 0 {
        if items[0].name is None || items[0].path is None {
        } else {
            if k > 0 {
                lemma_first_bad_item(items.drop_first(), k - 1);
            }
        }
    }
}

/// The items of one project validated and normalized: every item needs
/// a name and a path; a missing context path becomes `/`, one not
/// starting with `/` has it prepended. Whether the paths exist on disk
/// is the shell's check.
pub fn init_project_items(project_name: &str, items: Option<&Vec<ProjectItemFileConfig>>) -> (r:
    Result<Vec<ProjectItemConfig>, AppError>)
    ensures
        ({
            let its = match items {
                Some(v) => v@,
                None => Seq::<ProjectItemFileConfig>::empty(),
            };
            match r {
                Ok(out) => {
                    &&& items is Some
                    &&& first_bad_item(its) is None
                    &&& out@.len() == its.len()
                    &&& forall|i: int|
                        0 <= i < out@.len() ==> item_converted(its[i], #[trigger] out@[i])
                },
                Err(e) => {
                    &&& e is Config
                    &&& items is None ==> e->Config_0@ == msg_no_items(project_name@)
                    &&& items is Some ==> first_bad_item(its) is Some && e->Config_0@
                        == bad_item_msg(project_name@, its, first_bad_item(its)->0)
                },
            }
        }),
{
    let list = match items {
        Some(v) => v,
        None => {
            return Err(
                AppError::Config(
                    String::from_str("No items defined for project '").concat(project_name).concat(
                        "'",
                    ),
                ),
            );
        },
    };
    let mut items_config: Vec<ProjectItemConfig> = Vec::new();
    let n = list.len();
    let mut i: usize = 0;
    while i < n
        invariant
            0 <= i <= n,
            items is Some && items->0 == list,
            n == list@.len(),
            items_config@.len() == i,
            forall|t: int|
                0 <= t < i ==> (#[trigger] list@[t]).name is Some && list@[t].path is Some,
            forall|t: int|
                0 <= t < i ==> item_converted(list@[t], #[trigger] items_config@[t]),
        decreases n - i,
    {
        let item = &list[i];
        proof {
            lemma_first_bad_item(list@, i as int);
        }
        let name = match &item.name {
            Some(nm) => nm.clone(),
            None => {
                let idx = u64_to_string((i as u64) + 1);
                let e = AppError::Config(
                    String::from_str("No name defined for project '").concat(project_name).concat(
                        "' item ",
                    ).concat(idx.as_str()),
                );
                proof {
                    assert(e->Config_0@ =~= msg_item_no_name(project_name@, i as int));
                }
                return Err(e);
            },
        };
        let path = match &item.path {
            Some(p) => p.clone(),
            None => {
                let e = AppError::Config(
                    String::from_str("No path defined for project '").concat(project_name).concat(
                        "' item '",
                    ).concat(name.as_str()).concat("'"),
                );
                proof {
                    assert(e->Config_0@ =~= msg_item_no_path(project_name@, list@[i as int].name->0@));
                }
                return Err(e);
            },
        };
        let context_path = match &item.context_path {
            None => String::from_str("/"),
            Some(context_path) => {
                if str_starts_with(context_path.as_str(), "/") {
                    context_path.clone()
                } else {
                    let mut with_slash = String::from_str("/");
                    with_slash.append(context_path.as_str());
                    with_slash
                }
            },
        };
        proof {
            reveal_strlit("/");
            assert(context_path@ =~= spec_context_path(opt_seq(list@[i as int].context_path)));
        }
        let item_config = ProjectItemConfig {
            name,
            alias: clone_opt_string(&item.alias),
            path,
            context_path,
        };
        items_config.push(item_config);
        i = i + 1;
    }
    proof {
        lemma_first_bad_item(list@, n as int);
    }
    Ok(items_config)
}

/// The project configuration and the file's project entry agree, with
/// items converted item by item.
pub open spec fn project_converted(file: ProjectFileConfig, out: ProjectConfig) -> bool {
    let its = match file.items {
        Some(v) => v@,
        None => Seq::<ProjectItemFileConfig>::empty(),
    };
    &&& file.name is Some
    &&& out.name@ == file.name->0@
    &&& opt_seq(out.alias) == opt_seq(file.alias)
    &&& opt_seq(out.description) == opt_seq(file.description)
    &&& (file.runtime is None ==> out.runtime is None)
    &&& (file.runtime is Some ==> out.runtime is Some && runtime_converted(
        file.runtime,
        out.runtime->0,
        false,
        None,
        None,
    ))
    &&& file.items is Some
    &&& first_bad_item(its) is None
    &&& out.items@.len() == its.len()
    &&& forall|i: int| 0 <= i < its.len() ==> item_converted(its[i], #[trigger] out.items@[i])
}

/// A project entry is valid: it has a name, an item list, and every
/// item is valid.
pub open spec fn project_ok(file: ProjectFileConfig) -> bool {
    &&& file.name is Some
    &&& file.items is Some
    &&& first_bad_item(file.items->0@) is None
}

/// Index of the first invalid project entry.
pub open spec fn first_bad_project(ps: Seq<ProjectFileConfig>) -> Option<int>
    decreases ps.len(),
{
    if ps.len() == 0 {
        None
    } else if !project_ok(ps[0]) {
        Some(0)
    } else {
        match first_bad_project(ps.drop_first()) {
            Some(i) => Some(i + 1),
            None => None,
        }
    }
}

pub open spec fn msg_project_no_name(idx: int) -> Seq<char> {
    "No name defined for project "@.add(dec_str(idx + 1))
}

/// The message the first invalid project is rejected with: a missing
/// name by position, else the first invalid item's message.
pub open spec fn bad_project_msg(ps: Seq<ProjectFileConfig>, i: int) -> Seq<char> {
    if ps[i].name is None {
        msg_project_no_name(i)
    } else {
        let its = match ps[i].items {
            Some(v) => v@,
            None => Seq::<ProjectItemFileConfig>::empty(),
        };
        if ps[i].items is None {
            msg_no_items(ps[i].name->0@)
        } else {
            bad_item_msg(ps[i].name->0@, its, first_bad_item(its)->0)
        }
    }
}

/// A scan over valid projects pins the first invalid one.
proof fn lemma_first_bad_project(ps: Seq<ProjectFileConfig>, k: int)
    requires
        0 <= k <= ps.len(),
        forall|t: int| 0 <= t < k ==> project_ok(#[trigger] ps[t]),
    ensures
        k < ps.len() && !project_ok(ps[k]) ==> first_bad_project(ps) == Some(k),
        k == ps.len() ==> first_bad_project(ps) is None,
    decreases ps.len(),
{
    if ps.len() > 0 {
        if !project_ok(ps[0]) {
        } else {
            if k > 0 {
                lemma_first_bad_project(ps.drop_first(), k - 1);
            }
        }
    }
}

/// The projects validated in order: each needs a name and valid items;
/// without a project list at all the configuration is rejected.
pub fn init_projects(projects: Option<&Vec<ProjectFileConfig>>) -> (r: Result<
    Vec<ProjectConfig>,
    AppError,
>)
    ensures
        ({
            let ps = match projects {
                Some(v) => v@,
                None => Seq::<ProjectFileConfig>::empty(),
            };
            match r {
                Ok(out) => {
                    &&& projects is Some
                    &&& first_bad_project(ps) is None
                    &&& out@.len() == ps.len()
                    &&& forall|i: int|
                        0 <= i < ps.len() ==> project_converted(ps[i], #[trigger] out@[i])
                },
                Err(e) => {
                    &&& e is Config
                    &&& projects is None ==> e->Config_0@ == "No project defined"@
                    &&& projects is Some ==> first_bad_project(ps) is Some && e->Config_0@
                        == bad_project_msg(ps, first_bad_project(ps)->0)
                },
            }
        }),
{
    let list = match projects {
        Some(v) => v,
        None => {
            return Err(AppError::Config(String::from_str("No project defined")));
        },
    };
    let mut projects_config: Vec<ProjectConfig> = Vec::new();
    let n = list.len();
    let mut i: usize = 0;
    while i < n
        invariant
            0 <= i <= n,
            projects is Some && projects->0 == list,
            n == list@.len(),
            projects_config@.len() == i,
            forall|t: int| 0 <= t < i ==> project_ok(#[trigger] list@[t]),
            forall|t: int|
                0 <= t < i ==> project_converted(list@[t], #[trigger] projects_config@[t]),
        decreases n - i,
    {
        let project = &list[i];
        proof {
            lemma_first_bad_project(list@, i as int);
        }
        let name = match &project.name {
            Some(nm) => nm.clone(),
            None => {
                let idx = u64_to_string((i as u64) + 1);
                let e = AppError::Config(
                    String::from_str("No name defined for project ").concat(idx.as_str()),
                );
                proof {
                    assert(e->Config_0@ =~= msg_project_no_name(i as int));
                }
                return Err(e);
            },
        };
        let runtime = match &project.runtime {
            None => None,
            Some(rt) => match init_runtime(Some(rt), false, None, None) {
                Ok(rc) => Some(rc),
                Err(e) => {
                    return Err(e);
                },
            },
        };
        let items = match init_project_items(name.as_str(), project.items.as_ref()) {
            Ok(its) => its,
            Err(e) => {
                proof {
                    assert(!project_ok(list@[i as int]));
                    assert(e->Config_0@ =~= bad_project_msg(list@, i as int));
                }
                return Err(e);
            },
        };
        let project_config = ProjectConfig {
            name,
            alias: clone_opt_string(&project.alias),
            description: clone_opt_string(&project.description),
            runtime,
            items,
        };
        projects_config.push(project_config);
        i = i + 1;
    }
    proof {
        lemma_first_bad_project(list@, n as int);
    }
    Ok(projects_config)
}

/// The message an unknown log level is rejected with, carrying the
/// reason log level names cannot be converted.
pub open spec fn msg_bad_log_level(value: Seq<char>) -> Seq<char> {
    "Invalid log level '"@.add(value).add(
        "': attempted to convert a string that doesn't match an existing log level"@,
    )
}

/// The whole configuration validated: the log level checked (the shell
/// initializes its logger from it), the default runtime resolved with
/// the environment fallbacks the shell hands in, and the projects
/// validated. The log level failure still yields a configuration error
/// after the shell's logger fell back to its default.
pub fn init(
    file_config: &TmsFileConfig,
    env_java_home: Option<String>,
    env_catalina_home: Option<String>,
) -> (r: Result<TmsConfig, AppError>)
    ensures
        ({
            let bad_level = file_config.log_level is Some && spec_parse_log_level(
                file_config.log_level->0@,
            ) is None;
            let ps = match file_config.projects {
                Some(v) => v@,
                None => Seq::<ProjectFileConfig>::empty(),
            };
            match r {
                Ok(out) => {
                    &&& !bad_level
                    &&& runtime_converted(
                        file_config.default,
                        out.default,
                        true,
                        opt_seq(env_java_home),
                        opt_seq(env_catalina_home),
                    )
                    &&& file_config.projects is Some
                    &&& first_bad_project(ps) is None
                    &&& out.projects@.len() == ps.len()
                    &&& forall|i: int|
                        0 <= i < ps.len() ==> project_converted(ps[i], #[trigger] out.projects@[i])
                },
                Err(e) => {
                    &&& e is Config
                    &&& bad_level ==> e->Config_0@ == msg_bad_log_level(
                        file_config.log_level->0@,
                    )
                    &&& !bad_level ==> (file_config.projects is None ==> e->Config_0@
                        == "No project defined"@)
                    &&& !bad_level ==> (file_config.projects is Some ==> first_bad_project(ps)
                        is Some && e->Config_0@ == bad_project_msg(ps, first_bad_project(ps)->0))
                },
            }
        }),
{
    match &file_config.log_level {
        Some(value) => {
            match crate::common::parse_log_level(value.as_str()) {
                Some(_) => {},
                None => {
                    let e = AppError::Config(
                        String::from_str("Invalid log level '").concat(value.as_str()).concat(
                            "': attempted to convert a string that doesn't match an existing log level",
                        ),
                    );
                    proof {
                        assert(e->Config_0@ =~= msg_bad_log_level(file_config.log_level->0@));
                    }
                    return Err(e);
                },
            }
        },
        None => {},
    }
    let default = match init_runtime(
        file_config.default.as_ref(),
        true,
        env_java_home,
        env_catalina_home,
    ) {
        Ok(rc) => rc,
        Err(e) => {
            return Err(e);
        },
    };
    let projects = match init_projects(file_config.projects.as_ref()) {
        Ok(ps) => ps,
        Err(e) => {
            return Err(e);
        },
    };
    Ok(TmsConfig { default, projects })
}

} // verus!
