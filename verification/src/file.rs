//! Shape of the configuration file before validation: every field
//! optional, exactly as read from disk. The unverified shell
//! deserializes into its own copy of these types and converts; the
//! merge mechanism's pure part — folding further files' projects into
//! the base configuration — lives here.

use vstd::prelude::*;

verus! {

/// The raw top-level configuration file.
#[derive(Debug)]
pub struct TmsFileConfig {
    pub log_level: Option<String>,
    pub extra_files: Option<Vec<String>>,
    pub default: Option<RuntimeFileConfig>,
    pub projects: Option<Vec<ProjectFileConfig>>,
}

/// Raw runtime settings.
#[derive(Debug)]
pub struct RuntimeFileConfig {
    pub java: Option<JavaFileConfig>,
    pub tomcat: Option<TomcatFileConfig>,
}

/// Raw Java settings.
#[derive(Debug)]
pub struct JavaFileConfig {
    pub java_home: Option<String>,
    pub java_options: Option<String>,
}

/// Raw Tomcat settings.
#[derive(Debug)]
pub struct TomcatFileConfig {
    pub tomcat_home: Option<String>,
    pub http_port: Option<u32>,
    pub server_port: Option<u32>,
    pub jpda_port: Option<u32>,
}

/// One raw project entry.
#[derive(Debug)]
pub struct ProjectFileConfig {
    pub name: Option<String>,
    pub alias: Option<String>,
    pub description: Option<String>,
    pub runtime: Option<RuntimeFileConfig>,
    pub items: Option<Vec<ProjectItemFileConfig>>,
}

/// One raw item entry of a project.
#[derive(Debug)]
pub struct ProjectItemFileConfig {
    pub name: Option<String>,
    pub alias: Option<String>,
    pub path: Option<String>,
    pub context_path: Option<String>,
}

/// The projects a configuration carries, or none.
pub open spec fn projects_of(c: TmsFileConfig) -> Seq<ProjectFileConfig> {
    match c.projects {
        Some(ps) => ps@,
        None => Seq::empty(),
    }
}

/// All projects the extra configuration files carry, in file order.
pub open spec fn extra_projects(extras: Seq<TmsFileConfig>) -> Seq<ProjectFileConfig>
    decreases extras.len(),
{
    if extras.len() == 0 {
        Seq::empty()
    } else {
        extra_projects(extras.drop_last()).add(projects_of(extras.last()))
    }
}

/// Folds the projects of further configuration files (the files the
/// base names in its file-list entry) into the base configuration, in
/// file order after the base's own projects; everything else of the
/// base is kept, and its project list is made present even when it was
/// absent.
pub fn merge_extra_projects(config: TmsFileConfig, extras: Vec<TmsFileConfig>) -> (r:
    TmsFileConfig)
    ensures
        r.log_level == config.log_level,
        r.extra_files == config.extra_files,
        r.default == config.default,
        r.projects is Some,
        r.projects->0@ == projects_of(config).add(extra_projects(extras@)),
{
    let TmsFileConfig { log_level, extra_files, default, projects } = config;
    let mut all: Vec<ProjectFileConfig> = match projects {
        Some(ps) => ps,
        None => Vec::new(),
    };
    let ghost base = all@;
    let ghost incs = extras@;
    let mut extras = extras;
    let n = extras.len();
    let mut i: usize = 0;
    proof {
        assert(extra_projects(incs.take(0)) =~= Seq::<ProjectFileConfig>::empty());
        assert(all@ =~= base.add(extra_projects(incs.take(0))));
        assert(extras@ =~= incs.skip(0));
    }
    while i < n
        invariant
            0 <= i <= n,
            n == incs.len(),
            extras@ == incs.skip(i as int),
            all@ == base.add(extra_projects(incs.take(i as int))),
        decreases n - i,
    {
        let one = extras.remove(0);
        proof {
            assert(incs.skip(i as int)[0] == incs[i as int]);
            assert(incs.skip(i as int).remove(0) =~= incs.skip(i as int + 1));
        }
        match one.projects {
            Some(mut ps) => {
                all.append(&mut ps);
            },
            None => {},
        }
        i = i + 1;
        proof {
            assert(incs.take(i as int).drop_last() =~= incs.take(i - 1));
            assert(incs.take(i as int).last() == incs[i - 1]);
            assert(all@ =~= base.add(extra_projects(incs.take(i as int))));
        }
    }
    proof {
        assert(incs.take(n as int) =~= incs);
    }
    TmsFileConfig { log_level, extra_files, default, projects: Some(all) }
}

} // verus!
