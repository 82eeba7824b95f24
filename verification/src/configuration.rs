//! The assembled configuration: tool-wide settings, the default
//! runtime, and the projects, with lookup by name or alias. The shell
//! reads the files; assembly from parsed documents happens here.

use vstd::prelude::*;

use crate::common::{TmsCommon, TmsRuntime};
use crate::config_error::ConfigurationError;
use crate::ini::Ini;
use crate::project::{ini_load_all, load_all_result, pmodels_of, sections_of, Project};
use crate::text::str_eq;

verus! {

/// Everything a run needs: tool-wide settings, the default runtime and
/// the projects.
#[derive(Debug)]
pub struct TmsConfiguration {
    pub common: TmsCommon,
    pub runtime: TmsRuntime,
    pub projects: Vec<Project>,
}

impl TmsConfiguration {
    /// Assembles the configuration from the parsed base document and
    /// the parsed extra documents its file-list entry named.
    pub fn from_documents(ini: &Ini, extras: &Vec<Ini>) -> (r: Result<
        Box<TmsConfiguration>,
        ConfigurationError,
    >)
        requires
            ini.wf(),
            forall|i: int| 0 <= i < extras@.len() ==> (#[trigger] extras@[i]).wf(),
        ensures
            ({
                let missing_java = ini@.contains_key("runtime"@) && crate::ini::sec_value(
                    ini@["runtime"@],
                    "java_home"@,
                ) is None;
                let missing_cat = ini@.contains_key("runtime"@) && crate::ini::sec_value(
                    ini@["runtime"@],
                    "catalina_home"@,
                ) is None;
                match r {
                    Ok(c) => {
                        &&& !missing_java
                        &&& !missing_cat
                        &&& c.common.log_level == crate::common::spec_common_log_level(ini@)
                        &&& c.common.cache_dir@ == crate::common::spec_common_cache_dir(ini@)
                        &&& (ini@.contains_key("runtime"@) ==> crate::ini::sec_value(
                            ini@["runtime"@],
                            "java_home"@,
                        ) == Some(c.runtime.java_home@) && crate::ini::sec_value(
                            ini@["runtime"@],
                            "catalina_home"@,
                        ) == Some(c.runtime.catalina_home@))
                        &&& load_all_result(ini.sections_seq(), sections_of(extras@)) is Ok
                        &&& pmodels_of(c.projects@) == load_all_result(
                            ini.sections_seq(),
                            sections_of(extras@),
                        )->Ok_0
                    },
                    Err(e) => if missing_java {
                        e.msg@
                            == "Please configure JAVA_HOME with 'runtime.java_home' in the configuration file"@
                    } else if missing_cat {
                        e.msg@
                            == "Please configure CATALINA_HOME with 'runtime.catalina_home' in the configuration file"@
                    } else {
                        load_all_result(ini.sections_seq(), sections_of(extras@)) is Err && e.msg@
                            == load_all_result(ini.sections_seq(), sections_of(extras@))->Err_0
                    },
                }
            }),
    {
        let common = TmsCommon::from_ini(ini);
        let runtime = match TmsRuntime::from_ini(ini) {
            Ok(rt) => rt,
            Err(e) => {
                return Err(e);
            },
        };
        let projects = match ini_load_all(ini, extras) {
            Ok(ps) => ps,
            Err(e) => {
                return Err(e);
            },
        };
        Ok(Box::new(TmsConfiguration { common, runtime, projects }))
    }

    /// The project `s` picks: by exact name first, else by alias; an
    /// exact-name match anywhere takes precedence over any alias match.
    pub fn get_project(&self, s: &str) -> (r: Option<&Project>)
        ensures
            match r {
                Some(p) => {
                    &&& exists|i: int| 0 <= i < self.projects@.len() && self.projects@[i] == *p
                    &&& (p.name@ == s@ || crate::project::seq_has(p.model().alias, s@))
                    &&& (exists|i: int|
                        0 <= i < self.projects@.len() && (#[trigger] self.projects@[i]).name@
                            == s@) ==> p.name@ == s@
                },
                None => forall|i: int|
                    0 <= i < self.projects@.len() ==> (#[trigger] self.projects@[i]).name@ != s@
                        && !crate::project::seq_has(self.projects@[i].model().alias, s@),
            },
    {
        let n = self.projects.len();
        let mut i: usize = 0;
        while i < n
            invariant
                0 <= i <= n,
                n == self.projects@.len(),
                forall|k: int| 0 <= k < i ==> (#[trigger] self.projects@[k]).name@ != s@,
            decreases n - i,
        {
            if str_eq(self.projects[i].name.as_str(), s) {
                return Some(&self.projects[i]);
            }
            i = i + 1;
        }
        let mut i: usize = 0;
        while i < n
            invariant
                0 <= i <= n,
                n == self.projects@.len(),
                forall|k: int| 0 <= k < n ==> (#[trigger] self.projects@[k]).name@ != s@,
                forall|k: int|
                    0 <= k < i ==> !crate::project::seq_has(self.projects@[k].model().alias, s@),
            decreases n - i,
        {
            let project = &self.projects[i];
            let m = project.alias.len();
            let mut j: usize = 0;
            while j < m
                invariant
                    0 <= j <= m,
                    0 <= i < n == self.projects@.len(),
                    *project == self.projects@[i as int],
                    m == project.alias@.len(),
                    forall|k: int| 0 <= k < n ==> (#[trigger] self.projects@[k]).name@ != s@,
                    forall|k: int| 0 <= k < j ==> project.alias.deep_view()[k] != s@,
                decreases m - j,
            {
                if str_eq(project.alias[j].as_str(), s) {
                    proof {
                        assert(project.model().alias[j as int] == s@);
                        assert(crate::project::seq_has(project.model().alias, s@));
                        assert(0 <= i < self.projects@.len() && self.projects@[i as int]
                            == *project);
                    }
                    return Some(project);
                }
                j = j + 1;
            }
            proof {
                assert(!crate::project::seq_has(project.model().alias, s@));
            }
            i = i + 1;
        }
        None
    }
}

/// The cache directory beside the executable: `cache` under the
/// directory the shell found the program in.
pub fn get_cache_dir(exe_dir: &str, windows: bool) -> (r: String)
    ensures
        r@ == crate::os_utils::joined(exe_dir@, "cache"@, windows),
{
    crate::os_utils::join_path(exe_dir, "cache", windows)
}

} // verus!
