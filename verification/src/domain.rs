//! The resolved configuration a run works from: runtime defaults, and
//! the projects with their deployable items.

use vstd::prelude::*;

verus! {

/// The whole tool configuration: the default runtime and the projects.
#[derive(Debug)]
pub struct TmsConfig {
    pub default: RuntimeConfig,
    pub projects: Vec<ProjectConfig>,
}

/// Runtime settings: the Java side and the Tomcat side, each optional.
#[derive(Debug)]
pub struct RuntimeConfig {
    pub java: Option<JavaConfig>,
    pub tomcat: Option<TomcatConfig>,
}

/// Where Java lives and what options to pass it.
#[derive(Debug)]
pub struct JavaConfig {
    pub java_home: Option<String>,
    pub java_options: Option<String>,
}

/// Where Tomcat lives and which ports to use.
#[derive(Debug)]
pub struct TomcatConfig {
    pub tomcat_home: Option<String>,
    pub http_port: Option<u32>,
    pub server_port: Option<u32>,
    pub jpda_port: Option<u32>,
}

/// One project: a name, an optional alias and description, optional
/// runtime overrides, and its deployable items.
#[derive(Debug)]
pub struct ProjectConfig {
    pub name: String,
    pub alias: Option<String>,
    pub description: Option<String>,
    pub runtime: Option<RuntimeConfig>,
    pub items: Vec<ProjectItemConfig>,
}

/// One deployable item of a project.
#[derive(Debug)]
pub struct ProjectItemConfig {
    pub name: String,
    pub alias: Option<String>,
    pub path: String,
    pub context_path: String,
}

/// An independent copy of an optional string.
pub fn clone_opt_string(v: &Option<String>) -> (r: Option<String>)
    ensures
        r == v,
{
    match v {
        Some(s) => Some(s.clone()),
        None => None,
    }
}

/// An independent copy of an optional port.
pub fn clone_opt_u32(v: &Option<u32>) -> (r: Option<u32>)
    ensures
        r == v,
{
    match v {
        Some(p) => Some(*p),
        None => None,
    }
}

impl Clone for JavaConfig {
    /// An equal, independent copy.
    fn clone(&self) -> (r: Self)
        ensures
            r == *self,
    {
        JavaConfig {
            java_home: clone_opt_string(&self.java_home),
            java_options: clone_opt_string(&self.java_options),
        }
    }
}

impl Clone for TomcatConfig {
    /// An equal, independent copy.
    fn clone(&self) -> (r: Self)
        ensures
            r == *self,
    {
        TomcatConfig {
            tomcat_home: clone_opt_string(&self.tomcat_home),
            http_port: clone_opt_u32(&self.http_port),
            server_port: clone_opt_u32(&self.server_port),
            jpda_port: clone_opt_u32(&self.jpda_port),
        }
    }
}

impl Clone for RuntimeConfig {
    /// An equal, independent copy.
    fn clone(&self) -> (r: Self)
        ensures
            r == *self,
    {
        RuntimeConfig {
            java: match &self.java {
                Some(j) => Some(j.clone()),
                None => None,
            },
            tomcat: match &self.tomcat {
                Some(t) => Some(t.clone()),
                None => None,
            },
        }
    }
}

impl Clone for ProjectItemConfig {
    /// An equal, independent copy.
    fn clone(&self) -> (r: Self)
        ensures
            r == *self,
    {
        ProjectItemConfig {
            name: self.name.clone(),
            alias: clone_opt_string(&self.alias),
            path: self.path.clone(),
            context_path: self.context_path.clone(),
        }
    }
}

impl Clone for ProjectConfig {
    /// An equal, independent copy (the item list is equal element by
    /// element).
    fn clone(&self) -> (r: Self)
        ensures
            r.name == self.name,
            r.alias == self.alias,
            r.description == self.description,
            r.runtime == self.runtime,
            r.items@ == self.items@,
    {
        let mut items: Vec<ProjectItemConfig> = Vec::new();
        let n = self.items.len();
        let mut i: usize = 0;
        while i < n
            invariant
                0 <= i <= n,
                n == self.items@.len(),
                items@ =~= self.items@.take(i as int),
            decreases n - i,
        {
            items.push(self.items[i].clone());
            i = i + 1;
        }
        proof {
            assert(items@ =~= self.items@);
        }
        ProjectConfig {
            name: self.name.clone(),
            alias: clone_opt_string(&self.alias),
            description: clone_opt_string(&self.description),
            runtime: match &self.runtime {
                Some(rt) => Some(rt.clone()),
                None => None,
            },
            items,
        }
    }
}

/// The two projects agree field by field (the item lists element by
/// element).
pub open spec fn project_eq(a: ProjectConfig, b: ProjectConfig) -> bool {
    a.name == b.name && a.alias == b.alias && a.description == b.description && a.runtime
        == b.runtime && a.items@ == b.items@
}

impl Clone for TmsConfig {
    /// An equal, independent copy (the project list is equal element by
    /// element).
    fn clone(&self) -> (r: Self)
        ensures
            r.default == self.default,
            r.projects@.len() == self.projects@.len(),
            forall|i: int|
                0 <= i < r.projects@.len() ==> project_eq(
                    #[trigger] r.projects@[i],
                    self.projects@[i],
                ),
    {
        let mut projects: Vec<ProjectConfig> = Vec::new();
        let n = self.projects.len();
        let mut i: usize = 0;
        while i < n
            invariant
                0 <= i <= n,
                n == self.projects@.len(),
                projects@.len() == i,
                forall|k: int|
                    0 <= k < i ==> project_eq(#[trigger] projects@[k], self.projects@[k]),
            decreases n - i,
        {
            projects.push(self.projects[i].clone());
            i = i + 1;
        }
        TmsConfig { default: self.default.clone(), projects }
    }
}

} // verus!
