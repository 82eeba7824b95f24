//! The Tomcat installation this tool drives: version numbers parsed
//! from `ServerInfo` output, and the plan for preparing a
//! `CATALINA_BASE` directory (the shell creates the directories and
//! copies the files).

use vstd::prelude::*;

use crate::os_utils::{join_path, joined};
use crate::text::{
    split_by, split_str, spec_parse_u32, starts_with, str_eq, str_starts_with, trim, trim_spec,
};

verus! {

/// A dotted version number, as Tomcat and the JVM report them.
#[derive(Debug, Clone, Copy, PartialEq, Eq, Structural)]
pub struct Version {
    pub major: u32,
    pub minor: u32,
    pub revise: u32,
}

/// The message a malformed version component is rejected with.
pub open spec fn msg_bad_version(part: Seq<char>) -> Seq<char> {
    "invalid version number: "@.add(part)
}

/// One dot-separated component: its decimal value, or a failure naming
/// the component.
pub open spec fn spec_version_part(p: Seq<char>) -> Result<u32, Seq<char>> {
    if p == "0"@ {
        Ok(0u32)
    } else {
        match spec_parse_u32(p) {
            Some(v) => Ok(v),
            None => Err(msg_bad_version(p)),
        }
    }
}

/// What parsing a dotted version string yields; components are read
/// third, second, first — the order their failures are reported in.
pub open spec fn spec_version(s: Seq<char>) -> Result<Version, Seq<char>> {
    let parts = split_by(s, "."@);
    let revise = if parts.len() > 2 {
        spec_version_part(parts[2])
    } else {
        Ok(0u32)
    };
    match revise {
        Err(m) => Err(m),
        Ok(revise) => {
            let minor = if parts.len() > 1 {
                spec_version_part(parts[1])
            } else {
                Ok(0u32)
            };
            match minor {
                Err(m) => Err(m),
                Ok(minor) => match spec_version_part(parts[0]) {
                    Err(m) => Err(m),
                    Ok(major) => Ok(Version { major, minor, revise }),
                },
            }
        },
    }
}

impl Version {
    /// The zero version.
    pub fn new() -> (r: Self)
        ensures
            r == (Version { major: 0u32, minor: 0u32, revise: 0u32 }),
    {
        Self { major: 0, minor: 0, revise: 0 }
    }

    /// One version component read in base ten, or a failure naming it.
    pub fn parse_version(ver: &str) -> (r: Result<u32, String>)
        ensures
            match r {
                Ok(v) => spec_version_part(ver@) == Ok::<u32, Seq<char>>(v),
                Err(m) => spec_version_part(ver@) == Err::<u32, Seq<char>>(m@),
            },
    {
        if str_eq("0", ver) {
            Ok(0)
        } else {
            match crate::text::parse_u32(ver) {
                Some(v) => Ok(v),
                None => Err(String::from_str("invalid version number: ").concat(ver)),
            }
        }
    }

    /// A dotted version string parsed into its components; at most the
    /// first three components count, missing ones are zero.
    pub fn parse(s: &str) -> (r: Result<Version, String>)
        ensures
            match r {
                Ok(v) => spec_version(s@) == Ok::<Version, Seq<char>>(v),
                Err(m) => spec_version(s@) == Err::<Version, Seq<char>>(m@),
            },
    {
        proof {
            reveal_strlit(".");
        }
        let versions = split_str(s, ".");
        let ghost parts = split_by(s@, "."@);
        let mut ver = Version::new();
        if versions.len() > 2 {
            proof {
                assert(versions@[2]@ == parts[2]);
            }
            match Self::parse_version(versions[2].as_str()) {
                Ok(v) => {
                    ver.revise = v;
                },
                Err(m) => {
                    return Err(m);
                },
            }
        }
        if versions.len() > 1 {
            proof {
                assert(versions@[1]@ == parts[1]);
            }
            match Self::parse_version(versions[1].as_str()) {
                Ok(v) => {
                    ver.minor = v;
                },
                Err(m) => {
                    return Err(m);
                },
            }
        }
        proof {
            assert(parts.len() > 0);
            assert(versions@[0]@ == parts[0]);
        }
        match Self::parse_version(versions[0].as_str()) {
            Ok(v) => {
                ver.major = v;
            },
            Err(m) => {
                return Err(m);
            },
        }
        Ok(ver)
    }
}

/// The versions of the runtime a project runs on.
#[derive(Debug, Clone, Copy, PartialEq, Eq, Structural)]
pub struct RuntimeVersion {
    pub tomcat: Version,
    pub jvm: Version,
}

impl RuntimeVersion {
    /// Both versions zero.
    pub fn new() -> (r: Self)
        ensures
            r.tomcat == (Version { major: 0u32, minor: 0u32, revise: 0u32 }),
            r.jvm == (Version { major: 0u32, minor: 0u32, revise: 0u32 }),
    {
        Self { tomcat: Version::new(), jvm: Version::new() }
    }
}

/// One line of `ServerInfo` output applied to the versions read so far:
/// a `Server number:` line sets the Tomcat version, a `JVM Version:`
/// line the JVM version (a `1.8.0...` JVM is recorded as major 8).
pub open spec fn info_step(rv: RuntimeVersion, line: Seq<char>) -> Result<
    RuntimeVersion,
    Seq<char>,
> {
    if starts_with(line, "Server number:"@) {
        let rest = trim_spec(line.subrange("Server number:"@.len() as int, line.len() as int));
        match spec_version(rest) {
            Ok(v) => Ok(RuntimeVersion { tomcat: v, ..rv }),
            Err(m) => Err(m),
        }
    } else if starts_with(line, "JVM Version:"@) {
        let rest = trim_spec(line.subrange("JVM Version:"@.len() as int, line.len() as int));
        if starts_with(rest, "1.8.0"@) {
            Ok(RuntimeVersion { jvm: Version { major: 8u32, ..rv.jvm }, ..rv })
        } else {
            match spec_version(rest) {
                Ok(v) => Ok(RuntimeVersion { jvm: v, ..rv }),
                Err(m) => Err(m),
            }
        }
    } else {
        Ok(rv)
    }
}

/// The version lines folded over the whole output.
pub open spec fn info_fold(lines: Seq<Seq<char>>, rv: RuntimeVersion) -> Result<
    RuntimeVersion,
    Seq<char>,
>
    decreases lines.len(),
{
    if lines.len() == 0 {
        Ok(rv)
    } else {
        match info_step(rv, lines[0]) {
            Ok(rv2) => info_fold(lines.drop_first(), rv2),
            Err(m) => Err(m),
        }
    }
}

/// Reads the Tomcat and JVM versions out of the lines that
/// `org.apache.catalina.util.ServerInfo` printed; the shell runs the
/// JVM and hands the lines over.
pub fn parse_server_info(lines: &Vec<String>) -> (r: Result<RuntimeVersion, String>)
    ensures
        match r {
            Ok(rv) => info_fold(lines.deep_view(), RuntimeVersion::spec_zero()) == Ok::<
                RuntimeVersion,
                Seq<char>,
            >(rv),
            Err(m) => info_fold(lines.deep_view(), RuntimeVersion::spec_zero()) == Err::<
                RuntimeVersion,
                Seq<char>,
            >(m@),
        },
{
    let ghost ls = lines.deep_view();
    let mut rv = RuntimeVersion::new();
    let n = lines.len();
    let mut i: usize = 0;
    proof {
        assert(ls.skip(0) =~= ls);
    }
    while i < n
        invariant
            0 <= i <= n,
            n == lines@.len(),
            ls == lines.deep_view(),
            info_fold(ls, RuntimeVersion::spec_zero()) == info_fold(ls.skip(i as int), rv),
        decreases n - i,
    {
        proof {
            assert(ls.skip(i as int)[0] == ls[i as int]);
            assert(ls.skip(i as int).drop_first() =~= ls.skip(i as int + 1));
            assert(ls[i as int] == lines@[i as int]@);
        }
        let line = lines[i].as_str();
        let ghost stepped = info_step(rv, ls[i as int]);
        if str_starts_with(line, "Server number:") {
            let plen = "Server number:".unicode_len();
            let rest = trim(line.substring_char(plen, line.unicode_len()));
            match Version::parse(rest) {
                Ok(v) => {
                    rv = RuntimeVersion { tomcat: v, jvm: rv.jvm };
                },
                Err(m) => {
                    return Err(m);
                },
            }
        } else if str_starts_with(line, "JVM Version:") {
            let plen = "JVM Version:".unicode_len();
            let rest = trim(line.substring_char(plen, line.unicode_len()));
            if str_starts_with(rest, "1.8.0") {
                rv = RuntimeVersion {
                    jvm: Version { major: 8, minor: rv.jvm.minor, revise: rv.jvm.revise },
                    tomcat: rv.tomcat,
                };
            } else {
                match Version::parse(rest) {
                    Ok(v) => {
                        rv = RuntimeVersion { jvm: v, tomcat: rv.tomcat };
                    },
                    Err(m) => {
                        return Err(m);
                    },
                }
            }
        }
        proof {
            assert(stepped == Ok::<RuntimeVersion, Seq<char>>(rv));
        }
        i = i + 1;
    }
    proof {
        assert(ls.skip(n as int) =~= Seq::<Seq<char>>::empty());
    }
    Ok(rv)
}

impl RuntimeVersion {
    /// Both versions zero, for specs.
    pub open spec fn spec_zero() -> RuntimeVersion {
        RuntimeVersion {
            tomcat: Version { major: 0, minor: 0, revise: 0 },
            jvm: Version { major: 0, minor: 0, revise: 0 },
        }
    }
}

/// A Tomcat installation put to work for one project: where Tomcat
/// lives, the per-project base directory, and the Java to run it with.
#[derive(Debug)]
pub struct Tomcat {
    pub catalina_home: String,
    pub catalina_base: String,
    pub java_home: String,
}

/// The configuration files copied from the installation into a fresh
/// base directory (the server configuration itself is generated, not
/// copied).
pub open spec fn conf_names() -> Seq<Seq<char>> {
    seq![
        "catalina.policy"@,
        "catalina.properties"@,
        "context.xml"@,
        "jaspic-providers.xml"@,
        "jaspic-providers.xsd"@,
        "logging.properties"@,
        "tomcat-users.xml"@,
        "tomcat-users.xsd"@,
        "web.xml"@,
    ]
}

impl Tomcat {
    /// Binds the three directories together.
    pub fn new(java_home: &str, catalina_home: &str, catalina_base: &str) -> (r: Self)
        ensures
            r.java_home@ == java_home@,
            r.catalina_home@ == catalina_home@,
            r.catalina_base@ == catalina_base@,
    {
        Self {
            java_home: String::from_str(java_home),
            catalina_home: String::from_str(catalina_home),
            catalina_base: String::from_str(catalina_base),
        }
    }

    /// The directories a fresh `CATALINA_BASE` needs, in creation
    /// order: the base itself, then `conf`, `logs` and `webapps`. The
    /// shell creates the ones that do not exist.
    pub fn init_catalina_base(&self, windows: bool) -> (r: Vec<String>)
        ensures
            r.deep_view() == seq![
                self.catalina_base@,
                joined(self.catalina_base@, "conf"@, windows),
                joined(self.catalina_base@, "logs"@, windows),
                joined(self.catalina_base@, "webapps"@, windows),
            ],
    {
        let mut dirs: Vec<String> = Vec::new();
        dirs.push(self.catalina_base.clone());
        dirs.push(join_path(self.catalina_base.as_str(), "conf", windows));
        dirs.push(join_path(self.catalina_base.as_str(), "logs", windows));
        dirs.push(join_path(self.catalina_base.as_str(), "webapps", windows));
        proof {
            assert(dirs.deep_view() =~= seq![
                self.catalina_base@,
                joined(self.catalina_base@, "conf"@, windows),
                joined(self.catalina_base@, "logs"@, windows),
                joined(self.catalina_base@, "webapps"@, windows),
            ]);
        }
        dirs
    }

    /// The copies that populate a fresh base `conf` directory: each
    /// stock configuration file of the installation, paired with its
    /// place under the base. The shell copies the ones not already
    /// present.
    pub fn copy_configs(&self, windows: bool) -> (r: Vec<(String, String)>)
        ensures
            r@.len() == conf_names().len(),
            forall|i: int|
                0 <= i < r@.len() ==> {
                    &&& (#[trigger] r@[i]).0@ == joined(
                        joined(self.catalina_home@, "conf"@, windows),
                        conf_names()[i],
                        windows,
                    )
                    &&& r@[i].1@ == joined(
                        joined(self.catalina_base@, "conf"@, windows),
                        conf_names()[i],
                        windows,
                    )
                },
    {
        let home_conf = join_path(self.catalina_home.as_str(), "conf", windows);
        let base_conf = join_path(self.catalina_base.as_str(), "conf", windows);
        let files = vec![
            "catalina.policy",
            "catalina.properties",
            "context.xml",
            "jaspic-providers.xml",
            "jaspic-providers.xsd",
            "logging.properties",
            "tomcat-users.xml",
            "tomcat-users.xsd",
            "web.xml",
        ];
        let ghost fv = files.deep_view();
        proof {
            assert(fv =~= conf_names());
        }
        let mut pairs: Vec<(String, String)> = Vec::new();
        let n = files.len();
        let mut i: usize = 0;
        while i < n
            invariant
                0 <= i <= n,
                n == files@.len(),
                fv == files.deep_view(),
                fv == conf_names(),
                home_conf@ == joined(self.catalina_home@, "conf"@, windows),
                base_conf@ == joined(self.catalina_base@, "conf"@, windows),
                pairs@.len() == i,
                forall|k: int|
                    0 <= k < i ==> {
                        &&& (#[trigger] pairs@[k]).0@ == joined(
                            joined(self.catalina_home@, "conf"@, windows),
                            conf_names()[k],
                            windows,
                        )
                        &&& pairs@[k].1@ == joined(
                            joined(self.catalina_base@, "conf"@, windows),
                            conf_names()[k],
                            windows,
                        )
                    },
            decreases n - i,
        {
            proof {
                assert(files.deep_view()[i as int] == files@[i as int]@);
            }
            let source = join_path(home_conf.as_str(), files[i], windows);
            let target = join_path(base_conf.as_str(), files[i], windows);
            pairs.push((source, target));
            i = i + 1;
        }
        pairs
    }
}

} // verus!
