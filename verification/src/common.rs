//! Tool-wide settings read from the INI document: the log level and
//! cache directory, and the default runtime (Java home, Tomcat home,
//! ports). Directory creation and path-existence validation belong to
//! the unverified shell; this layer resolves the values.

use vstd::prelude::*;

use crate::config_error::ConfigurationError;
use crate::ini::{sec_value, Ini};
use crate::text::{eq_nocase, spec_parse_i32, str_eq_nocase};

verus! {

/// Verbosity of the tool's logging, from silence to full tracing.
#[derive(Debug, Clone, Copy, PartialEq, Eq, Structural)]
pub enum LogLevel {
    Off,
    Error,
    Warn,
    Info,
    Debug,
    Trace,
}

/// What parsing a log level name yields: the level whose name matches
/// up to ASCII case, or nothing.
pub open spec fn spec_parse_log_level(s: Seq<char>) -> Option<LogLevel> {
    if eq_nocase(s, "off"@) {
        Some(LogLevel::Off)
    } else if eq_nocase(s, "error"@) {
        Some(LogLevel::Error)
    } else if eq_nocase(s, "warn"@) {
        Some(LogLevel::Warn)
    } else if eq_nocase(s, "info"@) {
        Some(LogLevel::Info)
    } else if eq_nocase(s, "debug"@) {
        Some(LogLevel::Debug)
    } else if eq_nocase(s, "trace"@) {
        Some(LogLevel::Trace)
    } else {
        None
    }
}

/// Parses a log level name, ignoring ASCII case.
pub fn parse_log_level(s: &str) -> (r: Option<LogLevel>)
    ensures
        r == spec_parse_log_level(s@),
{
    if str_eq_nocase(s, "off") {
        Some(LogLevel::Off)
    } else if str_eq_nocase(s, "error") {
        Some(LogLevel::Error)
    } else if str_eq_nocase(s, "warn") {
        Some(LogLevel::Warn)
    } else if str_eq_nocase(s, "info") {
        Some(LogLevel::Info)
    } else if str_eq_nocase(s, "debug") {
        Some(LogLevel::Debug)
    } else if str_eq_nocase(s, "trace") {
        Some(LogLevel::Trace)
    } else {
        None
    }
}

/// Tool-wide settings: log level, and the cache directory (empty when
/// the configuration names none; the shell then falls back to its
/// default cache directory and creates it).
#[derive(Debug)]
pub struct TmsCommon {
    pub log_level: LogLevel,
    pub cache_dir: String,
}

impl TmsCommon {
    /// The built-in defaults: informational logging, no cache directory
    /// chosen yet.
    pub fn new() -> (r: TmsCommon)
        ensures
            r.log_level == LogLevel::Info,
            r.cache_dir@ == Seq::<char>::empty(),
    {
        TmsCommon { log_level: LogLevel::Info, cache_dir: String::new() }
    }

    /// The settings the `common` section of `ini` configures: an
    /// unknown or missing `log_level` falls back to `Info`; a missing
    /// section or `cache_dir` leaves the cache directory empty for the
    /// shell to default.
    pub fn from_ini(ini: &Ini) -> (r: TmsCommon)
        requires
            ini.wf(),
        ensures
            r.log_level == spec_common_log_level(ini@),
            r.cache_dir@ == spec_common_cache_dir(ini@),
    {
        let mut tc = TmsCommon::new();
        match ini.get("common") {
            None => tc,
            Some(section) => {
                match section.get("log_level") {
                    Some(level_text) => {
                        match parse_log_level(level_text.as_str()) {
                            Some(level) => {
                                tc.log_level = level;
                            },
                            None => {},
                        }
                    },
                    None => {},
                }
                match section.get("cache_dir") {
                    Some(cache_dir) => {
                        tc.cache_dir = cache_dir.clone();
                    },
                    None => {},
                }
                tc
            },
        }
    }
}

/// The log level the document's `common` section configures.
pub open spec fn spec_common_log_level(
    doc: Map<Seq<char>, Map<Seq<char>, Option<Seq<char>>>>,
) -> LogLevel {
    if doc.contains_key("common"@) {
        match sec_value(doc["common"@], "log_level"@) {
            Some(text) => match spec_parse_log_level(text) {
                Some(level) => level,
                None => LogLevel::Info,
            },
            None => LogLevel::Info,
        }
    } else {
        LogLevel::Info
    }
}

/// The cache directory the document's `common` section configures,
/// empty when none.
pub open spec fn spec_common_cache_dir(
    doc: Map<Seq<char>, Map<Seq<char>, Option<Seq<char>>>>,
) -> Seq<char> {
    if doc.contains_key("common"@) {
        match sec_value(doc["common"@], "cache_dir"@) {
            Some(dir) => dir,
            None => Seq::empty(),
        }
    } else {
        Seq::empty()
    }
}

/// A port setting read from text: a number in `0..=65535` is accepted,
/// anything else falls back to the default.
pub open spec fn spec_get_port(port: Option<Seq<char>>, default_port: i32) -> i32 {
    match port {
        None => default_port,
        Some(s) => match spec_parse_i32(s) {
            Some(v) => if 0 <= v <= 65535 {
                v
            } else {
                default_port
            },
            None => default_port,
        },
    }
}

/// Reads a port from its text, falling back to `default_port` when the
/// text is absent, not a number, or out of range.
pub fn get_port(port: Option<&String>, default_port: i32) -> (r: i32)
    ensures
        r == spec_get_port(
            match port {
                Some(p) => Some(p@),
                None => None,
            },
            default_port,
        ),
{
    match port {
        None => default_port,
        Some(port) => match crate::text::parse_i32(port.as_str()) {
            Some(val) => {
                if 0 > val || val > 65535 {
                    default_port
                } else {
                    val
                }
            },
            None => default_port,
        },
    }
}

/// The default runtime: where Java and Tomcat live and which ports to
/// use. The paths are kept as written; their validation belongs to the
/// shell.
#[derive(Debug)]
pub struct TmsRuntime {
    pub java_home: String,
    pub java_opts: Option<String>,
    pub catalina_home: String,
    pub enable_logfile: bool,
    pub http_port: i32,
    pub server_port: i32,
    pub jpda_port: i32,
}

impl TmsRuntime {
    /// The built-in defaults: no homes, no extra options, no log file,
    /// the standard three ports.
    pub fn new() -> (r: TmsRuntime)
        ensures
            r.java_home@ == Seq::<char>::empty(),
            r.java_opts is None,
            r.catalina_home@ == Seq::<char>::empty(),
            r.enable_logfile == false,
            r.http_port == 8080,
            r.server_port == 8005,
            r.jpda_port == 5005,
    {
        TmsRuntime {
            java_home: String::new(),
            java_opts: None,
            catalina_home: String::new(),
            enable_logfile: false,
            http_port: 8080,
            server_port: 8005,
            jpda_port: 5005,
        }
    }

    /// The runtime the `runtime` section of `ini` configures: without
    /// the section, the defaults; with it, `java_home` and
    /// `catalina_home` are required (whether the paths hold the
    /// executables is the shell's check), the ports fall back to their
    /// defaults, and `enable_logfile` is on for a value of `true` in
    /// any ASCII case.
    pub fn from_ini(ini: &Ini) -> (r: Result<TmsRuntime, ConfigurationError>)
        requires
            ini.wf(),
        ensures
            !ini@.contains_key("runtime"@) ==> r is Ok && r->Ok_0.java_home@ == Seq::<
                char,
            >::empty() && r->Ok_0.java_opts is None && r->Ok_0.catalina_home@ == Seq::<
                char,
            >::empty() && r->Ok_0.enable_logfile == false && r->Ok_0.http_port == 8080
                && r->Ok_0.server_port == 8005 && r->Ok_0.jpda_port == 5005,
            ini@.contains_key("runtime"@) ==> {
                let sec = ini@["runtime"@];
                match r {
                    Ok(tr) => {
                        &&& sec_value(sec, "java_home"@) == Some(tr.java_home@)
                        &&& sec_value(sec, "catalina_home"@) == Some(tr.catalina_home@)
                        &&& tr.http_port == spec_get_port(sec_value(sec, "http_port"@), 8080)
                        &&& tr.server_port == spec_get_port(sec_value(sec, "server_port"@), 8005)
                        &&& tr.jpda_port == spec_get_port(sec_value(sec, "jpda_port"@), 5005)
                        &&& crate::ini::opt_seq(tr.java_opts) == sec_value(sec, "java_opts"@)
                        &&& tr.enable_logfile == (match sec_value(sec, "enable_logfile"@) {
                            Some(v) => eq_nocase("true"@, v),
                            None => false,
                        })
                    },
                    Err(e) => {
                        &&& (sec_value(sec, "java_home"@) is None || sec_value(
                            sec,
                            "catalina_home"@,
                        ) is None)
                        &&& (sec_value(sec, "java_home"@) is None ==> e.msg@
                            == "Please configure JAVA_HOME with 'runtime.java_home' in the configuration file"@)
                        &&& (sec_value(sec, "java_home"@) is Some ==> e.msg@
                            == "Please configure CATALINA_HOME with 'runtime.catalina_home' in the configuration file"@)
                    },
                }
            },
    {
        let mut tr = TmsRuntime::new();
        match ini.get("runtime") {
            None => Ok(tr),
            Some(section) => {
                match section.get("java_home") {
                    Some(java_home) => {
                        tr.java_home = java_home.clone();
                    },
                    None => {
                        return Err(
                            ConfigurationError::from_text(
                                "Please configure JAVA_HOME with 'runtime.java_home' in the configuration file",
                            ),
                        );
                    },
                }
                match section.get("catalina_home") {
                    Some(catalina_home) => {
                        tr.catalina_home = catalina_home.clone();
                    },
                    None => {
                        return Err(
                            ConfigurationError::from_text(
                                "Please configure CATALINA_HOME with 'runtime.catalina_home' in the configuration file",
                            ),
                        );
                    },
                }
                tr.http_port = get_port(section.get("http_port"), tr.http_port);
                tr.server_port = get_port(section.get("server_port"), tr.server_port);
                tr.jpda_port = get_port(section.get("jpda_port"), tr.jpda_port);
                match section.get("java_opts") {
                    Some(val) => {
                        tr.java_opts = Some(val.clone());
                    },
                    None => {},
                }
                match section.get("enable_logfile") {
                    Some(val) => {
                        tr.enable_logfile = str_eq_nocase("true", val.as_str());
                    },
                    None => {},
                }
                Ok(tr)
            },
        }
    }
}

} // verus!
