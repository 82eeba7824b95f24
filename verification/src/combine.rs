//! Combination of runtime configurations by priority: the first
//! configuration in the list that carries a setting wins. Path
//! existence is the caller's concern; this layer resolves which value
//! applies and validates the ports.

use vstd::prelude::*;

use crate::app_util::{check_port, port_error_msg, spec_valid_port, AppError};
use crate::domain::RuntimeConfig;

verus! {

/// The first `java_home` set in any configuration's Java settings.
pub open spec fn first_java_home(cfgs: Seq<&RuntimeConfig>) -> Option<Seq<char>>
    decreases cfgs.len(),
{
    if cfgs.len() == 0 {
        None
    } else {
        match cfgs[0].java {
            Some(j) => match j.java_home {
                Some(h) => Some(h@),
                None => first_java_home(cfgs.drop_first()),
            },
            None => first_java_home(cfgs.drop_first()),
        }
    }
}

/// The first `java_options` set in any configuration's Java settings.
pub open spec fn first_java_options(cfgs: Seq<&RuntimeConfig>) -> Option<Seq<char>>
    decreases cfgs.len(),
{
    if cfgs.len() == 0 {
        None
    } else {
        match cfgs[0].java {
            Some(j) => match j.java_options {
                Some(o) => Some(o@),
                None => first_java_options(cfgs.drop_first()),
            },
            None => first_java_options(cfgs.drop_first()),
        }
    }
}

/// The first `tomcat_home` set in any configuration's Tomcat settings.
pub open spec fn first_tomcat_home(cfgs: Seq<&RuntimeConfig>) -> Option<Seq<char>>
    decreases cfgs.len(),
{
    if cfgs.len() == 0 {
        None
    } else {
        match cfgs[0].tomcat {
            Some(t) => match t.tomcat_home {
                Some(h) => Some(h@),
                None => first_tomcat_home(cfgs.drop_first()),
            },
            None => first_tomcat_home(cfgs.drop_first()),
        }
    }
}

/// The first `http_port` set in any configuration's Tomcat settings.
pub open spec fn first_http_port(cfgs: Seq<&RuntimeConfig>) -> Option<u32>
    decreases cfgs.len(),
{
    if cfgs.len() == 0 {
        None
    } else {
        match cfgs[0].tomcat {
            Some(t) => match t.http_port {
                Some(p) => Some(p),
                None => first_http_port(cfgs.drop_first()),
            },
            None => first_http_port(cfgs.drop_first()),
        }
    }
}

/// The first `server_port` set in any configuration's Tomcat settings.
pub open spec fn first_server_port(cfgs: Seq<&RuntimeConfig>) -> Option<u32>
    decreases cfgs.len(),
{
    if cfgs.len() == 0 {
        None
    } else {
        match cfgs[0].tomcat {
            Some(t) => match t.server_port {
                Some(p) => Some(p),
                None => first_server_port(cfgs.drop_first()),
            },
            None => first_server_port(cfgs.drop_first()),
        }
    }
}

/// The first `jpda_port` set in any configuration's Tomcat settings.
pub open spec fn first_jpda_port(cfgs: Seq<&RuntimeConfig>) -> Option<u32>
    decreases cfgs.len(),
{
    if cfgs.len() == 0 {
        None
    } else {
        match cfgs[0].tomcat {
            Some(t) => match t.jpda_port {
                Some(p) => Some(p),
                None => first_jpda_port(cfgs.drop_first()),
            },
            None => first_jpda_port(cfgs.drop_first()),
        }
    }
}

/// The message a missing home directory is rejected with.
pub open spec fn home_missing_msg(setting: Seq<char>, home: Seq<char>) -> Seq<char> {
    setting.add(" '"@).add(home).add("' does not exist"@)
}

/// The message a home directory without its executable is rejected
/// with.
pub open spec fn home_no_exe_msg(setting: Seq<char>, home: Seq<char>, exe: Seq<char>) -> Seq<
    char,
> {
    setting.add(" '"@).add(home).add("' does not contain "@).add(exe).add(" executable"@)
}

/// Accepts the selected `java_home` when the directory exists and holds
/// the java executable; the caller probes the filesystem and hands the
/// two answers in.
pub fn validate_java_home(java_home: &str, home_exists: bool, exe_exists: bool) -> (r: Result<
    (),
    AppError,
>)
    ensures
        (home_exists && exe_exists) ==> r is Ok,
        !home_exists ==> r is Err && r->Err_0 is Action && r->Err_0->Action_0@ == home_missing_msg(
            "java_home"@,
            java_home@,
        ),
        (home_exists && !exe_exists) ==> r is Err && r->Err_0 is Action && r->Err_0->Action_0@
            == home_no_exe_msg("java_home"@, java_home@, "java"@),
{
    if !home_exists {
        let e = AppError::Action(
            String::from_str("java_home '").concat(java_home).concat("' does not exist"),
        );
        proof {
            reveal_strlit("java_home '");
            reveal_strlit("java_home");
            reveal_strlit(" '");
            reveal_strlit("' does not exist");
            assert(e->Action_0@ =~= home_missing_msg("java_home"@, java_home@));
        }
        return Err(e);
    }
    if !exe_exists {
        let e = AppError::Action(
            String::from_str("java_home '").concat(java_home).concat(
                "' does not contain java executable",
            ),
        );
        proof {
            reveal_strlit("java_home '");
            reveal_strlit("java_home");
            reveal_strlit(" '");
            reveal_strlit("' does not contain java executable");
            reveal_strlit("' does not contain ");
            reveal_strlit("java");
            reveal_strlit(" executable");
            assert(e->Action_0@ =~= home_no_exe_msg("java_home"@, java_home@, "java"@));
        }
        return Err(e);
    }
    Ok(())
}

/// Accepts the selected `tomcat_home` when the directory exists and
/// holds the catalina script; the caller probes the filesystem and
/// hands the two answers in.
pub fn validate_tomcat_home(tomcat_home: &str, home_exists: bool, exe_exists: bool) -> (r: Result<
    (),
    AppError,
>)
    ensures
        (home_exists && exe_exists) ==> r is Ok,
        !home_exists ==> r is Err && r->Err_0 is Action && r->Err_0->Action_0@ == home_missing_msg(
            "tomcat_home"@,
            tomcat_home@,
        ),
        (home_exists && !exe_exists) ==> r is Err && r->Err_0 is Action && r->Err_0->Action_0@
            == home_no_exe_msg("tomcat_home"@, tomcat_home@, "catalina"@),
{
    if !home_exists {
        let e = AppError::Action(
            String::from_str("tomcat_home '").concat(tomcat_home).concat("' does not exist"),
        );
        proof {
            reveal_strlit("tomcat_home '");
            reveal_strlit("tomcat_home");
            reveal_strlit(" '");
            reveal_strlit("' does not exist");
            assert(e->Action_0@ =~= home_missing_msg("tomcat_home"@, tomcat_home@));
        }
        return Err(e);
    }
    if !exe_exists {
        let e = AppError::Action(
            String::from_str("tomcat_home '").concat(tomcat_home).concat(
                "' does not contain catalina executable",
            ),
        );
        proof {
            reveal_strlit("tomcat_home '");
            reveal_strlit("tomcat_home");
            reveal_strlit(" '");
            reveal_strlit("' does not contain catalina executable");
            reveal_strlit("' does not contain ");
            reveal_strlit("catalina");
            reveal_strlit(" executable");
            assert(e->Action_0@ =~= home_no_exe_msg("tomcat_home"@, tomcat_home@, "catalina"@));
        }
        return Err(e);
    }
    Ok(())
}

/// A prioritized list of runtime configurations: earlier entries
/// override later ones, setting by setting.
pub struct RuntimeConfigCombine<'a> {
    pub configs: Vec<&'a RuntimeConfig>,
}

impl<'a> RuntimeConfigCombine<'a> {
    /// Combines `configs`, highest priority first.
    pub fn new(configs: Vec<&'a RuntimeConfig>) -> (r: RuntimeConfigCombine<'a>)
        ensures
            r.configs == configs,
    {
        Self { configs }
    }

    /// The `java_home` that applies, or an error when no configuration
    /// sets one. Whether the path exists and holds a java executable is
    /// checked by the caller.
    pub fn java_home(&self) -> (r: Result<&String, AppError>)
        ensures
            match r {
                Ok(v) => first_java_home(self.configs@) == Some(v@),
                Err(e) => first_java_home(self.configs@) is None && e is Action
                    && e->Action_0@ == "java_home is not specified"@,
            },
    {
        let n = self.configs.len();
        let mut i: usize = 0;
        proof {
            assert(self.configs@.skip(0) =~= self.configs@);
        }
        while i < n
            invariant
                0 <= i <= n,
                n == self.configs@.len(),
                first_java_home(self.configs@) == first_java_home(self.configs@.skip(i as int)),
            decreases n - i,
        {
            let c: &RuntimeConfig = self.configs[i];
            proof {
                assert(self.configs@.skip(i as int)[0] == self.configs@[i as int]);
                assert(self.configs@.skip(i as int).drop_first() =~= self.configs@.skip(
                    i as int + 1,
                ));
            }
            match &c.java {
                Some(java) => {
                    match &java.java_home {
                        Some(h) => {
                            return Ok(h);
                        },
                        None => {},
                    }
                },
                None => {},
            }
            i = i + 1;
        }
        Err(AppError::Action(String::from_str("java_home is not specified")))
    }

    /// The `java_options` that apply, or the empty string when no
    /// configuration sets any.
    pub fn java_options(&self) -> (r: &str)
        ensures
            match first_java_options(self.configs@) {
                Some(o) => r@ == o,
                None => r@ == Seq::<char>::empty(),
            },
    {
        let n = self.configs.len();
        let mut i: usize = 0;
        proof {
            assert(self.configs@.skip(0) =~= self.configs@);
        }
        while i < n
            invariant
                0 <= i <= n,
                n == self.configs@.len(),
                first_java_options(self.configs@) == first_java_options(
                    self.configs@.skip(i as int),
                ),
            decreases n - i,
        {
            let c: &RuntimeConfig = self.configs[i];
            proof {
                assert(self.configs@.skip(i as int)[0] == self.configs@[i as int]);
                assert(self.configs@.skip(i as int).drop_first() =~= self.configs@.skip(
                    i as int + 1,
                ));
            }
            match &c.java {
                Some(java) => {
                    match &java.java_options {
                        Some(o) => {
                            return o.as_str();
                        },
                        None => {},
                    }
                },
                None => {},
            }
            i = i + 1;
        }
        proof {
            reveal_strlit("");
        }
        ""
    }

    /// The `tomcat_home` that applies, or an error when no configuration
    /// sets one. Whether the path exists and holds the catalina script
    /// is checked by the caller.
    pub fn tomcat_home(&self) -> (r: Result<&String, AppError>)
        ensures
            match r {
                Ok(v) => first_tomcat_home(self.configs@) == Some(v@),
                Err(e) => first_tomcat_home(self.configs@) is None && e is Action
                    && e->Action_0@ == "tomcat_home is not specified"@,
            },
    {
        let n = self.configs.len();
        let mut i: usize = 0;
        proof {
            assert(self.configs@.skip(0) =~= self.configs@);
        }
        while i < n
            invariant
                0 <= i <= n,
                n == self.configs@.len(),
                first_tomcat_home(self.configs@) == first_tomcat_home(
                    self.configs@.skip(i as int),
                ),
            decreases n - i,
        {
            let c: &RuntimeConfig = self.configs[i];
            proof {
                assert(self.configs@.skip(i as int)[0] == self.configs@[i as int]);
                assert(self.configs@.skip(i as int).drop_first() =~= self.configs@.skip(
                    i as int + 1,
                ));
            }
            match &c.tomcat {
                Some(tomcat) => {
                    match &tomcat.tomcat_home {
                        Some(h) => {
                            return Ok(h);
                        },
                        None => {},
                    }
                },
                None => {},
            }
            i = i + 1;
        }
        Err(AppError::Action(String::from_str("tomcat_home is not specified")))
    }

    /// The `http_port` that applies, validated, or an error when no
    /// configuration sets one or the value is out of range.
    pub fn http_port(&self) -> (r: Result<u32, AppError>)
        ensures
            match first_http_port(self.configs@) {
                Some(p) => (spec_valid_port(p) ==> r == Result::<u32, AppError>::Ok(p)) && (
                !spec_valid_port(p) ==> r is Err && r->Err_0 is Action && r->Err_0->Action_0@
                    == port_error_msg("http_port"@)),
                None => r is Err && r->Err_0 is Action && r->Err_0->Action_0@
                    == "http_port is not specified"@,
            },
    {
        let n = self.configs.len();
        let mut i: usize = 0;
        proof {
            assert(self.configs@.skip(0) =~= self.configs@);
        }
        while i < n
            invariant
                0 <= i <= n,
                n == self.configs@.len(),
                first_http_port(self.configs@) == first_http_port(self.configs@.skip(i as int)),
            decreases n - i,
        {
            let c: &RuntimeConfig = self.configs[i];
            proof {
                assert(self.configs@.skip(i as int)[0] == self.configs@[i as int]);
                assert(self.configs@.skip(i as int).drop_first() =~= self.configs@.skip(
                    i as int + 1,
                ));
            }
            match &c.tomcat {
                Some(tomcat) => {
                    match &tomcat.http_port {
                        Some(p) => {
                            return check_port("http_port", *p);
                        },
                        None => {},
                    }
                },
                None => {},
            }
            i = i + 1;
        }
        Err(AppError::Action(String::from_str("http_port is not specified")))
    }

    /// The `server_port` that applies, validated, or an error when no
    /// configuration sets one or the value is out of range.
    pub fn server_port(&self) -> (r: Result<u32, AppError>)
        ensures
            match first_server_port(self.configs@) {
                Some(p) => (spec_valid_port(p) ==> r == Result::<u32, AppError>::Ok(p)) && (
                !spec_valid_port(p) ==> r is Err && r->Err_0 is Action && r->Err_0->Action_0@
                    == port_error_msg("server_port"@)),
                None => r is Err && r->Err_0 is Action && r->Err_0->Action_0@
                    == "server_port is not specified"@,
            },
    {
        let n = self.configs.len();
        let mut i: usize = 0;
        proof {
            assert(self.configs@.skip(0) =~= self.configs@);
        }
        while i < n
            invariant
                0 <= i <= n,
                n == self.configs@.len(),
                first_server_port(self.configs@) == first_server_port(
                    self.configs@.skip(i as int),
                ),
            decreases n - i,
        {
            let c: &RuntimeConfig = self.configs[i];
            proof {
                assert(self.configs@.skip(i as int)[0] == self.configs@[i as int]);
                assert(self.configs@.skip(i as int).drop_first() =~= self.configs@.skip(
                    i as int + 1,
                ));
            }
            match &c.tomcat {
                Some(tomcat) => {
                    match &tomcat.server_port {
                        Some(p) => {
                            return check_port("server_port", *p);
                        },
                        None => {},
                    }
                },
                None => {},
            }
            i = i + 1;
        }
        Err(AppError::Action(String::from_str("server_port is not specified")))
    }

    /// The `jpda_port` that applies, validated, or an error when no
    /// configuration sets one or the value is out of range.
    pub fn jpda_port(&self) -> (r: Result<u32, AppError>)
        ensures
            match first_jpda_port(self.configs@) {
                Some(p) => (spec_valid_port(p) ==> r == Result::<u32, AppError>::Ok(p)) && (
                !spec_valid_port(p) ==> r is Err && r->Err_0 is Action && r->Err_0->Action_0@
                    == port_error_msg("jpda_port"@)),
                None => r is Err && r->Err_0 is Action && r->Err_0->Action_0@
                    == "jpda_port is not specified"@,
            },
    {
        let n = self.configs.len();
        let mut i: usize = 0;
        proof {
            assert(self.configs@.skip(0) =~= self.configs@);
        }
        while i < n
            invariant
                0 <= i <= n,
                n == self.configs@.len(),
                first_jpda_port(self.configs@) == first_jpda_port(self.configs@.skip(i as int)),
            decreases n - i,
        {
            let c: &RuntimeConfig = self.configs[i];
            proof {
                assert(self.configs@.skip(i as int)[0] == self.configs@[i as int]);
                assert(self.configs@.skip(i as int).drop_first() =~= self.configs@.skip(
                    i as int + 1,
                ));
            }
            match &c.tomcat {
                Some(tomcat) => {
                    match &tomcat.jpda_port {
                        Some(p) => {
                            return check_port("jpda_port", *p);
                        },
                        None => {},
                    }
                },
                None => {},
            }
            i = i + 1;
        }
        Err(AppError::Action(String::from_str("jpda_port is not specified")))
    }
}

} // verus!
