//! Builds the java command line that starts Tomcat: the executable, the
//! system properties, the classpath and the launch arguments, as a
//! plain command plan the shell turns into a process.

use vstd::prelude::*;

use crate::os_utils::{get_java, is_windows, join_path, joined};
use crate::text::{dec_str_signed, i32_to_string, split_by, split_str, str_starts_with, trim, trim_spec};
use crate::tomcat::RuntimeVersion;

verus! {

/// The java executable under `java_home` for this platform.
pub open spec fn spec_java_exe(java_home: Seq<char>, windows: bool) -> Seq<char> {
    if windows {
        joined(joined(java_home, "bin"@, true), "java.exe"@, true)
    } else {
        joined(joined(java_home, "bin"@, false), "java"@, false)
    }
}

/// The arguments `with_java_opts` appends: each piece of the options
/// split at ` -`, trimmed, given back its leading dash when the split
/// consumed it.
pub open spec fn opts_args(pieces: Seq<Seq<char>>) -> Seq<Seq<char>>
    decreases pieces.len(),
{
    if pieces.len() == 0 {
        Seq::empty()
    } else {
        let t = trim_spec(pieces[0]);
        let arg = if t.len() > 0 && t[0] == '-' {
            t
        } else {
            seq!['-'].add(t)
        };
        seq![arg].add(opts_args(pieces.drop_first()))
    }
}

/// The classpath argument: the bootstrap jar and the juli jar, joined
/// with the platform's search-path separator.
pub open spec fn spec_classpath(home: Seq<char>, windows: bool) -> Seq<char> {
    let bin = joined(home, "bin"@, windows);
    let bootstrap = joined(bin, "bootstrap.jar"@, windows);
    let juli = joined(bin, "tomcat-juli.jar"@, windows);
    if windows {
        bootstrap.push(';').add(juli)
    } else {
        bootstrap.push(':').add(juli)
    }
}

/// A command ready to run: the program, its arguments, and extra
/// environment variables. The shell spawns it.
pub struct CommandPlan {
    pub program: String,
    pub args: Vec<String>,
    pub env: Vec<(String, String)>,
}

/// Builds the Tomcat start command step by step.
pub struct CommandLineBuilder {
    pub version: RuntimeVersion,
    pub separate: bool,
    pub windows: bool,
    pub commands: Vec<String>,
}

impl CommandLineBuilder {
    /// Starts an empty command for this runtime; `separate` asks for a
    /// separate window or detached process. The platform is probed once
    /// here.
    pub fn new(version: &RuntimeVersion, separate: bool) -> (r: Self)
        ensures
            r.version == *version,
            r.separate == separate,
            r.commands@ == Seq::<String>::empty(),
    {
        Self { version: *version, separate, windows: is_windows(), commands: Vec::new() }
    }

    /// Appends the java executable and the `-server` flag.
    pub fn with_java_home(&mut self, java_home: &str)
        ensures
            final (self).version == old(self).version,
            final (self).separate == old(self).separate,
            final (self).windows == old(self).windows,
            final (self).commands.deep_view() == old(self).commands.deep_view().push(
                spec_java_exe(java_home@, old(self).windows),
            ).push("-server"@),
    {
        let ghost before = self.commands.deep_view();
        let java_exe = get_java(java_home, self.windows);
        self.commands.push(java_exe);
        self.commands.push(String::from_str("-server"));
        proof {
            assert(self.commands.deep_view() =~= before.push(
                spec_java_exe(java_home@, old(self).windows),
            ).push("-server"@));
        }
    }

    /// Appends the configured java options, one argument per ` -`
    /// separated piece, restoring the dash the split consumed.
    pub fn with_java_opts(&mut self, java_opts: &str)
        ensures
            final (self).version == old(self).version,
            final (self).separate == old(self).separate,
            final (self).windows == old(self).windows,
            final (self).commands.deep_view() == old(self).commands.deep_view().add(
                opts_args(split_by(java_opts@, " -"@)),
            ),
    {
        proof {
            reveal_strlit(" -");
        }
        let pieces = split_str(java_opts, " -");
        let ghost pvs = pieces.deep_view();
        let ghost before = self.commands.deep_view();
        let n = pieces.len();
        let mut i: usize = 0;
        proof {
            assert(pvs.skip(0) =~= pvs);
            assert(self.commands.deep_view() =~= before.add(opts_args(pvs.take(0))));
        }
        while i < n
            invariant
                0 <= i <= n,
                n == pvs.len(),
                pvs == pieces.deep_view(),
                self.version == old(self).version,
                self.separate == old(self).separate,
                self.windows == old(self).windows,
                self.commands.deep_view() == before.add(opts_args(pvs.take(i as int))),
            decreases n - i,
        {
            proof {
                assert(pieces@[i as int]@ == pvs[i as int]);
            }
            let opt = trim(pieces[i].as_str());
            let ghost cs = self.commands.deep_view();
            if str_starts_with(opt, "-") {
                self.commands.push(String::from_str(opt));
                proof {
                    reveal_strlit("-");
                    assert(opt@.subrange(0, 1)[0] == opt@[0]);
                    assert(trim_spec(pvs[i as int])[0] == '-');
                    assert(self.commands.deep_view() =~= cs.push(trim_spec(pvs[i as int])));
                }
            } else {
                let mut dashed = String::from_str("-");
                dashed.append(opt);
                self.commands.push(dashed);
                proof {
                    reveal_strlit("-");
                    let t = trim_spec(pvs[i as int]);
                    if t.len() > 0 && t[0] == '-' {
                        assert(opt@.subrange(0, 1) =~= "-"@);
                        assert(false);
                    }
                    assert(dashed@ =~= seq!['-'].add(t));
                    assert(self.commands.deep_view() =~= cs.push(seq!['-'].add(t)));
                }
            }
            proof {
                lemma_opts_args_take(pvs, i as int);
                assert(self.commands.deep_view() =~= before.add(opts_args(pvs.take(i as int + 1))));
            }
            i = i + 1;
        }
        proof {
            assert(pvs.take(n as int) =~= pvs);
        }
    }

    /// Appends the JPDA debug agent argument listening on `port`.
    pub fn with_debug(&mut self, port: i32)
        ensures
            final (self).version == old(self).version,
            final (self).separate == old(self).separate,
            final (self).windows == old(self).windows,
            final (self).commands.deep_view() == old(self).commands.deep_view().push(
                "-agentlib:jdwp=transport=dt_socket,address=0.0.0.0:"@.add(
                    dec_str_signed(port as int),
                ).add(",server=y,suspend=n"@),
            ),
    {
        let ghost before = self.commands.deep_view();
        let mut cmd = String::from_str("-agentlib:jdwp=transport=dt_socket,address=0.0.0.0:");
        cmd.append(i32_to_string(port).as_str());
        cmd.append(",server=y,suspend=n");
        self.commands.push(cmd);
        proof {
            assert(self.commands.deep_view() =~= before.push(
                "-agentlib:jdwp=transport=dt_socket,address=0.0.0.0:"@.add(
                    dec_str_signed(port as int),
                ).add(",server=y,suspend=n"@),
            ));
        }
    }

    /// Appends the logging configuration: the log file property when a
    /// log file is in use (the shell passes it only when the file
    /// exists), then Tomcat's log manager.
    pub fn with_log(&mut self, logfile: Option<&str>)
        ensures
            final (self).version == old(self).version,
            final (self).separate == old(self).separate,
            final (self).windows == old(self).windows,
            final (self).commands.deep_view() == (match logfile {
                Some(f) => old(self).commands.deep_view().push(
                    "-Djava.util.logging.config.file="@.add(f@),
                ),
                None => old(self).commands.deep_view(),
            }).push("-Djava.util.logging.manager=org.apache.juli.ClassLoaderLogManager"@),
    {
        let ghost before = self.commands.deep_view();
        match logfile {
            Some(file) => {
                let mut cmd = String::from_str("-Djava.util.logging.config.file=");
                cmd.append(file);
                self.commands.push(cmd);
                proof {
                    assert(self.commands.deep_view() =~= before.push(
                        "-Djava.util.logging.config.file="@.add(file@),
                    ));
                }
            },
            None => {},
        }
        let ghost mid = self.commands.deep_view();
        self.commands.push(
            String::from_str("-Djava.util.logging.manager=org.apache.juli.ClassLoaderLogManager"),
        );
        proof {
            assert(self.commands.deep_view() =~= mid.push(
                "-Djava.util.logging.manager=org.apache.juli.ClassLoaderLogManager"@,
            ));
        }
    }

    /// The arguments `with_catalina` appends for a home, a base, a
    /// Tomcat major version and a platform.
    pub open spec fn catalina_args(
        home: Seq<char>,
        base: Seq<char>,
        major: u32,
        windows: bool,
    ) -> Seq<Seq<char>> {
        let head: Seq<Seq<char>> = seq!["-Dnop"@, "-Djdk.tls.ephemeralDHKeySize=2048"@];
        let head2 = if major > 7 {
            head.push("-Djava.protocol.handler.pkgs=org.apache.catalina.webresources"@)
        } else {
            head
        };
        head2.push("-Dignore.endorsed.dirs="@).push("-Dcatalina.home="@.add(home)).push(
            "-Dcatalina.base="@.add(base),
        ).push("-Djava.io.tmpdir="@.add(joined(base, "temp"@, windows))).push("-classpath"@).push(
            spec_classpath(home, windows),
        )
    }

    /// Appends the Tomcat system properties and the classpath for the
    /// given home and base directories.
    pub fn with_catalina(&mut self, home: &str, base: &str)
        ensures
            final (self).version == old(self).version,
            final (self).separate == old(self).separate,
            final (self).windows == old(self).windows,
            final (self).commands.deep_view() == old(self).commands.deep_view().add(
                Self::catalina_args(
                    home@,
                    base@,
                    old(self).version.tomcat.major,
                    old(self).windows,
                ),
            ),
    {
        let ghost before = self.commands.deep_view();
        let home_bin = join_path(home, "bin", self.windows);
        let base_temp = join_path(base, "temp", self.windows);
        self.commands.push(String::from_str("-Dnop"));
        self.commands.push(String::from_str("-Djdk.tls.ephemeralDHKeySize=2048"));
        if self.version.tomcat.major > 7 {
            self.commands.push(
                String::from_str("-Djava.protocol.handler.pkgs=org.apache.catalina.webresources"),
            );
        }
        self.commands.push(String::from_str("-Dignore.endorsed.dirs="));
        let mut dhome = String::from_str("-Dcatalina.home=");
        dhome.append(home);
        self.commands.push(dhome);
        let mut dbase = String::from_str("-Dcatalina.base=");
        dbase.append(base);
        self.commands.push(dbase);
        let mut dtmp = String::from_str("-Djava.io.tmpdir=");
        dtmp.append(base_temp.as_str());
        self.commands.push(dtmp);
        let bootstrap_jar = join_path(home_bin.as_str(), "bootstrap.jar", self.windows);
        let tomcat_juli_jar = join_path(home_bin.as_str(), "tomcat-juli.jar", self.windows);
        self.commands.push(String::from_str("-classpath"));
        let mut cp = bootstrap_jar;
        if self.windows {
            cp.append(";");
        } else {
            cp.append(":");
        }
        cp.append(tomcat_juli_jar.as_str());
        proof {
            reveal_strlit(";");
            reveal_strlit(":");
            assert(cp@ =~= spec_classpath(home@, old(self).windows));
        }
        self.commands.push(cp);
        proof {
            assert(self.commands.deep_view() =~= before.add(
                Self::catalina_args(
                    home@,
                    base@,
                    old(self).version.tomcat.major,
                    old(self).windows,
                ),
            ));
        }
    }

    /// The extra JVM options a modern JVM needs to open its modules.
    pub fn jdk_java_options() -> (r: &'static str)
        ensures
            r@ == jdk_open_options(),
    {
        "--add-opens=java.base/java.lang=ALL-UNNAMED
            --add-opens=java.base/java.io=ALL-UNNAMED
            --add-opens=java.base/java.util=ALL-UNNAMED
            --add-opens=java.base/java.util.concurrent=ALL-UNNAMED
            --add-opens=java.rmi/sun.rmi.transport=ALL-UNNAMED"
    }

    /// Finishes the command: appends the bootstrap class and the
    /// `start` argument, then plans the process. A separate launch goes
    /// through `cmd.exe START` on Windows (titled) and `nohup`
    /// elsewhere, handing the whole command as arguments; a direct
    /// launch runs the first command word as the program. A JVM
    /// reporting version 1.x with x above 8 gets the module-opening
    /// options in its environment.
    pub fn build(&mut self, title: &str) -> (r: CommandPlan)
        ensures
            final (self).commands.deep_view() == old(self).commands.deep_view().push(
                "org.apache.catalina.startup.Bootstrap"@,
            ).push("start"@),
            ({
                let cmds = final (self).commands.deep_view();
                &&& (old(self).separate && old(self).windows) ==> r.program@ == "cmd.exe"@
                    && r.args.deep_view() == seq!["/c"@, "START"@, "/I"@, title@].add(cmds)
                &&& (old(self).separate && !old(self).windows) ==> r.program@ == "nohup"@
                    && r.args.deep_view() == cmds
                &&& !old(self).separate ==> r.program@ == cmds[0] && r.args.deep_view()
                    == cmds.skip(1)
            }),
            ({
                let modern = old(self).version.jvm.major == 1 && old(self).version.jvm.minor > 8;
                &&& modern ==> r.env.deep_view() == seq![
                    ("JDK_JAVA_OPTIONS"@, jdk_open_options()),
                ]
                &&& !modern ==> r.env.deep_view() == Seq::<(Seq<char>, Seq<char>)>::empty()
            }),
    {
        let ghost before = self.commands.deep_view();
        self.commands.push(String::from_str("org.apache.catalina.startup.Bootstrap"));
        self.commands.push(String::from_str("start"));
        proof {
            assert(self.commands.deep_view() =~= before.push(
                "org.apache.catalina.startup.Bootstrap"@,
            ).push("start"@));
        }
        let mut env: Vec<(String, String)> = Vec::new();
        if self.version.jvm.major == 1 && self.version.jvm.minor > 8 {
            env.push(
                (String::from_str("JDK_JAVA_OPTIONS"), String::from_str(Self::jdk_java_options())),
            );
            proof {
                assert(env.deep_view() =~= seq![("JDK_JAVA_OPTIONS"@, jdk_open_options())]);
            }
        } else {
            proof {
                assert(env.deep_view() =~= Seq::<(Seq<char>, Seq<char>)>::empty());
            }
        }
        if self.separate {
            if self.windows {
                let mut args: Vec<String> = Vec::new();
                args.push(String::from_str("/c"));
                args.push(String::from_str("START"));
                args.push(String::from_str("/I"));
                args.push(String::from_str(title));
                let mut rest = clone_strings(&self.commands);
                args.append(&mut rest);
                proof {
                    assert(args.deep_view() =~= seq!["/c"@, "START"@, "/I"@, title@].add(
                        self.commands.deep_view(),
                    ));
                }
                CommandPlan { program: String::from_str("cmd.exe"), args, env }
            } else {
                let args = clone_strings(&self.commands);
                CommandPlan { program: String::from_str("nohup"), args, env }
            }
        } else {
            let program = self.commands[0].clone();
            let mut args = clone_strings(&self.commands);
            let first = args.remove(0);
            proof {
                assert(args.deep_view() =~= self.commands.deep_view().skip(1));
            }
            CommandPlan { program, args, env }
        }
    }
}

/// What `JDK_JAVA_OPTIONS` is set to for a modern JVM.
pub open spec fn jdk_open_options() -> Seq<char> {
    "--add-opens=java.base/java.lang=ALL-UNNAMED
            --add-opens=java.base/java.io=ALL-UNNAMED
            --add-opens=java.base/java.util=ALL-UNNAMED
            --add-opens=java.base/java.util.concurrent=ALL-UNNAMED
            --add-opens=java.rmi/sun.rmi.transport=ALL-UNNAMED"@
}

/// The step taken arguments of `opts_args` over a one-longer prefix.
proof fn lemma_opts_args_take(pieces: Seq<Seq<char>>, i: int)
    requires
        0 <= i < pieces.len(),
    ensures
        opts_args(pieces.take(i + 1)) == opts_args(pieces.take(i)).push(
            {
                let t = trim_spec(pieces[i]);
                if t.len() > 0 && t[0] == '-' {
                    t
                } else {
                    seq!['-'].add(t)
                }
            },
        ),
    decreases i,
{
    if i == 0 {
        assert(pieces.take(1).drop_first() =~= pieces.take(0));
        assert(pieces.take(1)[0] == pieces[0]);
        assert(opts_args(pieces.take(0)) =~= Seq::<Seq<char>>::empty());
        assert(opts_args(pieces.take(1)) =~= opts_args(pieces.take(0)).push(
            {
                let t = trim_spec(pieces[0]);
                if t.len() > 0 && t[0] == '-' {
                    t
                } else {
                    seq!['-'].add(t)
                }
            },
        ));
    } else {
        lemma_opts_args_take(pieces.drop_first(), i - 1);
        assert(pieces.take(i + 1).drop_first() =~= pieces.drop_first().take(i));
        assert(pieces.take(i).drop_first() =~= pieces.drop_first().take(i - 1));
        assert(pieces.take(i + 1)[0] == pieces[0]);
        assert(pieces.take(i)[0] == pieces[0]);
        assert(pieces.drop_first()[i - 1] == pieces[i]);
        assert(opts_args(pieces.take(i + 1)) =~= opts_args(pieces.take(i)).push(
            {
                let t = trim_spec(pieces[i]);
                if t.len() > 0 && t[0] == '-' {
                    t
                } else {
                    seq!['-'].add(t)
                }
            },
        ));
    }
}

/// An independent copy of a list of strings.
fn clone_strings(v: &Vec<String>) -> (r: Vec<String>)
    ensures
        r.deep_view() == v.deep_view(),
        r@ == v@,
{
    let mut out: Vec<String> = Vec::new();
    let n = v.len();
    let mut i: usize = 0;
    while i < n
        invariant
            0 <= i <= n,
            n == v@.len(),
            out@ =~= v@.take(i as int),
        decreases n - i,
    {
        out.push(v[i].clone());
        i = i + 1;
    }
    proof {
        assert(out@ =~= v@);
        assert(out.deep_view() =~= v.deep_view());
    }
    out
}

} // verus!
