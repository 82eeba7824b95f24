//! Names of the environment variables handed to Tomcat's startup
//! script, and the platform-dependent executable paths inside the
//! Java and Tomcat installations.

use vstd::prelude::*;

verus! {

pub const JAVA_HOME: &'static str = "JAVA_HOME";

pub const CATALINA_HOME: &'static str = "CATALINA_HOME";

pub const CATALINA_BASE: &'static str = "CATALINA_BASE";

pub const CATALINA_OPTS: &'static str = "CATALINA_OPTS";

pub const JPDA_ADDRESS: &'static str = "JPDA_ADDRESS";

pub const TITLE: &'static str = "TITLE";

pub const SERVER_XML: &'static str = "server.xml";

pub const LOG_CONFIG_FILE: &'static str = "logging.properties";

/// Path of the catalina startup script relative to the Tomcat
/// installation: a batch file on Windows, a shell script elsewhere.
pub fn catalina_bin(windows: bool) -> (r: &'static str)
    ensures
        windows ==> r@ == "bin/catalina.bat"@,
        !windows ==> r@ == "bin/catalina.sh"@,
{
    if windows {
        "bin/catalina.bat"
    } else {
        "bin/catalina.sh"
    }
}

/// Path of the java executable relative to the Java installation.
pub fn java_bin(windows: bool) -> (r: &'static str)
    ensures
        windows ==> r@ == "bin/java.exe"@,
        !windows ==> r@ == "bin/java"@,
{
    if windows {
        "bin/java.exe"
    } else {
        "bin/java"
    }
}

} // verus!
