//! Platform helpers: the one trusted probe for the platform, and the
//! paths of the java and catalina executables inside their
//! installations, built with the platform's separator.

use vstd::prelude::*;

verus! {

/// Whether this build runs on Windows. The answer is fixed for one
/// build but differs between machines, so nothing is promised of it.
///
/// Relies on std::path::MAIN_SEPARATOR: the platform's path separator
/// character, a backslash exactly on Windows.
#[verifier::external_body]
pub fn is_windows() -> bool {
    std::path::MAIN_SEPARATOR == '\\'
}

/// The path separator of the platform.
pub open spec fn sep_char(windows: bool) -> char {
    if windows {
        '\\'
    } else {
        '/'
    }
}

/// `base`, the platform separator, then `name`.
pub open spec fn joined(base: Seq<char>, name: Seq<char>, windows: bool) -> Seq<char> {
    base.push(sep_char(windows)).add(name)
}

/// Joins a path component onto `base` with the platform's separator.
pub fn join_path(base: &str, name: &str, windows: bool) -> (r: String)
    ensures
        r@ == joined(base@, name@, windows),
{
    let mut s = String::from_str(base);
    if windows {
        s.append("\\");
    } else {
        s.append("/");
    }
    s.append(name);
    proof {
        reveal_strlit("\\");
        reveal_strlit("/");
        assert(s@ =~= joined(base@, name@, windows));
    }
    s
}

/// Path of the catalina startup script under `catalina_home`:
/// `bin/catalina.bat` on Windows, `bin/catalina.sh` elsewhere.
pub fn get_catalina(catalina_home: &str, windows: bool) -> (r: String)
    ensures
        windows ==> r@ == joined(joined(catalina_home@, "bin"@, true), "catalina.bat"@, true),
        !windows ==> r@ == joined(joined(catalina_home@, "bin"@, false), "catalina.sh"@, false),
{
    let bin_folder = join_path(catalina_home, "bin", windows);
    if windows {
        join_path(bin_folder.as_str(), "catalina.bat", windows)
    } else {
        join_path(bin_folder.as_str(), "catalina.sh", windows)
    }
}

/// Path of the java executable under `java_home`: `bin/java.exe` on
/// Windows, `bin/java` elsewhere.
pub fn get_java(java_home: &str, windows: bool) -> (r: String)
    ensures
        windows ==> r@ == joined(joined(java_home@, "bin"@, true), "java.exe"@, true),
        !windows ==> r@ == joined(joined(java_home@, "bin"@, false), "java"@, false),
{
    let bin_folder = join_path(java_home, "bin", windows);
    if windows {
        join_path(bin_folder.as_str(), "java.exe", windows)
    } else {
        join_path(bin_folder.as_str(), "java", windows)
    }
}

} // verus!
