//! Tests of the Tomcat side: version parsing, the base-directory plan,
//! the command-line builder and the server document.

use tms::argument::{CleanTypeEnum, TmsArgActionRun};
use tms::cli::CommandLineBuilder;
use tms::common::{TmsCommon, TmsRuntime};
use tms::configuration::{get_cache_dir, TmsConfiguration};
use tms::interp::EnvVars;
use tms::loader::IniLoader;
use tms::os_utils::{get_catalina, get_java, join_path};
use tms::run_action::{Items, RunAction};
use tms::server_xml::ServerXml;
use tms::text::{i32_to_string, u32_to_string};
use tms::tomcat::{parse_server_info, RuntimeVersion, Tomcat, Version};

#[test]
fn decimal_rendering() {
    assert_eq!(u32_to_string(0), "0");
    assert_eq!(u32_to_string(8080), "8080");
    assert_eq!(u32_to_string(u32::MAX), "4294967295");
    assert_eq!(i32_to_string(-5005), "-5005");
    assert_eq!(i32_to_string(i32::MIN), "-2147483648");
    assert_eq!(i32_to_string(7), "7");
}

#[test]
fn version_parsing() {
    let v = Version::parse("8.5.85.0").unwrap();
    assert_eq!((v.major, v.minor, v.revise), (8, 5, 85));
    let v = Version::parse("11").unwrap();
    assert_eq!((v.major, v.minor, v.revise), (11, 0, 0));
    let v = Version::parse("1.8").unwrap();
    assert_eq!((v.major, v.minor, v.revise), (1, 8, 0));
    assert!(Version::parse("abc").is_err());
    assert_eq!(Version::parse_version("0"), Ok(0));
    assert_eq!(Version::parse_version("17"), Ok(17));
    assert_eq!(
        Version::parse_version("x"),
        Err("invalid version number: x".to_string())
    );
}

#[test]
fn server_info_parsing() {
    let lines: Vec<String> = vec![
        "Server version: Apache Tomcat/9.0.73".to_string(),
        "Server number:  9.0.73.0".to_string(),
        "OS Name:        Linux".to_string(),
        "JVM Version:    11.0.18+10".to_string(),
    ];
    // the JVM build suffix is not a version component
    assert!(parse_server_info(&lines).is_err());

    let lines: Vec<String> = vec![
        "Server number:  9.0.73.0".to_string(),
        "JVM Version:    11.0.18".to_string(),
    ];
    let rv = parse_server_info(&lines).unwrap();
    assert_eq!(rv.tomcat.major, 9);
    assert_eq!(rv.jvm.major, 11);

    let legacy: Vec<String> = vec![
        "Server number:  7.0.109.0".to_string(),
        "JVM Version:    1.8.0_362-b09".to_string(),
    ];
    let rv = parse_server_info(&legacy).unwrap();
    assert_eq!(rv.tomcat.major, 7);
    assert_eq!(rv.jvm.major, 8);
    assert_eq!(rv.jvm.minor, 0);
}

#[test]
fn paths_for_each_platform() {
    assert_eq!(join_path("/a", "b", false), "/a/b");
    assert_eq!(join_path("C:\\a", "b", true), "C:\\a\\b");
    assert_eq!(get_java("/opt/java", false), "/opt/java/bin/java");
    assert_eq!(get_java("C:\\java", true), "C:\\java\\bin\\java.exe");
    assert_eq!(get_catalina("/opt/tomcat", false), "/opt/tomcat/bin/catalina.sh");
    assert_eq!(
        get_catalina("C:\\tomcat", true),
        "C:\\tomcat\\bin\\catalina.bat"
    );
    assert_eq!(get_cache_dir("/opt/tms", false), "/opt/tms/cache");
}

#[test]
fn base_directory_plan() {
    let tomcat = Tomcat::new("/opt/java", "/opt/tomcat", "/cache/web");
    let dirs = tomcat.init_catalina_base(false);
    assert_eq!(
        dirs,
        vec![
            "/cache/web".to_string(),
            "/cache/web/conf".to_string(),
            "/cache/web/logs".to_string(),
            "/cache/web/webapps".to_string(),
        ]
    );
    let copies = tomcat.copy_configs(false);
    assert_eq!(copies.len(), 9);
    assert_eq!(
        copies[0],
        (
            "/opt/tomcat/conf/catalina.policy".to_string(),
            "/cache/web/conf/catalina.policy".to_string()
        )
    );
    assert_eq!(
        copies[8],
        (
            "/opt/tomcat/conf/web.xml".to_string(),
            "/cache/web/conf/web.xml".to_string()
        )
    );
}

fn version_9_11() -> RuntimeVersion {
    let mut rv = RuntimeVersion::new();
    rv.tomcat = Version { major: 9, minor: 0, revise: 73 };
    rv.jvm = Version { major: 11, minor: 0, revise: 18 };
    rv
}

#[test]
fn command_line_building() {
    let rv = version_9_11();
    let mut builder = CommandLineBuilder::new(&rv, false);
    builder.with_java_home("/opt/java");
    builder.with_java_opts("-Xmx1g -Ddemo=a b");
    builder.with_debug(5005);
    builder.with_log(None);
    builder.with_catalina("/opt/tomcat", "/cache/web");
    let plan = builder.build("title");
    // on this platform the separator facts are fixed by the probe,
    // so check the pieces that are platform-free
    assert!(plan.args.contains(&"-server".to_string()));
    assert!(plan.args.contains(&"-Xmx1g".to_string()));
    assert!(plan.args.contains(&"-Ddemo=a b".to_string()));
    assert!(plan.args.contains(
        &"-agentlib:jdwp=transport=dt_socket,address=0.0.0.0:5005,server=y,suspend=n".to_string()
    ));
    assert!(plan.args.contains(
        &"-Djava.util.logging.manager=org.apache.juli.ClassLoaderLogManager".to_string()
    ));
    assert!(plan.args.contains(&"-Dcatalina.home=/opt/tomcat".to_string()));
    assert!(plan.args.contains(&"-Dcatalina.base=/cache/web".to_string()));
    assert!(plan
        .args
        .contains(&"-Djava.protocol.handler.pkgs=org.apache.catalina.webresources".to_string()));
    assert!(plan.args.contains(&"org.apache.catalina.startup.Bootstrap".to_string()));
    assert_eq!(plan.args.last(), Some(&"start".to_string()));
    // a modern JVM (not 1.x) gets no module-opening options
    assert!(plan.env.is_empty());
}

#[test]
fn command_line_split_options_get_their_dash_back() {
    let rv = version_9_11();
    let mut builder = CommandLineBuilder::new(&rv, false);
    builder.with_java_home("/opt/java");
    builder.with_java_opts("-Xms256m -Xmx512m");
    let plan = builder.build("t");
    assert!(plan.args.contains(&"-Xms256m".to_string()));
    assert!(plan.args.contains(&"-Xmx512m".to_string()));
}

#[test]
fn command_line_modern_one_dot_jvm_gets_env() {
    let mut rv = RuntimeVersion::new();
    rv.tomcat = Version { major: 8, minor: 5, revise: 85 };
    rv.jvm = Version { major: 1, minor: 9, revise: 0 };
    let mut builder = CommandLineBuilder::new(&rv, false);
    builder.with_java_home("/opt/java");
    let plan = builder.build("t");
    assert_eq!(plan.env.len(), 1);
    assert_eq!(plan.env[0].0, "JDK_JAVA_OPTIONS");
    assert!(plan.env[0].1.contains("--add-opens=java.base/java.lang=ALL-UNNAMED"));
}

#[test]
fn command_line_log_file() {
    let rv = version_9_11();
    let mut builder = CommandLineBuilder::new(&rv, false);
    builder.with_java_home("/opt/java");
    builder.with_log(Some("/cache/web/conf/logging.properties"));
    let plan = builder.build("t");
    assert!(plan.args.contains(
        &"-Djava.util.logging.config.file=/cache/web/conf/logging.properties".to_string()
    ));
}

#[test]
fn command_line_old_tomcat_skips_handler_pkgs() {
    let mut rv = RuntimeVersion::new();
    rv.tomcat = Version { major: 7, minor: 0, revise: 109 };
    rv.jvm = Version { major: 8, minor: 0, revise: 0 };
    let mut builder = CommandLineBuilder::new(&rv, false);
    builder.with_catalina("/opt/tomcat", "/cache/web");
    let plan = builder.build("t");
    assert!(!plan
        .args
        .contains(&"-Djava.protocol.handler.pkgs=org.apache.catalina.webresources".to_string()));
}

#[test]
fn server_document() {
    let mut xml = ServerXml::new_tomcat8();
    xml.server_port(8105);
    xml.http_port(8180);
    xml.add_context("/one", "/src/one");
    xml.add_context("/two", "/src/two");
    assert_eq!(xml.server.port, 8105);
    assert_eq!(xml.server.service.connector.port, 8180);
    let contexts = &xml.server.service.engine.host.contexts;
    assert_eq!(contexts.len(), 2);
    assert_eq!(contexts[0].path, "/one");
    assert_eq!(contexts[0].doc_base, "/src/one");
    assert!(contexts[1].reloadable);
    assert_eq!(xml.server.listeners.len(), 4);

    let seven = ServerXml::new_tomcat7();
    assert_eq!(seven.server.listeners.len(), 5);
    assert_eq!(
        seven.server.listeners[1].class_name,
        "org.apache.catalina.core.JasperListener"
    );
    assert_eq!(seven.server.shutdown, "SHUTDOWN");
    assert_eq!(
        seven.server.resource.resources[0].factory,
        "org.apache.catalina.users.MemoryUserDatabaseFactory"
    );
}

#[test]
fn run_action_selects_items() {
    let lines: Vec<String> = vec![
        "[common]".to_string(),
        "cache_dir = /cache".to_string(),
        "[runtime]".to_string(),
        "java_home = /opt/java".to_string(),
        "catalina_home = /opt/tomcat".to_string(),
        "[project web]".to_string(),
        "java_opts = -Dweb=1".to_string(),
        "item.a.alias = front".to_string(),
        "item.a.context_path = /a".to_string(),
        "item.a.source_path = /src/a".to_string(),
        "item.b.context_path = /b".to_string(),
        "item.b.source_path = /src/b".to_string(),
    ];
    let ini = IniLoader::new(false).load_lines(&lines, &EnvVars::new());
    let config = TmsConfiguration::from_documents(&ini, &Vec::new()).unwrap();
    assert_eq!(config.common.cache_dir, "/cache");
    let runtime: &TmsRuntime = &config.runtime;
    assert_eq!(runtime.java_home, "/opt/java");
    let common: &TmsCommon = &config.common;
    assert_eq!(common.cache_dir, "/cache");

    let action = RunAction::new(
        Box::new(TmsArgActionRun {
            project: "web".to_string(),
            all_item: false,
            item: vec!["front".to_string(), "b".to_string()],
            debug: false,
            separate: false,
        }),
        config,
    );
    let project = action.get_project().expect("project");
    let items: Items = action.get_items(project).unwrap();
    assert_eq!(items.names, vec!["a".to_string(), "b".to_string()]);

    let mut merged = tms::project::Project::new();
    merged.name = "web".to_string();
    merged.runtime.java_opts = Some("-Dweb=1".to_string());
    action.merge_runtime(&mut merged, false);
    assert_eq!(merged.runtime.java_home, Some("/opt/java".to_string()));
    assert_eq!(merged.runtime.catalina_home, Some("/opt/tomcat".to_string()));
    assert_eq!(merged.runtime.catalina_base, Some("/cache/web".to_string()));
    assert_eq!(merged.runtime.java_opts, Some("-Dweb=1".to_string()));
    assert_eq!(merged.runtime.http_port, Some(8080));
    assert_eq!(merged.runtime.enable_logfile, Some(false));

    // project options are appended after the tool-wide ones
    let lines2: Vec<String> = vec![
        "[runtime]".to_string(),
        "java_home = /opt/java".to_string(),
        "catalina_home = /opt/tomcat".to_string(),
        "java_opts = -Xmx1g".to_string(),
    ];
    let ini2 = IniLoader::new(false).load_lines(&lines2, &EnvVars::new());
    let config2 = TmsConfiguration::from_documents(&ini2, &Vec::new()).unwrap();
    let action2 = RunAction::new(
        Box::new(TmsArgActionRun {
            project: "x".to_string(),
            all_item: true,
            item: vec![],
            debug: false,
            separate: false,
        }),
        config2,
    );
    let mut p2 = tms::project::Project::new();
    p2.name = "x".to_string();
    p2.runtime.java_opts = Some("-Dp=2".to_string());
    action2.merge_runtime(&mut p2, false);
    assert_eq!(p2.runtime.java_opts, Some("-Xmx1g -Dp=2".to_string()));
}

#[test]
fn clean_type_labels() {
    assert_eq!(CleanTypeEnum::Cache.label(), "cache");
    assert_eq!(CleanTypeEnum::Log.label(), "log");
    assert_eq!(CleanTypeEnum::All.label(), "all");
}
