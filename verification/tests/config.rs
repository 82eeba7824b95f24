//! Tests of the configuration layers: ports, runtime resolution,
//! project loading from documents and from the raw file shape, lookup
//! and the pure parts of the actions.

use tms::action::{clean_all_projects, clean_project, filter_by_name, get_project, get_project_item, project_item_rows, project_rows};
use tms::app_util::{check_port, is_valid_port, AppError};
use tms::combine::{validate_java_home, validate_tomcat_home, RuntimeConfigCombine};
use tms::common::{get_port, parse_log_level, LogLevel, TmsCommon, TmsRuntime};
use tms::configuration::TmsConfiguration;
use tms::domain::{JavaConfig, ProjectConfig, ProjectItemConfig, RuntimeConfig, TmsConfig, TomcatConfig};
use tms::file::{merge_extra_projects, JavaFileConfig, ProjectFileConfig, ProjectItemFileConfig, RuntimeFileConfig, TmsFileConfig, TomcatFileConfig};
use tms::inspect::{init, init_java_config, init_project_items, init_projects, init_runtime, init_tomcat_config};
use tms::interp::EnvVars;
use tms::loader::IniLoader;
use tms::project::{ini_load, ini_load_all};

fn parse(raw: &[&str]) -> tms::ini::Ini {
    let lines: Vec<String> = raw.iter().map(|s| s.to_string()).collect();
    IniLoader::new(false).load_lines(&lines, &EnvVars::new())
}

#[test]
fn port_validation() {
    assert!(is_valid_port(1024));
    assert!(is_valid_port(65535));
    assert!(!is_valid_port(1023));
    assert!(!is_valid_port(65536));
    assert_eq!(check_port("http_port", 8080), Ok(8080));
    match check_port("http_port", 80) {
        Err(AppError::Action(m)) => {
            assert_eq!(m, "http_port must be between 1024 and 65535");
        }
        other => panic!("unexpected: {:?}", other),
    }
}

#[test]
fn error_messages() {
    assert_eq!(
        AppError::System("boom".to_string()).message(),
        "system error: boom"
    );
    assert_eq!(
        AppError::Argument("bad".to_string()).message(),
        "argument error: bad"
    );
    assert_eq!(
        AppError::Config("oops".to_string()).message(),
        "configuration file error:oops"
    );
    assert_eq!(AppError::Action("just this".to_string()).message(), "just this");
}

#[test]
fn log_level_parsing() {
    assert_eq!(parse_log_level("info"), Some(LogLevel::Info));
    assert_eq!(parse_log_level("TRACE"), Some(LogLevel::Trace));
    assert_eq!(parse_log_level("Warn"), Some(LogLevel::Warn));
    assert_eq!(parse_log_level("silly"), None);
}

#[test]
fn common_from_document() {
    let ini = parse(&["[common]", "log_level = debug", "cache_dir = /tmp/tms-cache"]);
    let tc = TmsCommon::from_ini(&ini);
    assert_eq!(tc.log_level, LogLevel::Debug);
    assert_eq!(tc.cache_dir, "/tmp/tms-cache");
    let empty = parse(&[""]);
    let td = TmsCommon::from_ini(&empty);
    assert_eq!(td.log_level, LogLevel::Info);
    assert_eq!(td.cache_dir, "");
}

#[test]
fn runtime_from_document() {
    let ini = parse(&[
        "[runtime]",
        "java_home = /opt/java",
        "catalina_home = /opt/tomcat",
        "http_port = 9090",
        "server_port = bogus",
        "jpda_port = 70000",
        "java_opts = -Xmx1g",
        "enable_logfile = TRUE",
    ]);
    let tr = TmsRuntime::from_ini(&ini).unwrap();
    assert_eq!(tr.java_home, "/opt/java");
    assert_eq!(tr.catalina_home, "/opt/tomcat");
    assert_eq!(tr.http_port, 9090);
    assert_eq!(tr.server_port, 8005);
    assert_eq!(tr.jpda_port, 5005);
    assert_eq!(tr.java_opts, Some("-Xmx1g".to_string()));
    assert!(tr.enable_logfile);
}

#[test]
fn runtime_requires_homes() {
    let ini = parse(&["[runtime]", "catalina_home = /opt/tomcat"]);
    let err = TmsRuntime::from_ini(&ini).unwrap_err();
    assert_eq!(
        err.message(),
        "Please configure JAVA_HOME with 'runtime.java_home' in the configuration file"
    );
    let absent = parse(&[""]);
    let tr = TmsRuntime::from_ini(&absent).unwrap();
    assert_eq!(tr.http_port, 8080);
}

#[test]
fn get_port_falls_back() {
    assert_eq!(get_port(None, 8080), 8080);
    assert_eq!(get_port(Some(&"9000".to_string()), 8080), 9000);
    assert_eq!(get_port(Some(&"x".to_string()), 8080), 8080);
    assert_eq!(get_port(Some(&"70000".to_string()), 8080), 8080);
    assert_eq!(get_port(Some(&"0".to_string()), 8080), 0);
}

#[test]
fn projects_from_document() {
    let ini = parse(&[
        "[project \"example\"]",
        "alias = ex, e2",
        "description = Example",
        "java_opts = -Ddemo=1",
        "jpda_port = 9888",
        "enable_logfile = true",
        "item.app1.alias = a1",
        "item.app1.context_path = /app-one",
        "item.app1.source_path = /path/to/app1",
        "item.app2.context_path = /app2",
        "item.app2.source_path = /path/to/app2",
    ]);
    let projects = ini_load(&ini).unwrap();
    assert_eq!(projects.len(), 1);
    let p = &projects[0];
    assert_eq!(p.name, "example");
    assert_eq!(p.alias, vec!["ex".to_string(), "e2".to_string()]);
    assert_eq!(p.description, Some("Example".to_string()));
    assert_eq!(p.runtime.java_opts, Some("-Ddemo=1".to_string()));
    assert_eq!(p.runtime.jpda_port, Some(9888));
    assert_eq!(p.runtime.enable_logfile, Some(true));
    assert_eq!(p.items.len(), 2);
    let app1 = p.get_item("a1").unwrap();
    assert_eq!(app1.name, "app1");
    assert_eq!(app1.context_path, "/app-one");
    assert_eq!(app1.source_path, "/path/to/app1");
    let app2 = p.get_item("app2").unwrap();
    assert_eq!(app2.alias.len(), 0);
    assert!(p.get_item("app3").is_none());
}

#[test]
fn project_item_errors() {
    let missing_source = parse(&[
        "[project p]",
        "item.a.context_path = /a",
    ]);
    let err = ini_load(&missing_source).unwrap_err();
    assert_eq!(err.message(), "'item.a.source_path' must not be empty.");

    let bad_context = parse(&[
        "[project p]",
        "item.a.context_path = nope",
        "item.a.source_path = /src",
    ]);
    let err = ini_load(&bad_context).unwrap_err();
    assert_eq!(err.message(), "'item.a.context_path' must start with '/': nope");

    let dup_context = parse(&[
        "[project p]",
        "item.a.context_path = /same",
        "item.a.source_path = /src",
        "item.b.context_path = /same",
        "item.b.source_path = /src2",
    ]);
    let err = ini_load(&dup_context).unwrap_err();
    assert_eq!(
        err.message(),
        "Project 'p', item 'b': Duplicate context_path: /same"
    );
}

#[test]
fn duplicate_projects_and_aliases() {
    let dup_alias = parse(&[
        "[project a]",
        "alias = x",
        "item.i.context_path = /a",
        "item.i.source_path = /s",
        "[project b]",
        "alias = x",
        "item.i.context_path = /b",
        "item.i.source_path = /s",
    ]);
    let err = ini_load(&dup_alias).unwrap_err();
    assert_eq!(err.message(), "Project 'b': Duplicate alias: x");

    let base = parse(&["[project a]", "item.i.context_path = /a", "item.i.source_path = /s"]);
    let extra = parse(&["[project a]", "item.i.context_path = /a", "item.i.source_path = /s"]);
    let err = ini_load_all(&base, &vec![extra]).unwrap_err();
    assert_eq!(err.message(), "Duplicate project: a");

    let other = parse(&["[project b]", "item.i.context_path = /b", "item.i.source_path = /s"]);
    let merged = ini_load_all(&base, &vec![other]).unwrap();
    assert_eq!(merged.len(), 2);
}

#[test]
fn configuration_lookup() {
    let ini = parse(&[
        "[runtime]",
        "java_home = /opt/java",
        "catalina_home = /opt/tomcat",
        "[project web]",
        "alias = w",
        "item.i.context_path = /i",
        "item.i.source_path = /s",
    ]);
    let config = TmsConfiguration::from_documents(&ini, &Vec::new()).unwrap();
    assert_eq!(config.get_project("web").unwrap().name, "web");
    assert_eq!(config.get_project("w").unwrap().name, "web");
    assert!(config.get_project("nope").is_none());
}

#[test]
fn combine_picks_first_setting() {
    let override_cfg = RuntimeConfig {
        java: Some(JavaConfig { java_home: None, java_options: Some("-Xmx2g".to_string()) }),
        tomcat: Some(TomcatConfig {
            tomcat_home: None,
            http_port: Some(9090),
            server_port: None,
            jpda_port: Some(80),
        }),
    };
    let default_cfg = RuntimeConfig {
        java: Some(JavaConfig {
            java_home: Some("/opt/java".to_string()),
            java_options: Some("-Xmx1g".to_string()),
        }),
        tomcat: Some(TomcatConfig {
            tomcat_home: Some("/opt/tomcat".to_string()),
            http_port: Some(8080),
            server_port: Some(8005),
            jpda_port: Some(5005),
        }),
    };
    let combine = RuntimeConfigCombine::new(vec![&override_cfg, &default_cfg]);
    assert_eq!(combine.java_home().unwrap(), "/opt/java");
    assert_eq!(combine.java_options(), "-Xmx2g");
    assert_eq!(combine.tomcat_home().unwrap(), "/opt/tomcat");
    assert_eq!(combine.http_port().unwrap(), 9090);
    assert_eq!(combine.server_port().unwrap(), 8005);
    match combine.jpda_port() {
        Err(AppError::Action(m)) => assert_eq!(m, "jpda_port must be between 1024 and 65535"),
        other => panic!("unexpected: {:?}", other),
    }
    let empty = RuntimeConfigCombine::new(vec![]);
    match empty.java_home() {
        Err(AppError::Action(m)) => assert_eq!(m, "java_home is not specified"),
        other => panic!("unexpected: {:?}", other),
    }
    assert_eq!(empty.java_options(), "");
}

#[test]
fn home_validation() {
    assert_eq!(validate_java_home("/opt/java", true, true), Ok(()));
    match validate_java_home("/opt/java", false, false) {
        Err(AppError::Action(m)) => assert_eq!(m, "java_home '/opt/java' does not exist"),
        other => panic!("unexpected: {:?}", other),
    }
    match validate_java_home("/opt/java", true, false) {
        Err(AppError::Action(m)) => {
            assert_eq!(m, "java_home '/opt/java' does not contain java executable")
        }
        other => panic!("unexpected: {:?}", other),
    }
    assert_eq!(validate_tomcat_home("/opt/tomcat", true, true), Ok(()));
    match validate_tomcat_home("/opt/tomcat", false, true) {
        Err(AppError::Action(m)) => assert_eq!(m, "tomcat_home '/opt/tomcat' does not exist"),
        other => panic!("unexpected: {:?}", other),
    }
    match validate_tomcat_home("/opt/tomcat", true, false) {
        Err(AppError::Action(m)) => {
            assert_eq!(m, "tomcat_home '/opt/tomcat' does not contain catalina executable")
        }
        other => panic!("unexpected: {:?}", other),
    }
}

#[test]
fn name_match_beats_alias_match() {
    // one project's alias equals another project's name: the name wins
    let ini = parse(&[
        "[project a]",
        "alias = b",
        "item.i.context_path = /a",
        "item.i.source_path = /s",
        "[project b]",
        "item.i.context_path = /b",
        "item.i.source_path = /s",
    ]);
    let config = TmsConfiguration::from_documents(&ini, &Vec::new()).unwrap();
    assert_eq!(config.get_project("b").unwrap().name, "b");
    assert_eq!(config.get_project("a").unwrap().name, "a");

    let items = parse(&[
        "[project p]",
        "item.x.alias = y",
        "item.x.context_path = /x",
        "item.x.source_path = /sx",
        "item.y.context_path = /y",
        "item.y.source_path = /sy",
    ]);
    let projects = tms::project::ini_load(&items).unwrap();
    let p = &projects[0];
    assert_eq!(p.get_item("y").unwrap().name, "y");
    assert_eq!(p.get_item("x").unwrap().name, "x");
}

fn sample_config() -> TmsConfig {
    TmsConfig {
        default: RuntimeConfig { java: None, tomcat: None },
        projects: vec![
            ProjectConfig {
                name: "one".to_string(),
                alias: Some("uno".to_string()),
                description: Some("first".to_string()),
                runtime: None,
                items: vec![ProjectItemConfig {
                    name: "i1".to_string(),
                    alias: Some("a1".to_string()),
                    path: "/p/i1".to_string(),
                    context_path: "/one".to_string(),
                }],
            },
            ProjectConfig {
                name: "two".to_string(),
                alias: None,
                description: None,
                runtime: None,
                items: vec![],
            },
        ],
    }
}

#[test]
fn lookup_by_name_and_alias() {
    let config = sample_config();
    assert!(filter_by_name("one", "one", None));
    assert!(filter_by_name("uno", "one", Some(&"uno".to_string())));
    assert!(!filter_by_name("nope", "one", Some(&"uno".to_string())));
    assert_eq!(get_project(&config, "uno").unwrap().name, "one");
    match get_project(&config, "three") {
        Err(AppError::Action(m)) => assert_eq!(m, "Project 'three' not found"),
        other => panic!("unexpected: {:?}", other),
    }
    let p = get_project(&config, "one").unwrap();
    assert_eq!(get_project_item(p, "a1").unwrap().name, "i1");
    match get_project_item(p, "zz") {
        Err(AppError::Action(m)) => {
            assert_eq!(m, "Item 'zz' of project 'one' not found");
        }
        other => panic!("unexpected: {:?}", other),
    }
}

#[test]
fn listing_rows() {
    let config = sample_config();
    let rows = project_rows(&config);
    assert_eq!(rows.len(), 2);
    assert_eq!(rows[0], ("one".to_string(), "uno".to_string(), "first".to_string()));
    assert_eq!(rows[1], ("two".to_string(), "".to_string(), "".to_string()));
    let item_rows = project_item_rows(&config.projects[0]);
    assert_eq!(item_rows.len(), 1);
    assert_eq!(
        item_rows[0],
        (
            "one".to_string(),
            "i1".to_string(),
            "a1".to_string(),
            "/one".to_string()
        )
    );
}

#[test]
fn clean_paths() {
    let config = sample_config();
    let dirs = clean_all_projects(&config, "/cache", false);
    assert_eq!(dirs, vec!["/cache/one".to_string(), "/cache/two".to_string()]);
    assert_eq!(
        clean_project(&config, "/cache", false, "uno").unwrap(),
        "/cache/one"
    );
    assert!(clean_project(&config, "/cache", false, "zzz").is_err());
}

#[test]
fn merging_file_configs() {
    let base = TmsFileConfig {
        log_level: Some("info".to_string()),
        extra_files: None,
        default: None,
        projects: Some(vec![ProjectFileConfig {
            name: Some("a".to_string()),
            alias: None,
            description: None,
            runtime: None,
            items: Some(vec![]),
        }]),
    };
    let extra = TmsFileConfig {
        log_level: None,
        extra_files: None,
        default: None,
        projects: Some(vec![ProjectFileConfig {
            name: Some("b".to_string()),
            alias: None,
            description: None,
            runtime: None,
            items: Some(vec![]),
        }]),
    };
    let merged = merge_extra_projects(base, vec![extra]);
    let names: Vec<_> = merged
        .projects
        .unwrap()
        .iter()
        .map(|p| p.name.clone().unwrap())
        .collect();
    assert_eq!(names, vec!["a".to_string(), "b".to_string()]);
}

#[test]
fn inspect_java_and_tomcat() {
    let java = init_java_config(None, true, Some("/env/java".to_string())).unwrap();
    assert_eq!(java.java_home, Some("/env/java".to_string()));
    let java2 = init_java_config(
        Some(&JavaFileConfig {
            java_home: Some("/file/java".to_string()),
            java_options: Some("-Xss1m".to_string()),
        }),
        true,
        Some("/env/java".to_string()),
    )
    .unwrap();
    assert_eq!(java2.java_home, Some("/file/java".to_string()));
    assert_eq!(java2.java_options, Some("-Xss1m".to_string()));
    let java3 = init_java_config(None, false, Some("/env/java".to_string())).unwrap();
    assert_eq!(java3.java_home, None);

    let tomcat = init_tomcat_config(None, true, Some("/env/tomcat".to_string())).unwrap();
    assert_eq!(tomcat.tomcat_home, Some("/env/tomcat".to_string()));
    assert_eq!(tomcat.http_port, Some(8080));
    assert_eq!(tomcat.server_port, Some(8005));
    assert_eq!(tomcat.jpda_port, Some(8000));
    let tomcat2 = init_tomcat_config(
        Some(&TomcatFileConfig {
            tomcat_home: None,
            http_port: Some(9999),
            server_port: None,
            jpda_port: None,
        }),
        false,
        None,
    )
    .unwrap();
    assert_eq!(tomcat2.tomcat_home, None);
    assert_eq!(tomcat2.http_port, Some(9999));
}

#[test]
fn inspect_items_and_projects() {
    let items = vec![
        ProjectItemFileConfig {
            name: Some("i1".to_string()),
            alias: None,
            path: Some("/p".to_string()),
            context_path: None,
        },
        ProjectItemFileConfig {
            name: Some("i2".to_string()),
            alias: None,
            path: Some("/q".to_string()),
            context_path: Some("bare".to_string()),
        },
    ];
    let out = init_project_items("p", Some(&items)).unwrap();
    assert_eq!(out[0].context_path, "/");
    assert_eq!(out[1].context_path, "/bare");

    match init_project_items("p", None) {
        Err(AppError::Config(m)) => assert_eq!(m, "No items defined for project 'p'"),
        other => panic!("unexpected: {:?}", other),
    }
    let missing_name = vec![ProjectItemFileConfig {
        name: None,
        alias: None,
        path: Some("/p".to_string()),
        context_path: None,
    }];
    match init_project_items("p", Some(&missing_name)) {
        Err(AppError::Config(m)) => assert_eq!(m, "No name defined for project 'p' item 1"),
        other => panic!("unexpected: {:?}", other),
    }
    let missing_path = vec![ProjectItemFileConfig {
        name: Some("i9".to_string()),
        alias: None,
        path: None,
        context_path: None,
    }];
    match init_project_items("p", Some(&missing_path)) {
        Err(AppError::Config(m)) => {
            assert_eq!(m, "No path defined for project 'p' item 'i9'");
        }
        other => panic!("unexpected: {:?}", other),
    }

    match init_projects(None) {
        Err(AppError::Config(m)) => assert_eq!(m, "No project defined"),
        other => panic!("unexpected: {:?}", other),
    }
    let unnamed = vec![ProjectFileConfig {
        name: None,
        alias: None,
        description: None,
        runtime: None,
        items: Some(vec![]),
    }];
    match init_projects(Some(&unnamed)) {
        Err(AppError::Config(m)) => assert_eq!(m, "No name defined for project 1"),
        other => panic!("unexpected: {:?}", other),
    }
}

#[test]
fn inspect_whole_file() {
    let file = TmsFileConfig {
        log_level: Some("warn".to_string()),
        extra_files: None,
        default: Some(RuntimeFileConfig { java: None, tomcat: None }),
        projects: Some(vec![ProjectFileConfig {
            name: Some("p".to_string()),
            alias: None,
            description: None,
            runtime: None,
            items: Some(vec![ProjectItemFileConfig {
                name: Some("i".to_string()),
                alias: None,
                path: Some("/src".to_string()),
                context_path: Some("/c".to_string()),
            }]),
        }]),
    };
    let config = init(&file, Some("/env/java".to_string()), None).unwrap();
    assert_eq!(config.projects.len(), 1);
    assert_eq!(
        config.default.java.as_ref().unwrap().java_home,
        Some("/env/java".to_string())
    );

    let bad = TmsFileConfig {
        log_level: Some("loud".to_string()),
        extra_files: None,
        default: None,
        projects: Some(vec![]),
    };
    match init(&bad, None, None) {
        Err(AppError::Config(m)) => assert_eq!(
            m,
            "Invalid log level 'loud': attempted to convert a string that doesn't match an existing log level"
        ),
        other => panic!("unexpected: {:?}", other),
    }

    let runtime = init_runtime(None, true, None, Some("/env/cat".to_string())).unwrap();
    assert_eq!(
        runtime.tomcat.unwrap().tomcat_home,
        Some("/env/cat".to_string())
    );
}
