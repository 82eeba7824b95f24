//! Tests of the INI parser: classification, trimming, the state
//! machine's constructs, and environment interpolation.

use tms::interp::{resolve, EnvVars};
use tms::lines::{is_blank, is_comment, is_section, is_value_end, start_with_blank};
use tms::loader::IniLoader;
use tms::text::{parse_i32, parse_u32, split_str, str_eq_nocase, trim};

fn lines_of(raw: &[&str]) -> Vec<String> {
    raw.iter().map(|s| s.to_string()).collect()
}

fn load(raw: &[&str], resolve_env: bool, env: &EnvVars) -> tms::ini::Ini {
    IniLoader::new(resolve_env).load_lines(&lines_of(raw), env)
}

#[test]
fn classifiers() {
    assert!(is_blank(""));
    assert!(is_blank(" \t "));
    assert!(!is_blank(" a "));
    assert!(is_comment("; note"));
    assert!(is_comment("#note"));
    assert!(!is_comment(" ; not first"));
    assert!(!is_comment(""));
    assert!(is_section("[s]"));
    assert!(is_section("[]"));
    assert!(!is_section("[s"));
    assert!(!is_value_end("a\\"));
    assert!(is_value_end("a"));
    assert!(start_with_blank(" x"));
    assert!(!start_with_blank("x"));
    assert!(!start_with_blank(""));
}

#[test]
fn trimming() {
    assert_eq!(trim("  a b  "), "a b");
    assert_eq!(trim(""), "");
    assert_eq!(trim(" \t\r\n"), "");
    assert_eq!(trim("x"), "x");
    // Unicode whitespace trims too
    assert_eq!(trim("\u{00A0}a\u{3000}"), "a");
}

#[test]
fn whitespace_set_matches_the_unicode_property() {
    for c in '\0'..=char::MAX {
        assert_eq!(tms::text::space_char(c), c.is_whitespace(), "at U+{:04X}", c as u32);
    }
}

#[test]
fn unicode_whitespace_in_lines() {
    // a line of NO-BREAK SPACE is blank, and starts with whitespace
    assert!(is_blank("\u{00A0}"));
    assert!(start_with_blank("\u{00A0}x"));
    let env = EnvVars::new();
    let ini = load(&["key = a\\", "\u{00A0}b", "\u{00A0}"], false, &env);
    let section = ini.get("default").unwrap();
    // the NBSP-indented line continues the value; the NBSP-only line is blank
    assert_eq!(section.get("key"), Some(&"ab".to_string()));
}

#[test]
fn number_parsing() {
    assert_eq!(parse_u32("0"), Some(0));
    assert_eq!(parse_u32("+12"), Some(12));
    assert_eq!(parse_u32("4294967295"), Some(u32::MAX));
    assert_eq!(parse_u32("4294967296"), None);
    assert_eq!(parse_u32(""), None);
    assert_eq!(parse_u32("+"), None);
    assert_eq!(parse_u32("1a"), None);
    assert_eq!(parse_i32("-2147483648"), Some(i32::MIN));
    assert_eq!(parse_i32("2147483647"), Some(i32::MAX));
    assert_eq!(parse_i32("-2147483649"), None);
    assert_eq!(parse_i32("2147483648"), None);
    assert_eq!(parse_i32("8080"), Some(8080));
    assert_eq!(parse_i32("--1"), None);
}

#[test]
fn splitting_and_case() {
    let pieces = split_str("a,b,,c", ",");
    let views: Vec<&str> = pieces.iter().map(|s| s.as_str()).collect();
    assert_eq!(views, vec!["a", "b", "", "c"]);
    let one = split_str("plain", ",");
    assert_eq!(one.len(), 1);
    assert_eq!(one[0], "plain");
    assert!(str_eq_nocase("TRUE", "true"));
    assert!(str_eq_nocase("InFo", "iNfO"));
    assert!(!str_eq_nocase("true", "truth"));
}

#[test]
fn blank_input_yields_empty_default_section() {
    let env = EnvVars::new();
    let ini = load(&["", "   ", "\t \t"], false, &env);
    let sections = ini.iter();
    assert_eq!(sections.len(), 1);
    assert_eq!(sections[0].name, "default");
    assert_eq!(sections[0].iter().len(), 0);
}

#[test]
fn key_value_round_trip() {
    let env = EnvVars::new();
    let ini = load(&["key = value"], false, &env);
    let section = ini.get("default").unwrap();
    assert_eq!(section.get("key"), Some(&"value".to_string()));
}

#[test]
fn continuation_appends_without_separator() {
    let env = EnvVars::new();
    let ini = load(&["key = a\\", "    b"], false, &env);
    let section = ini.get("default").unwrap();
    assert_eq!(section.get("key"), Some(&"ab".to_string()));
}

#[test]
fn continuation_ends_at_unindented_line() {
    let env = EnvVars::new();
    let ini = load(&["key = a\\", "x", "other = 1"], false, &env);
    let section = ini.get("default").unwrap();
    assert_eq!(section.get("key"), Some(&"a".to_string()));
    assert_eq!(section.get("other"), Some(&"1".to_string()));
}

#[test]
fn continuation_over_several_lines() {
    let env = EnvVars::new();
    let ini = load(&["key = a\\", "    b\\", "    c"], false, &env);
    let section = ini.get("default").unwrap();
    assert_eq!(section.get("key"), Some(&"abc".to_string()));
}

#[test]
fn comment_inside_continuation_is_skipped() {
    let env = EnvVars::new();
    let ini = load(&["key = a\\", "; note", "    b"], false, &env);
    let section = ini.get("default").unwrap();
    assert_eq!(section.get("key"), Some(&"ab".to_string()));
}

#[test]
fn repeated_sections_accumulate() {
    let env = EnvVars::new();
    let ini = load(&["[s]", "a=1", "[t]", "x=9", "[s]", "b=2"], false, &env);
    let section = ini.get("s").unwrap();
    assert_eq!(section.get("a"), Some(&"1".to_string()));
    assert_eq!(section.get("b"), Some(&"2".to_string()));
    assert_eq!(ini.get("t").unwrap().get("x"), Some(&"9".to_string()));
}

#[test]
fn bare_key_is_present_without_value() {
    let env = EnvVars::new();
    let ini = load(&["flag"], false, &env);
    let section = ini.get("default").unwrap();
    assert_eq!(section.get("flag"), None);
    // structurally the key is there, with no value
    let stored: Vec<_> = section
        .iter()
        .iter()
        .filter(|(k, _)| k == "flag")
        .collect();
    assert_eq!(stored.len(), 1);
    assert_eq!(stored[0].1, None);
}

#[test]
fn empty_value_reads_as_absent() {
    let env = EnvVars::new();
    let ini = load(&["k ="], false, &env);
    let section = ini.get("default").unwrap();
    assert_eq!(section.get("k"), None);
    assert_eq!(section.iter().len(), 1);
}

#[test]
fn later_assignment_wins() {
    let env = EnvVars::new();
    let ini = load(&["k = 1", "k = 2"], false, &env);
    let section = ini.get("default").unwrap();
    assert_eq!(section.get("k"), Some(&"2".to_string()));
    assert_eq!(section.iter().len(), 1);
}

#[test]
fn quoted_section_name_is_stripped() {
    let env = EnvVars::new();
    let ini = load(&["[\"q\"]", "a=1"], false, &env);
    assert!(ini.contains("q"));
    assert_eq!(ini.get("q").unwrap().get("a"), Some(&"1".to_string()));
}

#[test]
fn interpolation_set_variable() {
    let mut env = EnvVars::new();
    env.put("FOO", "bar");
    let ini = load(&["x = ${FOO}"], true, &env);
    assert_eq!(ini.get("default").unwrap().get("x"), Some(&"bar".to_string()));
}

#[test]
fn interpolation_unset_variable_stays_literal() {
    let env = EnvVars::new();
    let ini = load(&["x = ${FOO}"], true, &env);
    assert_eq!(
        ini.get("default").unwrap().get("x"),
        Some(&"${FOO}".to_string())
    );
}

#[test]
fn interpolation_empty_value_stays_literal() {
    let mut env = EnvVars::new();
    env.put("FOO", "");
    let ini = load(&["x = ${FOO}"], true, &env);
    assert_eq!(
        ini.get("default").unwrap().get("x"),
        Some(&"${FOO}".to_string())
    );
}

#[test]
fn interpolation_replaces_every_occurrence() {
    let mut env = EnvVars::new();
    env.put("AB", "z");
    let out = resolve("${AB} and ${AB}", &env, true);
    assert_eq!(out, "z and z");
}

#[test]
fn interpolation_requires_two_character_names() {
    let mut env = EnvVars::new();
    env.put("A", "z");
    let out = resolve("${A}", &env, true);
    assert_eq!(out, "${A}");
}

#[test]
fn interpolation_name_characters() {
    let mut env = EnvVars::new();
    env.put("a.b_c9", "ok");
    let out = resolve("<${a.b_c9}>", &env, true);
    assert_eq!(out, "<ok>");
    // a name must start with a letter
    env.put("9x", "no");
    assert_eq!(resolve("${9x}", &env, true), "${9x}");
}

#[test]
fn interpolation_disabled_leaves_value() {
    let mut env = EnvVars::new();
    env.put("FOO", "bar");
    let out = resolve("${FOO}", &env, false);
    assert_eq!(out, "${FOO}");
}

#[test]
fn interpolation_across_continuation_boundary() {
    // the placeholder is completed by the continuation line and only
    // then substituted
    let mut env = EnvVars::new();
    env.put("FOO", "bar");
    let ini = load(&["x = ${FO\\", "    O}"], true, &env);
    assert_eq!(ini.get("default").unwrap().get("x"), Some(&"bar".to_string()));
}

#[test]
fn unterminated_continuation_is_flushed() {
    let env = EnvVars::new();
    let ini = load(&["k = a\\"], false, &env);
    assert_eq!(ini.get("default").unwrap().get("k"), Some(&"a".to_string()));
}

#[test]
fn continuation_of_an_empty_value() {
    let env = EnvVars::new();
    let ini = load(&["k = \\", "    b"], false, &env);
    assert_eq!(ini.get("default").unwrap().get("k"), Some(&"b".to_string()));
}

#[test]
fn env_vars_overwrite() {
    let mut env = EnvVars::new();
    env.put("K", "1");
    env.put("K", "2");
    assert_eq!(env.get("K"), Some(&"2".to_string()));
    assert_eq!(env.get("MISSING"), None);
}

#[test]
fn ini_section_set_and_get() {
    let mut section = tms::ini::IniSection::new("s");
    section.set("a", Some("1"));
    section.set("a", Some("2"));
    section.set("b", None);
    section.set("c", Some(""));
    assert_eq!(section.get("a"), Some(&"2".to_string()));
    assert_eq!(section.get("b"), None);
    assert_eq!(section.get("c"), None);
    assert_eq!(section.iter().len(), 3);
}

#[test]
fn ini_document_operations() {
    let mut ini = tms::ini::Ini::new();
    assert!(!ini.contains("s"));
    ini.create("s");
    assert!(ini.contains("s"));
    let mut section = tms::ini::IniSection::new("s");
    section.set("k", Some("v"));
    ini.put(section);
    assert_eq!(ini.get("s").unwrap().get("k"), Some(&"v".to_string()));
    let fetched = ini.get_or_create("t");
    assert_eq!(fetched.name, "t");
    assert_eq!(ini.iter().len(), 2);
}

#[test]
fn resolve_value_through_loader() {
    let mut env = EnvVars::new();
    env.put("HOME2", "/home/two");
    let loader = IniLoader::new(true);
    assert_eq!(loader.resolve_value("p=${HOME2}!", &env), "p=/home/two!");
    let off = IniLoader::new(false);
    assert_eq!(off.resolve_value("p=${HOME2}!", &env), "p=${HOME2}!");
}
