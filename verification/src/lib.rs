//! Verified core of a Tomcat launcher built around an INI-style
//! configuration format: a line-oriented parser with section grouping,
//! backslash continuation and `${NAME}` environment interpolation, the
//! document model it produces, and the pure configuration, planning and
//! command-line logic that consumes the parsed documents.
//!
//! Everything that touches the outside world (files, the process
//! environment, process spawning, terminal output) lives in the thin
//! unverified shell around this library; the library works on plain
//! values handed in by that shell.

pub mod action;
pub mod arg;
pub mod argument;
pub mod app_util;
pub mod cli;
pub mod combine;
pub mod common;
pub mod config_error;
pub mod configuration;
pub mod constant;
pub mod domain;
pub mod file;
pub mod ini;
pub mod inspect;
pub mod interp;
pub mod lines;
pub mod loader;
pub mod os_utils;
pub mod project;
pub mod run_action;
pub mod server_xml;
pub mod text;
pub mod tomcat;
