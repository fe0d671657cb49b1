//! Verified core of `cargonode`: the rules, validators and text
//! transformations behind a Node.js project scaffolding and task tool.

pub mod cn_core;
pub mod commands;
pub mod cache;
pub mod cargo_node;
pub mod clock;
pub mod cmd;
pub mod config;
pub mod core_package;
pub mod error;
pub mod events;
pub mod exec;
pub mod fs_query;
pub mod inputs;
pub mod integration;
pub mod job;
pub mod journal;
pub mod ops;
pub mod outputs;
pub mod package;
pub mod paths;
pub mod pkgmgr;
pub mod progress;
pub mod project;
pub mod replace;
pub mod shell;
pub mod template;
pub mod text;
pub mod ui;
pub mod util;
pub mod utils;

pub use error::{Error, Result};
