//! The decisions behind the tool's commands: what creating a project
//! involves, and the options of a tool run.

pub mod config;
pub mod generic;
pub mod journal;
pub mod project;
pub mod run;
