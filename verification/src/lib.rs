//! A policy wrapper around the GitHub command line: argument parsing, policy
//! decisions, redaction, configuration checks and release management logic.
pub mod text;
pub mod config;
pub mod policy;
pub mod command;
pub mod redact;
pub mod error;
pub mod exec;
pub mod gate;
pub mod guard_commands;
pub mod paths;
pub mod download;
pub mod state;
pub mod gh_manager;
pub mod update;
pub mod invocation;
