//! A file-driven deployment runner: a pool of shell commands, tasks that pick
//! commands out of the pool by position, and plans that group tasks by name.
//!
//! This crate holds the data model and every decision of the runner. Reading
//! files, decoding JSON and spawning processes are left to the caller, who
//! hands the decoded records in and carries out the steps handed back.

pub mod error;
pub mod command;
pub mod paths;
pub mod config;
pub mod task;
pub mod plan;
pub mod executor;
