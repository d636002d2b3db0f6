//! `wat`: a small config-driven file watcher.
//!
//! The library holds the decisions of the program: command-line
//! interpretation, watchfile validation, target selection, pattern expansion,
//! matching of changed paths against targets, and what to do when a target
//! fires. The binary around it performs the file, process and watcher I/O.

pub mod cli;
pub mod config;
pub mod globs;
pub mod laws;
pub mod paths;
pub mod patterns;
pub mod plan;
pub mod runner;
pub mod text;
pub mod watch;
