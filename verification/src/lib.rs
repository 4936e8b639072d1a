//! Verified core of a developer-workflow command line tool.
//!
//! The library models named task pipelines (a graph of task definitions
//! flattened into an ordered command list), a fixed catalog of installable
//! system components with dependency resolution, and the pure decision
//! logic of the orchestrator that drives both: dry-run planning, failure
//! policies and install-state classification. All file, process and
//! terminal work is left to the thin unverified shell around the library.

pub mod cli;
pub mod component;
pub mod config;
pub mod detect;
pub mod dockergen;
pub mod envfile;
pub mod envtext;
pub mod gitplan;
pub mod menu;
pub mod orchestrate;
pub mod review;
pub mod setup;
pub mod tasks;
pub mod text;
pub mod versioning;
pub mod walk;
