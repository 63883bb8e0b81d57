//! Decision logic of a command-line tool that checks which external types a
//! crate exposes in its public API: output formats, package selection,
//! configuration lookup, skip rules, report formatting and the run protocol.
pub mod text;
pub mod output_format;
pub mod model;
pub mod package;
pub mod config;
pub mod report;
pub mod workspace;
pub mod args;
pub mod run;
pub mod sample_derives;
