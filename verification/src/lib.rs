//! A dispatch engine that turns file-write notifications into shell commands.
//!
//! A configuration maps match keys, which are file extensions or regular
//! expressions, to command templates. For each write notification the
//! engine decides whether to act on it (ignore lists and a cooldown), which
//! rules match the path, and which commands, with the path put into them,
//! a runner is to start, in which order and in which directory.
//!
//! The engine reads no file, watches no directory and starts no process: it
//! takes texts, paths and clock readings, and gives back plain values.
//!
//! - [`json`]: JSON documents as plain values, and their parser.
//! - [`config`]: from a JSON document to rules and settings.
//! - [`settings`]: the filter: ignore lists and cooldown.
//! - [`rules`]: matching a path against the rules, and resolving the
//!   matching rules into batches of commands.
//! - [`pattern`]: regular expressions.
//! - [`engine`]: the engine and the actions it hands to the runner.
//! - [`text`]: paths, substrings and token replacement.
//! - [`error`]: what can be wrong with a configuration.

pub mod config;
pub mod engine;
pub mod error;
pub mod json;
pub mod pattern;
pub mod rules;
pub mod settings;
pub mod text;
