//! Building SBPF programs with upstream nightly Rust.
//!
//! The library holds the decisions of `cargo build-sbpf`: which architecture and stack size a
//! build has, which compiler flags go with them, how a Cargo configuration is read, checked and
//! completed, what has to be installed first, and which commands do it. It reads no files and
//! runs no commands. Texts, paths and the outcome of commands come in as values, and texts and
//! commands come out.
//!
//! - `arch`, `flags`: architectures, stack sizes and compiler flags.
//! - `config`: what a Cargo configuration selects, and how its stack size is updated.
//! - `merge`, `repair`, `gaps`: what a Cargo configuration should declare, and how it is completed.
//! - `diagnose`: what keeps a project from being built, and how to mend it.
//! - `setup`, `linker`: preparing the machine for a build.
//! - `cargo_build`, `command`, `output`: the commands to run, and reading what they print.
//! - `selection`: that the flags of a build select the build.
//! - `toml`, `text`, `number`: TOML documents, texts and decimal numbers.

pub mod arch;
pub mod cargo_build;
pub mod command;
pub mod config;
pub mod diagnose;
pub mod flags;
pub mod gaps;
pub mod linker;
pub mod merge;
pub mod number;
pub mod output;
pub mod repair;
pub mod selection;
pub mod setup;
pub mod text;
pub mod toml;
