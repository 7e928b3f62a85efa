//! Core of an interactive command shell: the path and environment model
//! (current directory, directory history, search path), command dispatch
//! (builtins and external executables), and exit-status mapping.
//!
//! All filesystem, process and terminal I/O lives outside this crate; the
//! library works on plain values (strings, resolved locations) that the
//! surrounding program hands in.

pub mod commands;
pub mod environment;
pub mod errors;
pub mod execution;
pub mod path;
pub mod shell;
