//! A declarative browser end-to-end test runner: named tasks and scenarios made
//! of atomic browser steps, `{name}` placeholders resolved from variables and
//! task arguments, and an execution engine that drives one browser session.
//!
//! The library holds the configuration model and every decision the runner
//! takes; talking to the browser, reading files and printing are left to the
//! program around it.

pub mod args;
pub mod cli;
pub mod config;
pub mod dependency;
pub mod engine;
pub mod registry;
pub mod scenario;
pub mod step;
pub mod task;
pub mod template;
pub mod text;
pub mod var;
