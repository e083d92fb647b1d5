//! Code mode: one script that calls many downstream tools, loops and branches, and returns one
//! value, so that what the tools return between stays with the script.
//!
//! The library holds the decisions of a run. What runs the script, an engine and the host around
//! it, asks [`run::ScriptRun`] what to do next, [`host::HostState`] whether a tool call may be
//! made and which deferred calls to run, and [`jobs::BoundedJobExecutor`] which promise job to
//! run. Every limit fails closed: a script that exceeds it is ended with an error.

pub mod batch;
pub mod catalog;
pub mod engine;
pub mod error;
pub mod host;
pub mod jobs;
pub mod json;
pub mod laws;
pub mod limits;
pub mod names;
pub mod outcome;
pub mod run;
pub mod stubs;
pub mod text;
pub mod wire;

pub use crate::limits::Limits;
pub use crate::names::is_code_mode_meta_tool;
pub use crate::names::split_exposed_name;
pub use crate::outcome::ScriptOutcome;
pub use crate::stubs::build_servers_prelude;
pub use crate::wire::FetchArgs;
