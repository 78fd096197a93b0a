//! Verified core of saved multi-agent workflows: metadata parsing, program
//! compilation, the rules on workflow files, managed-run bookkeeping, the
//! decisions of the workflow tools and of the completion watcher, the
//! dispatch of a cell's calls to its turn, and the `/workflows` command.

pub mod text;
pub mod json;
pub mod scan;
pub mod properties;
pub mod source;
pub mod program_text;
pub mod compile;
pub mod status;
pub mod service;
pub mod restore;
pub mod trim;
pub mod chat;
pub mod discovery;
pub mod loader;
pub mod handlers;
pub mod watcher;
pub mod dispatch;
pub mod specs;
pub mod laws;

pub use compile::{compile_workflow_source, WorkflowAgentApi};
