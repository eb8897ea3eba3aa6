//! A generic workflow engine: objects move between the states of a workflow
//! through named transitions, and hooks attached to the transitions may
//! freeze, abort or redirect them.

pub mod text;
pub mod seqs;
pub mod config;
pub mod json;
pub mod paths;
pub mod payload;
pub mod registry;
pub mod actions;
pub mod run;
pub mod engine;
pub mod store;
pub mod laws;

pub use engine::WorkflowEngine;
pub use registry::{ActionContext, HookSignal, ScriptWrapper};
pub use config::WorkflowConfig;
pub use run::TransitionResult;
pub use store::StoredObject;
