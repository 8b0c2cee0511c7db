//! Reconciliation of a project's `inix` scaffold directory with a set of
//! requested templates: collision classification, conflict policy, the
//! interactive prompt's decisions, and the action plan with its narrative.

pub mod collisions;
pub mod plan;
pub mod prompt;
pub mod reconcile;
pub mod render;
pub mod template;
pub mod text;
