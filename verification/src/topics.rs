//! Topic taxonomy for the event bus.
//!
//! Topics follow the hierarchical naming convention
//! `project_e.<domain>.<event_name>`.

pub mod namespace;
pub mod wildcards;
