//! Error types of the cognitive layer.

use vstd::prelude::*;

use crate::types::GateName;

verus! {

/// Top-level error type for Project E operations.
#[derive(Debug, Clone)]
pub enum ProjectEError {
    Config { reason: String },
    Module { reason: String },
    EventBus { reason: String },
    CircuitOpen { provider: String },
    Llm { reason: String },
    Database { reason: String },
    Forge { reason: String },
    Perception { reason: String },
    Analysis { reason: String },
    Metacognition { reason: String },
    Registry { reason: String },
    Serialization { reason: String },
    Io { reason: String },
    Timeout { duration_secs: u64 },
}

/// Error type for knowledge bridge operations.
#[derive(Debug, Clone)]
pub enum KnowledgeError {
    Write(String),
    Search(String),
}

/// Error type for LLM bridge operations.
#[derive(Debug, Clone)]
pub enum BridgeError {
    CircuitOpen { reason: String },
    BudgetExceeded { reason: String },
    ProviderError { reason: String },
}

/// Error from the forge runner.
#[derive(Debug, Clone)]
pub enum ForgeError {
    WorkspaceSetup(String),
    GateFailed { gate: GateName, message: String },
    RetriesExhausted { attempts: u8 },
    EventBus(String),
}

} // verus!
