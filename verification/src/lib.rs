//! Project E — the decision logic of a self-improving cognitive agent,
//! with its contracts proved by Verus.
//!
//! The library holds the state machines and rules of the agent: the module
//! lifecycle, the LLM circuit breaker and call budget, the forge gates and
//! their retry bookkeeping, deliberation by operating mode, policy
//! filtering, the self-model and meta-adaptation thresholds, the
//! supervisor's anomaly counters, the skill catalog, the cycle runner's
//! decisions, configuration layering, and the text handling (chunking,
//! topic matching, tokenizing, fence stripping) that these rely on.

pub mod types;
pub mod text;
pub mod topics;
pub mod event_bus;
pub mod knowledge;
pub mod error;
pub mod config;
pub mod llm_health;
pub mod ids;
pub mod analysis;
pub mod deliberation;
pub mod forge;
pub mod forge_runner;
pub mod registry;
pub mod supervisor;
pub mod skills;
pub mod policy;
pub mod cycle;
pub mod cycle_runner;
pub mod llm_bridge;
pub mod module_adapter;
pub mod config_layers;
pub mod metacognition;
