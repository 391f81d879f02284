//! Topic namespace constants for each cognitive domain.

use vstd::prelude::*;

verus! {

pub const SYSTEM: &'static str = "project_e.system";

pub const PERCEPTION: &'static str = "project_e.perception";

pub const ANALYSIS: &'static str = "project_e.analysis";

pub const META: &'static str = "project_e.meta";

pub const FORGE: &'static str = "project_e.forge";

pub const REGISTRY: &'static str = "project_e.registry";

} // verus!
