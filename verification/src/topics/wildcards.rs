//! Wildcard subscriptions for consuming entire domains.

use vstd::prelude::*;

verus! {

pub const ALL: &'static str = "project_e.>";

pub const ALL_SYSTEM: &'static str = "project_e.system.*";

pub const ALL_PERCEPTION: &'static str = "project_e.perception.*";

pub const ALL_ANALYSIS: &'static str = "project_e.analysis.*";

pub const ALL_META: &'static str = "project_e.meta.*";

pub const ALL_FORGE: &'static str = "project_e.forge.*";

pub const ALL_REGISTRY: &'static str = "project_e.registry.*";

pub const ALL_SCRAPERS: &'static str = "project_e.perception.scraper.*";

} // verus!
