//! What the adapter that exposes a module as an agent tool computes: the
//! tool's name, and the phase a call runs in.

use vstd::prelude::*;

use crate::text::{chars_of, push_all, string_of};
use crate::types::{parse_phase, phase_named, CognitivePhase};

verus! {

/// A module's tool name: `project_e.` followed by the module's name.
pub open spec fn tool_name_spec(module_name: Seq<char>) -> Seq<char> {
    "project_e."@ + module_name
}

pub fn tool_name_for(module_name: &str) -> (r: String)
    ensures
        r@ == tool_name_spec(module_name@),
{
    let mut out = chars_of("project_e.");
    push_all(&mut out, &chars_of(module_name));
    string_of(out.as_slice())
}

/// The phase a tool call runs in: the one its `phase` hint names, else
/// the action phase.
pub open spec fn phase_for_hint(hint: Option<Seq<char>>) -> CognitivePhase {
    match hint {
        Some(h) => match phase_named(h) {
            Some(p) => p,
            None => CognitivePhase::Action,
        },
        None => CognitivePhase::Action,
    }
}

pub fn phase_from_hint(hint: Option<&str>) -> (r: CognitivePhase)
    ensures
        r == phase_for_hint(
            match hint {
                Some(h) => Some(h@),
                None => None,
            },
        ),
{
    match hint {
        Some(h) => match parse_phase(h) {
            Some(p) => p,
            None => CognitivePhase::Action,
        },
        None => CognitivePhase::Action,
    }
}

} // verus!
