//! The policy engine: planned actions are checked against glob rules over
//! their labels, first match wins, and an action no rule matches is allowed.
//! Confidences are in thousandths (900 stands for 0.9).

use vstd::prelude::*;
use std::collections::HashMap;

use crate::config::{PolicyRuleConfig, PolicyRuleConfigView};
use crate::deliberation::{ActionPlan, ActionView, DeferredGap, DeferredView, PlannedAction};
use crate::text::{chars_eq, chars_of, push_all, string_of};

verus! {

broadcast use vstd::std_specs::hash::group_hash_axioms;

/// Whether `pattern` compiles as a glob pattern (glob's `Pattern::new`
/// succeeds on it).
pub uninterp spec fn glob_valid(pattern: Seq<char>) -> bool;

/// Whether the glob pattern compiled from `pattern` matches `text` (glob's
/// `Pattern::matches`).
pub uninterp spec fn glob_matches(pattern: Seq<char>, text: Seq<char>) -> bool;

/// glob's `Pattern::new`: whether `pattern` compiles. The contract names the
/// outcome and claims only that it depends on the pattern text alone.
#[verifier::external_body]
fn glob_compiles(pattern: &str) -> (r: bool)
    ensures
        r == glob_valid(pattern@),
{
    glob::Pattern::new(pattern).is_ok()
}

/// glob's `Pattern::matches`, with glob's default match options, run on the
/// pattern that `Pattern::new` compiles from `pattern` (known to compile).
/// The contract names the outcome and claims only that it depends on the
/// pattern text and `text` alone.
#[verifier::external_body]
fn glob_match(pattern: &str, text: &str) -> (r: bool)
    requires
        glob_valid(pattern@),
    ensures
        r == glob_matches(pattern@, text@),
{
    match glob::Pattern::new(pattern) {
        Ok(p) => p.matches(text),
        Err(_) => false,
    }
}

/// Policy decision for an action.
#[derive(Debug, Clone, Copy, PartialEq, Eq, Structural)]
pub enum PolicyAction {
    /// Proceed autonomously.
    Allow,
    /// Require human confirmation.
    Ask,
    /// Never allowed without explicit config change.
    Deny,
}

/// A compiled policy rule: a glob pattern over action labels, its decision,
/// and the confidence (in thousandths) below which a match is denied.
#[derive(Debug, Clone)]
pub struct PolicyRule {
    pub pattern: String,
    pub action: PolicyAction,
    pub min_confidence_thousandths: Option<u32>,
}

pub struct RuleView {
    pub pattern: Seq<char>,
    pub action: PolicyAction,
    pub min_confidence: Option<u32>,
}

impl View for PolicyRule {
    type V = RuleView;

    open spec fn view(&self) -> RuleView {
        RuleView {
            pattern: self.pattern@,
            action: self.action,
            min_confidence: self.min_confidence_thousandths,
        }
    }
}

/// The decision an action name stands for, if it names one.
pub open spec fn action_named(name: Seq<char>) -> Option<PolicyAction> {
    if name == "allow"@ {
        Some(PolicyAction::Allow)
    } else if name == "ask"@ {
        Some(PolicyAction::Ask)
    } else if name == "deny"@ {
        Some(PolicyAction::Deny)
    } else {
        None
    }
}

/// The rules compiled from configured ones: a rule whose pattern does not
/// compile or whose action is unknown is dropped; the others keep their
/// order.
pub open spec fn compiled(cfgs: Seq<PolicyRuleConfigView>) -> Seq<RuleView>
    decreases cfgs.len(),
{
    if cfgs.len() == 0 {
        Seq::empty()
    } else {
        let rest = compiled(cfgs.drop_last());
        let c = cfgs.last();
        if glob_valid(c.pattern) && action_named(c.action) is Some {
            rest.push(
                RuleView {
                    pattern: c.pattern,
                    action: action_named(c.action)->0,
                    min_confidence: c.min_confidence,
                },
            )
        } else {
            rest
        }
    }
}

/// The decision of the rules for an action label at a confidence: the first
/// rule whose pattern matches decides, denying below its minimum confidence;
/// with no matching rule the action is allowed.
pub open spec fn decide(rules: Seq<RuleView>, label: Seq<char>, confidence: u32) -> PolicyAction
    decreases rules.len(),
{
    if rules.len() == 0 {
        PolicyAction::Allow
    } else if glob_matches(rules[0].pattern, label) {
        matched_decision(rules[0], confidence)
    } else {
        decide(rules.skip(1), label, confidence)
    }
}

/// The confidence used for a gap: the one given, or full confidence.
pub open spec fn confidence_of(confidences: Map<u128, u32>, gap_id: u128) -> u32 {
    if confidences.contains_key(gap_id) {
        confidences[gap_id]
    } else {
        1000
    }
}

/// What filtering does to a list of actions: the allowed ones are kept, in
/// order; each other one becomes a deferral with the policy's reason.
pub open spec fn policy_split(
    rules: Seq<RuleView>,
    confidences: Map<u128, u32>,
    actions: Seq<ActionView>,
) -> (Seq<ActionView>, Seq<DeferredView>)
    decreases actions.len(),
{
    if actions.len() == 0 {
        (Seq::empty(), Seq::empty())
    } else {
        let (kept, deferred) = policy_split(rules, confidences, actions.drop_last());
        let a = actions.last();
        match decide(rules, a.label, confidence_of(confidences, a.gap_id)) {
            PolicyAction::Allow => (kept.push(a), deferred),
            PolicyAction::Deny => (
                kept,
                deferred.push(DeferredView { gap_id: a.gap_id, reason: "Policy denied: "@ + a.label }),
            ),
            PolicyAction::Ask => (
                kept,
                deferred.push(
                    DeferredView {
                        gap_id: a.gap_id,
                        reason: "Policy requires confirmation: "@ + a.label,
                    },
                ),
            ),
        }
    }
}

/// The rule a configured one compiles to, given whether its pattern
/// compiles: none when the pattern does not compile or the action name is
/// not `allow`, `ask` or `deny`.
pub fn rule_from_config(cfg: &PolicyRuleConfig, pattern_compiles: bool) -> (r: Option<PolicyRule>)
    ensures
        r is Some <==> pattern_compiles && action_named(cfg@.action) is Some,
        r matches Some(rule) ==> rule@ == (RuleView {
            pattern: cfg@.pattern,
            action: action_named(cfg@.action)->0,
            min_confidence: cfg@.min_confidence,
        }),
{
    if !pattern_compiles {
        return None;
    }
    let name = chars_of(cfg.action.as_str());
    let action: PolicyAction = if chars_eq(&name, &chars_of("allow")) {
        PolicyAction::Allow
    } else if chars_eq(&name, &chars_of("ask")) {
        PolicyAction::Ask
    } else if chars_eq(&name, &chars_of("deny")) {
        PolicyAction::Deny
    } else {
        return None;
    };
    let min_confidence_thousandths = match &cfg.condition {
        Some(c) => c.min_confidence_thousandths,
        None => None,
    };
    Some(PolicyRule { pattern: cfg.pattern.clone(), action, min_confidence_thousandths })
}

/// What a rule whose pattern matched decides at a confidence.
pub open spec fn matched_decision(rule: RuleView, confidence: u32) -> PolicyAction {
    match rule.min_confidence {
        Some(m) => if confidence < m {
            PolicyAction::Deny
        } else {
            rule.action
        },
        None => rule.action,
    }
}

impl PolicyRule {
    /// The decision of this rule once its pattern has matched: deny below
    /// the minimum confidence (thousandths), else the rule's action.
    pub fn decision_on_match(&self, confidence: u32) -> (r: PolicyAction)
        ensures
            r == matched_decision(self@, confidence),
    {
        match self.min_confidence_thousandths {
            Some(m) => if confidence < m {
                PolicyAction::Deny
            } else {
                self.action
            },
            None => self.action,
        }
    }
}

/// First match wins: the first rule whose pattern matches the label decides.
pub proof fn lemma_first_match_decides(rules: Seq<RuleView>, label: Seq<char>, confidence: u32, k: int)
    requires
        0 <= k < rules.len(),
        glob_matches(rules[k].pattern, label),
        forall|i: int| 0 <= i < k ==> !glob_matches(#[trigger] rules[i].pattern, label),
    ensures
        decide(rules, label, confidence) == matched_decision(rules[k], confidence),
    decreases k,
{
    if k > 0 {
        assert(!glob_matches(rules[0].pattern, label));
        let rest = rules.skip(1);
        assert forall|i: int| 0 <= i < k - 1 implies !glob_matches(#[trigger] rest[i].pattern, label) by {
            assert(rest[i] == rules[i + 1]);
        }
        assert(rest[k - 1] == rules[k]);
        lemma_first_match_decides(rest, label, confidence, k - 1);
    }
}

/// An action that no rule matches is allowed, whatever its confidence.
pub proof fn lemma_unmatched_is_allowed(rules: Seq<RuleView>, label: Seq<char>, confidence: u32)
    requires
        forall|i: int| 0 <= i < rules.len() ==> !glob_matches(#[trigger] rules[i].pattern, label),
    ensures
        decide(rules, label, confidence) == PolicyAction::Allow,
    decreases rules.len(),
{
    if rules.len() > 0 {
        assert(!glob_matches(rules[0].pattern, label));
        let rest = rules.skip(1);
        assert forall|i: int| 0 <= i < rest.len() implies !glob_matches(#[trigger] rest[i].pattern, label) by {
            assert(rest[i] == rules[i + 1]);
        }
        lemma_unmatched_is_allowed(rest, label, confidence);
    }
}

/// Filtering loses no action: every action is either kept, and then allowed,
/// or deferred, and then not allowed.
pub proof fn lemma_filter_accounts_for_every_action(
    rules: Seq<RuleView>,
    confidences: Map<u128, u32>,
    actions: Seq<ActionView>,
)
    ensures
        policy_split(rules, confidences, actions).0.len() + policy_split(rules, confidences, actions).1.len()
            == actions.len(),
        forall|k: int|
            0 <= k < policy_split(rules, confidences, actions).0.len() ==> {
                let a = #[trigger] policy_split(rules, confidences, actions).0[k];
                decide(rules, a.label, confidence_of(confidences, a.gap_id)) == PolicyAction::Allow
            },
    decreases actions.len(),
{
    if actions.len() > 0 {
        lemma_filter_accounts_for_every_action(rules, confidences, actions.drop_last());
    }
}

/// Policy evaluation as first match: when no rule's pattern matches the
/// label the action is allowed; otherwise the first matching rule decides,
/// denying when it sets a minimum confidence the action falls short of, and
/// giving its own action (allow, ask or deny) otherwise. The engine's rules
/// are the configured ones whose pattern compiles and whose action is
/// named `allow`, `ask` or `deny`, in order (`from_config`).
pub proof fn lemma_evaluation_is_first_match(rules: Seq<RuleView>, label: Seq<char>, confidence: u32)
    ensures
        (forall|i: int| 0 <= i < rules.len() ==> !glob_matches(#[trigger] rules[i].pattern, label))
            ==> decide(rules, label, confidence) == PolicyAction::Allow,
        forall|k: int|
            0 <= k < rules.len() && glob_matches(#[trigger] rules[k].pattern, label) && (forall|i: int|
                0 <= i < k ==> !glob_matches(#[trigger] rules[i].pattern, label)) ==> decide(rules, label, confidence)
                == (if (rules[k].min_confidence matches Some(c) && confidence < c) {
                PolicyAction::Deny
            } else {
                rules[k].action
            }),
{
    if forall|i: int| 0 <= i < rules.len() ==> !glob_matches(#[trigger] rules[i].pattern, label) {
        lemma_unmatched_is_allowed(rules, label, confidence);
    }
    assert forall|k: int|
        0 <= k < rules.len() && glob_matches(#[trigger] rules[k].pattern, label) && (forall|i: int|
            0 <= i < k ==> !glob_matches(#[trigger] rules[i].pattern, label)) implies decide(rules, label, confidence)
            == (if (rules[k].min_confidence matches Some(c) && confidence < c) {
            PolicyAction::Deny
        } else {
            rules[k].action
        }) by {
        lemma_first_match_decides(rules, label, confidence, k);
    }
}

/// Whether the rules allow an action, at its gap's confidence.
pub open spec fn allowed_by(rules: Seq<RuleView>, confidences: Map<u128, u32>) -> spec_fn(ActionView) -> bool {
    |a: ActionView| decide(rules, a.label, confidence_of(confidences, a.gap_id)) == PolicyAction::Allow
}

/// Whether the rules hold an action back (deny it or ask for confirmation).
pub open spec fn held_back_by(rules: Seq<RuleView>, confidences: Map<u128, u32>) -> spec_fn(ActionView) -> bool {
    |a: ActionView| decide(rules, a.label, confidence_of(confidences, a.gap_id)) != PolicyAction::Allow
}

/// Filtering is a partition: the kept actions are exactly the allowed ones,
/// in order, and there is one deferral for each other action (denied or
/// asked), in order, for that action's gap.
pub proof fn lemma_filter_is_partition(
    rules: Seq<RuleView>,
    confidences: Map<u128, u32>,
    actions: Seq<ActionView>,
)
    ensures
        policy_split(rules, confidences, actions).0 == actions.filter(allowed_by(rules, confidences)),
        policy_split(rules, confidences, actions).1.map_values(|d: DeferredView| d.gap_id) == actions.filter(
            held_back_by(rules, confidences),
        ).map_values(|a: ActionView| a.gap_id),
    decreases actions.len(),
{
    reveal(Seq::filter);
    if actions.len() > 0 {
        let init = actions.drop_last();
        lemma_filter_is_partition(rules, confidences, init);
        let prev = policy_split(rules, confidences, init);
        let cur = policy_split(rules, confidences, actions);
        let a = actions.last();
        let held = init.filter(held_back_by(rules, confidences));
        if held_back_by(rules, confidences)(a) {
            assert(cur.1.map_values(|d: DeferredView| d.gap_id) =~= prev.1.map_values(|d: DeferredView| d.gap_id).push(
                a.gap_id,
            ));
            assert(held.push(a).map_values(|x: ActionView| x.gap_id) =~= held.map_values(|x: ActionView| x.gap_id).push(
                a.gap_id,
            ));
        }
    }
}

/// Evaluates planned actions against policy rules.
pub struct PolicyEngine {
    rules: Vec<PolicyRule>,
}

pub open spec fn rules_view(rules: Seq<PolicyRule>) -> Seq<RuleView> {
    rules.map_values(|r: PolicyRule| r@)
}

impl View for PolicyEngine {
    type V = Seq<RuleView>;

    closed spec fn view(&self) -> Seq<RuleView> {
        rules_view(self.rules@)
    }
}

impl PolicyEngine {
    /// Every rule's pattern compiles.
    #[verifier::type_invariant]
    closed spec fn patterns_compile(&self) -> bool {
        forall|i: int| 0 <= i < self.rules@.len() ==> glob_valid(#[trigger] self.rules@[i].pattern@)
    }

    /// Build from configuration.
    pub fn from_config(rules: &[PolicyRuleConfig]) -> (e: Self)
        ensures
            e@ == compiled(rules@.map_values(|c: PolicyRuleConfig| c@)),
    {
        let ghost cfgs = rules@.map_values(|c: PolicyRuleConfig| c@);
        let mut out: Vec<PolicyRule> = Vec::new();
        let mut i: usize = 0;
        while i < rules.len()
            invariant
                i <= rules@.len(),
                cfgs == rules@.map_values(|c: PolicyRuleConfig| c@),
                rules_view(out@) == compiled(cfgs.take(i as int)),
                forall|k: int| 0 <= k < out@.len() ==> glob_valid(#[trigger] out@[k].pattern@),
            decreases rules.len() - i,
        {
            let r = &rules[i];
            proof {
                assert(cfgs.take(i + 1).drop_last() =~= cfgs.take(i as int));
                assert(cfgs.take(i + 1).last() == r@);
            }
            let valid = glob_compiles(r.pattern.as_str());
            if let Some(rule) = rule_from_config(r, valid) {
                let ghost before = out@;
                out.push(rule);
                assert(rules_view(out@) =~= rules_view(before).push(out@.last()@));
            }
            i = i + 1;
        }
        assert(cfgs.take(rules@.len() as int) =~= cfgs);
        PolicyEngine { rules: out }
    }

    /// Evaluate a single action against policy rules (confidence in
    /// thousandths). First match wins; with no match the action is allowed.
    pub fn evaluate(&self, action: &PlannedAction, confidence: u32) -> (r: PolicyAction)
        ensures
            r == decide(self@, action@.label, confidence),
    {
        proof {
            use_type_invariant(self);
        }
        let ghost rv = rules_view(self.rules@);
        assert(rv.skip(0) =~= rv);
        let mut i: usize = 0;
        while i < self.rules.len()
            invariant
                i <= self.rules@.len(),
                rv == rules_view(self.rules@),
                rv == self@,
                forall|k: int| 0 <= k < self.rules@.len() ==> glob_valid(#[trigger] self.rules@[k].pattern@),
                decide(rv, action@.label, confidence) == decide(rv.skip(i as int), action@.label, confidence),
            decreases self.rules.len() - i,
        {
            let rule = &self.rules[i];
            assert(rv.skip(i as int)[0] == rule@);
            assert(rv.skip(i as int).skip(1) =~= rv.skip(i + 1));
            if glob_match(rule.pattern.as_str(), action.action_label.as_str()) {
                return rule.decision_on_match(confidence);
            }
            i = i + 1;
        }
        PolicyAction::Allow
    }

    /// Filter an action plan through the policy engine: allowed actions stay
    /// in order; denied and asked ones are appended to the deferred gaps with
    /// the policy's reason. A gap without a given confidence counts as fully
    /// confident.
    pub fn filter_plan(&self, plan: &mut ActionPlan, confidences: &HashMap<u128, u32>)
        ensures
            final(plan).id == old(plan).id,
            final(plan).cycle_id == old(plan).cycle_id,
            final(plan).max_concurrent == old(plan).max_concurrent,
            ({
                let (kept, deferred) = policy_split(
                    self@,
                    confidences@,
                    old(plan).actions@.map_values(|a: PlannedAction| a@),
                );
                &&& final(plan).actions@.map_values(|a: PlannedAction| a@) == kept
                &&& final(plan).deferred@.map_values(|d: DeferredGap| d@)
                    == old(plan).deferred@.map_values(|d: DeferredGap| d@) + deferred
            }),
    {
        let ghost acts = plan.actions@.map_values(|a: PlannedAction| a@);
        let ghost d0 = plan.deferred@.map_values(|d: DeferredGap| d@);
        let denied = chars_of("Policy denied: ");
        let asked = chars_of("Policy requires confirmation: ");
        let mut actions: Vec<PlannedAction> = Vec::new();
        std::mem::swap(&mut actions, &mut plan.actions);
        let mut kept: Vec<PlannedAction> = Vec::new();
        let mut i: usize = 0;
        while i < actions.len()
            invariant
                i <= actions@.len(),
                acts == actions@.map_values(|a: PlannedAction| a@),
                denied@ == "Policy denied: "@,
                asked@ == "Policy requires confirmation: "@,
                plan.id == old(plan).id,
                plan.cycle_id == old(plan).cycle_id,
                plan.max_concurrent == old(plan).max_concurrent,
                d0 == old(plan).deferred@.map_values(|d: DeferredGap| d@),
                acts == old(plan).actions@.map_values(|a: PlannedAction| a@),
                ({
                    let (k, d) = policy_split(self@, confidences@, acts.take(i as int));
                    &&& kept@.map_values(|a: PlannedAction| a@) == k
                    &&& plan.deferred@.map_values(|d: DeferredGap| d@) == d0 + d
                }),
            decreases actions@.len() - i,
        {
            let action = &actions[i];
            proof {
                assert(acts.take(i + 1).drop_last() =~= acts.take(i as int));
                assert(acts.take(i + 1).last() == action@);
            }
            let confidence: u32 = match confidences.get(&action.gap_id) {
                Some(c) => *c,
                None => 1000,
            };
            assert(confidence == confidence_of(confidences@, action.gap_id));
            let decision = self.evaluate(action, confidence);
            let ghost kv = kept@.map_values(|a: PlannedAction| a@);
            let ghost dv = plan.deferred@.map_values(|d: DeferredGap| d@);
            match decision {
                PolicyAction::Allow => {
                    kept.push(action.copy());
                    assert(kept@.map_values(|a: PlannedAction| a@) =~= kv.push(action@));
                },
                PolicyAction::Deny => {
                    let reason = reason_text(&denied, &action.action_label);
                    plan.deferred.push(DeferredGap { gap_id: action.gap_id, reason });
                    assert(plan.deferred@.map_values(|d: DeferredGap| d@) =~= dv.push(
                        DeferredView { gap_id: action.gap_id, reason: "Policy denied: "@ + action@.label },
                    ));
                },
                PolicyAction::Ask => {
                    let reason = reason_text(&asked, &action.action_label);
                    plan.deferred.push(DeferredGap { gap_id: action.gap_id, reason });
                    assert(plan.deferred@.map_values(|d: DeferredGap| d@) =~= dv.push(
                        DeferredView {
                            gap_id: action.gap_id,
                            reason: "Policy requires confirmation: "@ + action@.label,
                        },
                    ));
                },
            }
            i = i + 1;
        }
        assert(acts.take(actions@.len() as int) =~= acts);
        plan.actions = kept;
    }
}

/// `prefix` followed by `label`, as a `String`.
fn reason_text(prefix: &Vec<char>, label: &String) -> (r: String)
    ensures
        r@ == prefix@ + label@,
{
    let mut out: Vec<char> = Vec::new();
    push_all(&mut out, prefix);
    push_all(&mut out, &chars_of(label.as_str()));
    string_of(out.as_slice())
}

} // verus!
