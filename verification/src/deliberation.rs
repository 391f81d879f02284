//! Deliberation: turning gap reports into an action plan according to the
//! operating mode, and assigning each planned action its Cynefin-based forge
//! strategy.
//!
//! Recovery defers every gap; Cautious plans at most two actions and only
//! for simple or confirmed gaps; Nominal plans every gap up to the per-cycle
//! action limit. Every gap ends up either planned or deferred; the deferred
//! gaps keep the reports' order, and the planned actions are ordered by
//! priority (the reports' order among equal priorities).

use vstd::prelude::*;

use crate::analysis::GapReport;
use crate::config::{LimitsConfig, owned};
use crate::ids::new_id;
use crate::text::{chars_of, push_all, string_of};
use crate::types::{
    CynefinDomain, GapClassification, OperatingMode, cynefin_debug_spec, cynefin_label_spec,
    priority_ordinal_spec, wardley_max_retries_spec,
};

verus! {

/// Forge strategy derived from Cynefin domain.
#[derive(Debug, Clone, Copy, PartialEq, Eq, Structural)]
pub enum ForgeStrategy {
    CreateFromTemplate,
    CreateWithVariants { variant_count: u8 },
    CreateExperimental,
    CreateRapidPrototype,
}

/// A planned action derived from a gap report.
#[derive(Debug, Clone)]
pub struct PlannedAction {
    pub gap_id: u128,
    pub strategy: ForgeStrategy,
    pub max_retries: u8,
    pub experimental: bool,
    pub action_label: String,
}

/// A gap that was deferred (not acted on this cycle).
#[derive(Debug, Clone)]
pub struct DeferredGap {
    pub gap_id: u128,
    pub reason: String,
}

/// The output of deliberation: actions to take and gaps deferred.
#[derive(Debug, Clone)]
pub struct ActionPlan {
    pub id: u128,
    pub cycle_id: u128,
    /// Ordered by priority.
    pub actions: Vec<PlannedAction>,
    /// Gaps not acted on this cycle, with reasons.
    pub deferred: Vec<DeferredGap>,
    /// From the limits' `max_concurrent_actions`.
    pub max_concurrent: usize,
}

impl ActionPlan {
    /// The actions a cycle runs: the first `max_concurrent` of the plan's
    /// actions (all of them when there are fewer).
    pub fn into_runnable(self) -> (r: Vec<PlannedAction>)
        ensures
            r@ == if self.actions@.len() <= self.max_concurrent {
                self.actions@
            } else {
                self.actions@.take(self.max_concurrent as int)
            },
    {
        let mut actions = self.actions;
        if actions.len() > self.max_concurrent {
            actions.truncate(self.max_concurrent);
        }
        actions
    }
}

pub struct ActionView {
    pub gap_id: u128,
    pub strategy: ForgeStrategy,
    pub max_retries: u8,
    pub experimental: bool,
    pub label: Seq<char>,
}

pub struct DeferredView {
    pub gap_id: u128,
    pub reason: Seq<char>,
}

impl View for PlannedAction {
    type V = ActionView;

    open spec fn view(&self) -> ActionView {
        ActionView {
            gap_id: self.gap_id,
            strategy: self.strategy,
            max_retries: self.max_retries,
            experimental: self.experimental,
            label: self.action_label@,
        }
    }
}

impl PlannedAction {
    /// An independent copy of the action, equal to it.
    pub fn copy(&self) -> (r: Self)
        ensures
            r@ == self@,
    {
        PlannedAction {
            gap_id: self.gap_id,
            strategy: self.strategy,
            max_retries: self.max_retries,
            experimental: self.experimental,
            action_label: self.action_label.clone(),
        }
    }
}

impl View for DeferredGap {
    type V = DeferredView;

    open spec fn view(&self) -> DeferredView {
        DeferredView { gap_id: self.gap_id, reason: self.reason@ }
    }
}

pub open spec fn strategy_for(d: CynefinDomain) -> ForgeStrategy {
    match d {
        CynefinDomain::Simple => ForgeStrategy::CreateFromTemplate,
        CynefinDomain::Complicated => ForgeStrategy::CreateWithVariants { variant_count: 2 },
        CynefinDomain::Complex => ForgeStrategy::CreateExperimental,
        CynefinDomain::Chaotic => ForgeStrategy::CreateRapidPrototype,
    }
}

/// The action planned for a gap: its strategy, its stage's retry budget,
/// the experimental flag for complex and chaotic gaps, and the policy label
/// `module.create.<domain>`.
pub open spec fn planned(gap: GapReport) -> ActionView {
    ActionView {
        gap_id: gap.id,
        strategy: strategy_for(gap.cynefin_domain),
        max_retries: wardley_max_retries_spec(gap.wardley_stage),
        experimental: gap.cynefin_domain == CynefinDomain::Complex || gap.cynefin_domain
            == CynefinDomain::Chaotic,
        label: "module.create."@ + cynefin_label_spec(gap.cynefin_domain),
    }
}

pub open spec fn recovery_reason() -> Seq<char> {
    "System in Recovery mode — deferring all actions"@
}

pub open spec fn cautious_limit_reason() -> Seq<char> {
    "Cautious mode action limit reached"@
}

pub open spec fn cautious_domain_reason(d: CynefinDomain) -> Seq<char> {
    "Cautious mode — deferring "@ + cynefin_debug_spec(d) + " domain gap"@
}

pub open spec fn nominal_limit_reason() -> Seq<char> {
    "Max actions per cycle reached"@
}

/// The most actions a mode plans in one cycle.
pub open spec fn mode_limit(mode: OperatingMode, max_actions: nat) -> nat {
    match mode {
        OperatingMode::Recovery => 0,
        OperatingMode::Cautious => if max_actions < 2 { max_actions } else { 2 },
        OperatingMode::Nominal => max_actions,
    }
}

/// Deliberation over `gaps` in order: the gaps chosen for action, in the
/// reports' order, and the deferred gaps.
pub open spec fn deliberation(gaps: Seq<GapReport>, mode: OperatingMode, max_actions: nat) -> (
    Seq<GapReport>,
    Seq<DeferredView>,
)
    decreases gaps.len(),
{
    if gaps.len() == 0 {
        (Seq::empty(), Seq::empty())
    } else {
        let (a, d) = deliberation(gaps.drop_last(), mode, max_actions);
        let g = gaps.last();
        match mode {
            OperatingMode::Recovery => (a, d.push(DeferredView { gap_id: g.id, reason: recovery_reason() })),
            OperatingMode::Cautious => if a.len() >= mode_limit(mode, max_actions) {
                (a, d.push(DeferredView { gap_id: g.id, reason: cautious_limit_reason() }))
            } else if g.cynefin_domain == CynefinDomain::Simple || g.classification
                == GapClassification::Confirmation {
                (a.push(g), d)
            } else {
                (a, d.push(DeferredView { gap_id: g.id, reason: cautious_domain_reason(g.cynefin_domain) }))
            },
            OperatingMode::Nominal => if a.len() >= max_actions {
                (a, d.push(DeferredView { gap_id: g.id, reason: nominal_limit_reason() }))
            } else {
                (a.push(g), d)
            },
        }
    }
}

/// A gap's priority as a number: Critical 3, High 2, Medium 1, Low 0.
pub open spec fn prio(g: GapReport) -> u8 {
    priority_ordinal_spec(g.priority)
}

/// `g` placed into `s` right after the last gap of at least its priority
/// (at the front if there is none).
pub open spec fn insert_by_priority(s: Seq<GapReport>, g: GapReport) -> Seq<GapReport>
    decreases s.len(),
{
    if s.len() == 0 || prio(s.last()) >= prio(g) {
        s.push(g)
    } else {
        insert_by_priority(s.drop_last(), g).push(s.last())
    }
}

/// `s` ordered by priority, highest first; gaps of equal priority keep
/// their order in `s`.
pub open spec fn by_priority(s: Seq<GapReport>) -> Seq<GapReport>
    decreases s.len(),
{
    if s.len() == 0 {
        s
    } else {
        insert_by_priority(by_priority(s.drop_last()), s.last())
    }
}

/// The gaps of `s` whose priority number is `p`, in order.
pub open spec fn at_level(s: Seq<GapReport>, p: u8) -> Seq<GapReport>
    decreases s.len(),
{
    if s.len() == 0 {
        s
    } else if prio(s.last()) == p {
        at_level(s.drop_last(), p).push(s.last())
    } else {
        at_level(s.drop_last(), p)
    }
}

/// No gap of `s` comes before one of higher priority.
pub open spec fn priority_sorted(s: Seq<GapReport>) -> bool {
    forall|i: int, j: int| 0 <= i < j < s.len() ==> prio(#[trigger] s[i]) >= prio(#[trigger] s[j])
}

/// The gaps a deliberation acts on, in the order of the plan's actions.
pub open spec fn plan_order(gaps: Seq<GapReport>, mode: OperatingMode, max_actions: nat) -> Seq<GapReport> {
    by_priority(deliberation(gaps, mode, max_actions).0)
}

proof fn lemma_insert_at(s: Seq<GapReport>, g: GapReport, pos: int)
    requires
        0 <= pos <= s.len(),
        forall|k: int| pos <= k < s.len() ==> prio(#[trigger] s[k]) < prio(g),
        pos == 0 || prio(s[pos - 1]) >= prio(g),
    ensures
        insert_by_priority(s, g) == s.insert(pos, g),
    decreases s.len(),
{
    if s.len() == 0 {
        assert(s.push(g) =~= s.insert(pos, g));
    } else if prio(s.last()) >= prio(g) {
        if pos < s.len() {
            assert(prio(s[s.len() - 1]) < prio(g));
        }
        assert(s.push(g) =~= s.insert(pos, g));
    } else {
        let init = s.drop_last();
        assert forall|k: int| pos <= k < init.len() implies prio(#[trigger] init[k]) < prio(g) by {
            assert(init[k] == s[k]);
        }
        if pos > 0 {
            assert(init[pos - 1] == s[pos - 1]);
        }
        lemma_insert_at(init, g, pos);
        assert(init.insert(pos, g).push(s.last()) =~= s.insert(pos, g));
    }
}

proof fn lemma_insert_props(s: Seq<GapReport>, g: GapReport)
    ensures
        insert_by_priority(s, g).len() == s.len() + 1,
        priority_sorted(s) ==> priority_sorted(insert_by_priority(s, g)),
        forall|p: u8| #[trigger] at_level(insert_by_priority(s, g), p) == if prio(g) == p {
            at_level(s, p).push(g)
        } else {
            at_level(s, p)
        },
        forall|x: GapReport| #[trigger] insert_by_priority(s, g).contains(x) <==> (s.contains(x) || x == g),
    decreases s.len(),
{
    let r = insert_by_priority(s, g);
    if s.len() == 0 || prio(s.last()) >= prio(g) {
        assert(r.drop_last() =~= s);
        assert forall|p: u8| #[trigger] at_level(r, p) == if prio(g) == p {
            at_level(s, p).push(g)
        } else {
            at_level(s, p)
        } by {}
        assert forall|x: GapReport| #[trigger] r.contains(x) <==> (s.contains(x) || x == g) by {
            if r.contains(x) {
                let k = choose|k: int| 0 <= k < r.len() && r[k] == x;
                if k < s.len() {
                    assert(s[k] == x);
                }
            }
            if s.contains(x) {
                let k = choose|k: int| 0 <= k < s.len() && s[k] == x;
                assert(r[k] == x);
            }
            if x == g {
                assert(r[s.len() as int] == x);
            }
        }
        if priority_sorted(s) {
            assert forall|i: int, j: int| 0 <= i < j < r.len() implies prio(#[trigger] r[i]) >= prio(
                #[trigger] r[j],
            ) by {
                if j == s.len() {
                    if i < s.len() - 1 {
                        assert(prio(s[i]) >= prio(s[s.len() - 1]));
                    }
                } else {
                    assert(r[i] == s[i] && r[j] == s[j]);
                }
            }
        }
    } else {
        let init = s.drop_last();
        let last = s.last();
        lemma_insert_props(init, g);
        let q = insert_by_priority(init, g);
        assert(r == q.push(last));
        assert(r.drop_last() =~= q);
        assert(s =~= init.push(last));
        assert forall|p: u8| #[trigger] at_level(r, p) == if prio(g) == p {
            at_level(s, p).push(g)
        } else {
            at_level(s, p)
        } by {
            assert(at_level(q, p) == if prio(g) == p {
                at_level(init, p).push(g)
            } else {
                at_level(init, p)
            });
        }
        assert forall|x: GapReport| #[trigger] r.contains(x) <==> (s.contains(x) || x == g) by {
            assert(q.contains(x) <==> (init.contains(x) || x == g));
            if r.contains(x) {
                let k = choose|k: int| 0 <= k < r.len() && r[k] == x;
                if k < q.len() {
                    assert(q[k] == x);
                    if init.contains(x) {
                        let m = choose|m: int| 0 <= m < init.len() && init[m] == x;
                        assert(s[m] == x);
                    }
                } else {
                    assert(s[s.len() - 1] == x);
                }
            }
            if s.contains(x) {
                let k = choose|k: int| 0 <= k < s.len() && s[k] == x;
                if k < init.len() {
                    assert(init[k] == x);
                    assert(q.contains(x));
                    let m = choose|m: int| 0 <= m < q.len() && q[m] == x;
                    assert(r[m] == x);
                } else {
                    assert(r[q.len() as int] == x);
                }
            }
            if x == g {
                assert(q.contains(g));
                let m = choose|m: int| 0 <= m < q.len() && q[m] == g;
                assert(r[m] == x);
            }
        }
        if priority_sorted(s) {
            assert(priority_sorted(init)) by {
                assert forall|i: int, j: int| 0 <= i < j < init.len() implies prio(#[trigger] init[i])
                    >= prio(#[trigger] init[j]) by {
                    assert(init[i] == s[i] && init[j] == s[j]);
                }
            }
            assert forall|i: int, j: int| 0 <= i < j < r.len() implies prio(#[trigger] r[i]) >= prio(
                #[trigger] r[j],
            ) by {
                if j == q.len() {
                    // r[i] is in q, so it is in init or it is g; both rank at least `last`.
                    assert(r[i] == q[i]);
                    assert(q.contains(q[i]));
                    if q[i] != g {
                        assert(init.contains(q[i]));
                        let m = choose|m: int| 0 <= m < init.len() && init[m] == q[i];
                        assert(prio(s[m]) >= prio(s[s.len() - 1]));
                    }
                } else {
                    assert(r[i] == q[i] && r[j] == q[j]);
                }
            }
        }
    }
}

/// Ordering by priority keeps every gap and nothing else: the result is as
/// long as `s`, holds exactly the gaps of `s`, and is sorted by priority;
/// among gaps of one priority the order of `s` is kept.
pub proof fn lemma_by_priority_orders_stably(s: Seq<GapReport>)
    ensures
        by_priority(s).len() == s.len(),
        priority_sorted(by_priority(s)),
        forall|x: GapReport| #[trigger] by_priority(s).contains(x) <==> s.contains(x),
        forall|p: u8| #[trigger] at_level(by_priority(s), p) == at_level(s, p),
    decreases s.len(),
{
    if s.len() > 0 {
        let init = s.drop_last();
        lemma_by_priority_orders_stably(init);
        lemma_insert_props(by_priority(init), s.last());
        assert(s =~= init.push(s.last()));
        assert forall|x: GapReport| #[trigger] by_priority(s).contains(x) <==> s.contains(x) by {
            assert(by_priority(init).contains(x) <==> init.contains(x));
            if s.contains(x) {
                let k = choose|k: int| 0 <= k < s.len() && s[k] == x;
                if k < init.len() {
                    assert(init[k] == x);
                }
            }
            if init.contains(x) {
                let k = choose|k: int| 0 <= k < init.len() && init[k] == x;
                assert(s[k] == x);
            }
        }
    }
}

fn cautious_domain_reason_text(d: CynefinDomain) -> (r: String)
    ensures
        r@ == cautious_domain_reason(d),
{
    let mut out = chars_of("Cautious mode — deferring ");
    push_all(&mut out, &chars_of(d.debug_name()));
    push_all(&mut out, &chars_of(" domain gap"));
    string_of(out.as_slice())
}

pub struct DeliberationEngine {
    limits: LimitsConfig,
}

impl DeliberationEngine {
    /// The limits the engine plans within.
    pub closed spec fn limits(&self) -> LimitsConfig {
        self.limits
    }

    pub fn new(limits: LimitsConfig) -> (r: Self)
        ensures
            r.limits() == limits,
    {
        DeliberationEngine { limits }
    }

    /// Run deliberation: choose gaps by operating mode, assign strategies,
    /// and order the actions by priority.
    pub fn deliberate(&self, cycle_id: u128, gap_reports: Vec<GapReport>, mode: OperatingMode) -> (r: ActionPlan)
        ensures
            r.cycle_id == cycle_id,
            r.max_concurrent == self.limits().max_concurrent_actions,
            r.actions@.map_values(|a: PlannedAction| a@) == plan_order(
                gap_reports@,
                mode,
                self.limits().max_actions_per_cycle as nat,
            ).map_values(|g: GapReport| planned(g)),
            forall|i: int, j: int|
                0 <= i < j < r.actions@.len() ==> prio(
                    #[trigger] plan_order(gap_reports@, mode, self.limits().max_actions_per_cycle as nat)[i],
                ) >= prio(
                    #[trigger] plan_order(gap_reports@, mode, self.limits().max_actions_per_cycle as nat)[j],
                ),
            r.deferred@.map_values(|d: DeferredGap| d@) == deliberation(
                gap_reports@,
                mode,
                self.limits().max_actions_per_cycle as nat,
            ).1,
    {
        let max_actions = self.limits.max_actions_per_cycle;
        let cautious_max: usize = if max_actions < 2 { max_actions } else { 2 };
        // Positions in `gap_reports` of the chosen gaps, ordered by priority.
        let mut order: Vec<usize> = Vec::new();
        let mut deferred: Vec<DeferredGap> = Vec::new();
        let mut i: usize = 0;
        while i < gap_reports.len()
            invariant
                i <= gap_reports.len(),
                max_actions == self.limits().max_actions_per_cycle,
                cautious_max == mode_limit(OperatingMode::Cautious, max_actions as nat),
                order@.len() == deliberation(gap_reports@.take(i as int), mode, max_actions as nat).0.len(),
                forall|k: int| 0 <= k < order@.len() ==> #[trigger] order@[k] < i,
                order@.map_values(|k: usize| gap_reports@[k as int]) == by_priority(
                    deliberation(gap_reports@.take(i as int), mode, max_actions as nat).0,
                ),
                deferred@.map_values(|d: DeferredGap| d@) == deliberation(
                    gap_reports@.take(i as int),
                    mode,
                    max_actions as nat,
                ).1,
            decreases gap_reports.len() - i,
        {
            let gap = &gap_reports[i];
            let ghost pre = gap_reports@.take(i as int);
            let ghost prev = deliberation(pre, mode, max_actions as nat);
            assert(gap_reports@.take(i + 1).drop_last() =~= pre);
            assert(gap_reports@.take(i + 1).last() == *gap);
            let ghost old_d = deferred@;
            let choose_it: bool = match mode {
                OperatingMode::Recovery => {
                    deferred.push(DeferredGap { gap_id: gap.id, reason: owned("System in Recovery mode — deferring all actions") });
                    false
                },
                OperatingMode::Cautious => {
                    if order.len() >= cautious_max {
                        deferred.push(DeferredGap { gap_id: gap.id, reason: owned("Cautious mode action limit reached") });
                        false
                    } else if gap.cynefin_domain == CynefinDomain::Simple || gap.classification
                        == GapClassification::Confirmation {
                        true
                    } else {
                        deferred.push(DeferredGap { gap_id: gap.id, reason: cautious_domain_reason_text(gap.cynefin_domain) });
                        false
                    }
                },
                OperatingMode::Nominal => {
                    if order.len() >= max_actions {
                        deferred.push(DeferredGap { gap_id: gap.id, reason: owned("Max actions per cycle reached") });
                        false
                    } else {
                        true
                    }
                },
            };
            if choose_it {
                let g_ord = gap.priority.ordinal();
                let ghost s = order@.map_values(|k: usize| gap_reports@[k as int]);
                let mut pos: usize = order.len();
                while pos > 0 && gap_reports[order[pos - 1]].priority.ordinal() < g_ord
                    invariant
                        pos <= order@.len(),
                        i < gap_reports@.len(),
                        g_ord == prio(gap_reports@[i as int]),
                        forall|k: int| 0 <= k < order@.len() ==> #[trigger] order@[k] < i,
                        s == order@.map_values(|k: usize| gap_reports@[k as int]),
                        forall|k: int| pos <= k < s.len() ==> prio(#[trigger] s[k]) < g_ord,
                    decreases pos,
                {
                    pos = pos - 1;
                }
                proof {
                    lemma_insert_at(s, gap_reports@[i as int], pos as int);
                    assert(prev.0.push(*gap).drop_last() =~= prev.0);
                }
                order.insert(pos, i);
                proof {
                    assert(order@.map_values(|k: usize| gap_reports@[k as int]) =~= s.insert(
                        pos as int,
                        gap_reports@[i as int],
                    ));
                }
            }
            assert(deferred@.map_values(|d: DeferredGap| d@) =~= deliberation(
                gap_reports@.take(i + 1),
                mode,
                max_actions as nat,
            ).1);
            i = i + 1;
        }
        assert(gap_reports@.take(gap_reports.len() as int) =~= gap_reports@);
        let ghost ordered = plan_order(gap_reports@, mode, max_actions as nat);
        let mut actions: Vec<PlannedAction> = Vec::new();
        let mut k: usize = 0;
        while k < order.len()
            invariant
                k <= order@.len(),
                ordered == order@.map_values(|m: usize| gap_reports@[m as int]),
                forall|m: int| 0 <= m < order@.len() ==> #[trigger] order@[m] < gap_reports@.len(),
                actions@.map_values(|a: PlannedAction| a@) == ordered.take(k as int).map_values(
                    |g: GapReport| planned(g),
                ),
            decreases order@.len() - k,
        {
            let idx = order[k];
            assert(ordered[k as int] == gap_reports@[idx as int]);
            let action = self.plan_action(&gap_reports[idx]);
            assert(action@ == planned(ordered[k as int]));
            let ghost before = actions@.map_values(|a: PlannedAction| a@);
            actions.push(action);
            assert(actions@.map_values(|a: PlannedAction| a@) =~= before.push(action@));
            assert(ordered.take(k + 1) =~= ordered.take(k as int).push(ordered[k as int]));
            k = k + 1;
            assert(actions@.map_values(|a: PlannedAction| a@) =~= ordered.take(k as int).map_values(
                |g: GapReport| planned(g),
            ));
        }
        assert(ordered.take(order@.len() as int) =~= ordered);
        proof {
            lemma_by_priority_orders_stably(deliberation(gap_reports@, mode, max_actions as nat).0);
        }
        ActionPlan {
            id: new_id(),
            cycle_id,
            actions,
            deferred,
            max_concurrent: self.limits.max_concurrent_actions,
        }
    }

    /// The action planned for one gap.
    pub fn plan_action(&self, gap: &GapReport) -> (r: PlannedAction)
        ensures
            r@ == planned(*gap),
    {
        let strategy = match gap.cynefin_domain {
            CynefinDomain::Simple => ForgeStrategy::CreateFromTemplate,
            CynefinDomain::Complicated => ForgeStrategy::CreateWithVariants { variant_count: 2 },
            CynefinDomain::Complex => ForgeStrategy::CreateExperimental,
            CynefinDomain::Chaotic => ForgeStrategy::CreateRapidPrototype,
        };
        let experimental = match gap.cynefin_domain {
            CynefinDomain::Complex | CynefinDomain::Chaotic => true,
            _ => false,
        };
        let mut label = chars_of("module.create.");
        push_all(&mut label, &chars_of(gap.cynefin_domain.label()));
        PlannedAction {
            gap_id: gap.id,
            strategy,
            max_retries: gap.max_retries(),
            experimental,
            action_label: string_of(label.as_slice()),
        }
    }
}

/// Every gap is either planned or deferred, and no mode plans more actions
/// than its limit (none in Recovery, at most two in Cautious, at most the
/// per-cycle limit in Nominal).
pub proof fn lemma_deliberation_accounts_for_every_gap(gaps: Seq<GapReport>, mode: OperatingMode, max_actions: nat)
    ensures
        deliberation(gaps, mode, max_actions).0.len() + deliberation(gaps, mode, max_actions).1.len()
            == gaps.len(),
        deliberation(gaps, mode, max_actions).0.len() <= mode_limit(mode, max_actions),
    decreases gaps.len(),
{
    if gaps.len() > 0 {
        lemma_deliberation_accounts_for_every_gap(gaps.drop_last(), mode, max_actions);
    }
}

/// In Recovery mode nothing is planned and every gap is deferred, in order.
pub proof fn lemma_recovery_defers_everything(gaps: Seq<GapReport>, max_actions: nat)
    ensures
        deliberation(gaps, OperatingMode::Recovery, max_actions).0.len() == 0,
        deliberation(gaps, OperatingMode::Recovery, max_actions).1.len() == gaps.len(),
        forall|i: int|
            0 <= i < gaps.len() ==> #[trigger] deliberation(gaps, OperatingMode::Recovery, max_actions).1[i]
                == (DeferredView { gap_id: gaps[i].id, reason: recovery_reason() }),
    decreases gaps.len(),
{
    if gaps.len() > 0 {
        lemma_recovery_defers_everything(gaps.drop_last(), max_actions);
        let prev = deliberation(gaps.drop_last(), OperatingMode::Recovery, max_actions).1;
        let cur = deliberation(gaps, OperatingMode::Recovery, max_actions).1;
        assert forall|i: int| 0 <= i < gaps.len() implies #[trigger] cur[i]
            == (DeferredView { gap_id: gaps[i].id, reason: recovery_reason() }) by {
            if i < gaps.len() - 1 {
                assert(cur[i] == prev[i]);
                assert(gaps.drop_last()[i] == gaps[i]);
            }
        }
    }
}

/// Whether Cautious mode may act on a gap: its domain is simple or it is a
/// confirmation.
pub open spec fn safe_to_act(g: GapReport) -> bool {
    g.cynefin_domain == CynefinDomain::Simple || g.classification == GapClassification::Confirmation
}

/// Cautious mode acts on exactly the first simple-or-confirmed gaps, in the
/// reports' order, up to its limit of two (or the per-cycle limit, if
/// lower): while the limit is not reached, every such gap is planned and
/// none is skipped.
pub proof fn lemma_cautious_acts_on_first_safe_gaps(gaps: Seq<GapReport>, max_actions: nat)
    ensures
        ({
            let safe = gaps.filter(|g: GapReport| safe_to_act(g));
            let limit = if max_actions < 2 { max_actions } else { 2 };
            deliberation(gaps, OperatingMode::Cautious, max_actions).0 == if safe.len() <= limit {
                safe
            } else {
                safe.take(limit as int)
            }
        }),
    decreases gaps.len(),
{
    reveal(Seq::filter);
    let limit: nat = if max_actions < 2 { max_actions } else { 2 };
    let pred = |g: GapReport| safe_to_act(g);
    if gaps.len() == 0 {
        assert(gaps.filter(pred) =~= Seq::<GapReport>::empty());
    } else {
        let init = gaps.drop_last();
        let g = gaps.last();
        lemma_cautious_acts_on_first_safe_gaps(init, max_actions);
        let prev = deliberation(init, OperatingMode::Cautious, max_actions).0;
        let fi = init.filter(pred);
        let fs = gaps.filter(pred);
        assert(fs == if pred(g) { fi.push(g) } else { fi });
        if fi.len() <= limit {
            assert(prev == fi);
            if prev.len() >= limit {
                if pred(g) {
                    assert(fs.take(limit as int) =~= fi);
                }
            }
        } else {
            assert(prev == fi.take(limit as int));
            if pred(g) {
                assert(fs.take(limit as int) =~= fi.take(limit as int));
            }
        }
    }
}

/// In Cautious mode a gap is deferred for its domain only when it is neither
/// simple nor a confirmation; every other deferral is for the mode's limit.
pub proof fn lemma_cautious_defers_only_unsafe_gaps_for_domain(gaps: Seq<GapReport>, max_actions: nat)
    ensures
        forall|k: int|
            0 <= k < deliberation(gaps, OperatingMode::Cautious, max_actions).1.len() ==> {
                let d = #[trigger] deliberation(gaps, OperatingMode::Cautious, max_actions).1[k];
                ||| d.reason == cautious_limit_reason()
                ||| exists|j: int|
                    0 <= j < gaps.len() && (#[trigger] gaps[j]).id == d.gap_id && !safe_to_act(gaps[j])
                        && d.reason == cautious_domain_reason(gaps[j].cynefin_domain)
            },
    decreases gaps.len(),
{
    if gaps.len() > 0 {
        let init = gaps.drop_last();
        lemma_cautious_defers_only_unsafe_gaps_for_domain(init, max_actions);
        let prev = deliberation(init, OperatingMode::Cautious, max_actions).1;
        let cur = deliberation(gaps, OperatingMode::Cautious, max_actions).1;
        assert forall|k: int| 0 <= k < cur.len() implies {
            let d = #[trigger] cur[k];
            ||| d.reason == cautious_limit_reason()
            ||| exists|j: int|
                0 <= j < gaps.len() && (#[trigger] gaps[j]).id == d.gap_id && !safe_to_act(gaps[j])
                    && d.reason == cautious_domain_reason(gaps[j].cynefin_domain)
        } by {
            if k < prev.len() {
                assert(cur[k] == prev[k]);
                if prev[k].reason != cautious_limit_reason() {
                    let j = choose|j: int|
                        0 <= j < init.len() && (#[trigger] init[j]).id == prev[k].gap_id && !safe_to_act(init[j])
                            && prev[k].reason == cautious_domain_reason(init[j].cynefin_domain);
                    assert(gaps[j] == init[j]);
                }
            } else {
                let j = gaps.len() - 1;
                assert(gaps[j] == gaps.last());
            }
        }
    }
}

/// Nominal mode acts on the first gaps, in the reports' order, up to the
/// per-cycle limit, and defers exactly the rest.
pub proof fn lemma_nominal_acts_on_first_gaps(gaps: Seq<GapReport>, max_actions: nat)
    ensures
        deliberation(gaps, OperatingMode::Nominal, max_actions).0 == if gaps.len() <= max_actions {
            gaps
        } else {
            gaps.take(max_actions as int)
        },
        deliberation(gaps, OperatingMode::Nominal, max_actions).1.len() == if gaps.len() <= max_actions {
            0
        } else {
            gaps.len() - max_actions
        },
    decreases gaps.len(),
{
    if gaps.len() > 0 {
        let init = gaps.drop_last();
        lemma_nominal_acts_on_first_gaps(init, max_actions);
        if init.len() < max_actions {
            assert(init.push(gaps.last()) =~= gaps);
        } else if init.len() == max_actions {
            assert(gaps.take(max_actions as int) =~= init);
        } else {
            assert(gaps.take(max_actions as int) =~= init.take(max_actions as int));
        }
    }
}

/// In Cautious mode every gap acted on, in the plan's order, is a simple or a
/// confirmed gap.
pub proof fn lemma_cautious_plans_only_safe_gaps(gaps: Seq<GapReport>, max_actions: nat)
    ensures
        forall|i: int|
            0 <= i < plan_order(gaps, OperatingMode::Cautious, max_actions).len() ==> {
                let g = #[trigger] plan_order(gaps, OperatingMode::Cautious, max_actions)[i];
                &&& gaps.contains(g)
                &&& (g.cynefin_domain == CynefinDomain::Simple || g.classification == GapClassification::Confirmation)
            },
{
    lemma_chosen_are_safe(gaps, max_actions);
    let chosen = deliberation(gaps, OperatingMode::Cautious, max_actions).0;
    lemma_by_priority_orders_stably(chosen);
    let ordered = plan_order(gaps, OperatingMode::Cautious, max_actions);
    assert forall|i: int| 0 <= i < ordered.len() implies {
        let g = #[trigger] ordered[i];
        &&& gaps.contains(g)
        &&& (g.cynefin_domain == CynefinDomain::Simple || g.classification == GapClassification::Confirmation)
    } by {
        assert(ordered.contains(ordered[i]));
        assert(chosen.contains(ordered[i]));
    }
}

proof fn lemma_chosen_are_safe(gaps: Seq<GapReport>, max_actions: nat)
    ensures
        forall|x: GapReport|
            #[trigger] deliberation(gaps, OperatingMode::Cautious, max_actions).0.contains(x) ==> {
                &&& gaps.contains(x)
                &&& (x.cynefin_domain == CynefinDomain::Simple || x.classification == GapClassification::Confirmation)
            },
    decreases gaps.len(),
{
    if gaps.len() > 0 {
        let init = gaps.drop_last();
        lemma_chosen_are_safe(init, max_actions);
        let prev = deliberation(init, OperatingMode::Cautious, max_actions).0;
        let cur = deliberation(gaps, OperatingMode::Cautious, max_actions).0;
        assert forall|x: GapReport| #[trigger] cur.contains(x) implies {
            &&& gaps.contains(x)
            &&& (x.cynefin_domain == CynefinDomain::Simple || x.classification == GapClassification::Confirmation)
        } by {
            let k = choose|k: int| 0 <= k < cur.len() && cur[k] == x;
            if k < prev.len() {
                assert(cur[k] == prev[k]);
                assert(prev.contains(x));
                let m = choose|m: int| 0 <= m < init.len() && init[m] == x;
                assert(gaps[m] == x);
            } else {
                assert(x == gaps.last());
                assert(gaps[gaps.len() - 1] == x);
            }
        }
    }
}

/// In Nominal mode with room for every gap, every gap is acted on, ordered
/// by priority, and nothing is deferred.
pub proof fn lemma_nominal_plans_all_within_limit(gaps: Seq<GapReport>, max_actions: nat)
    requires
        gaps.len() <= max_actions,
    ensures
        deliberation(gaps, OperatingMode::Nominal, max_actions).0 == gaps,
        plan_order(gaps, OperatingMode::Nominal, max_actions) == by_priority(gaps),
        deliberation(gaps, OperatingMode::Nominal, max_actions).1.len() == 0,
    decreases gaps.len(),
{
    if gaps.len() > 0 {
        lemma_nominal_plans_all_within_limit(gaps.drop_last(), max_actions);
        assert(gaps.drop_last().push(gaps.last()) =~= gaps);
    }
}

} // verus!
