//! The event protocol's routing rules: which topic each kind of cognitive
//! event is published on, which kinds carry a cycle id, and how a
//! subscription pattern (exact, `prefix.*`, `prefix.>` or `>`) selects
//! topics.

use vstd::prelude::*;

use crate::text::{chars_of, chars_eq};

verus! {

/// Simple wildcard topic matching (supports trailing `*` and `>`).
///
/// A pattern matches a topic when they are equal; when it ends in `.*` or
/// `.>` and the topic starts with the pattern's prefix followed by a dot; and
/// `>` alone matches every topic.
pub open spec fn topic_matches_spec(pattern: Seq<char>, topic: Seq<char>) -> bool {
    ||| pattern == topic
    ||| (pattern.len() >= 2 && pattern[pattern.len() - 2] == '.' && (pattern.last() == '*'
        || pattern.last() == '>') && pattern.drop_last().is_prefix_of(topic))
    ||| pattern == seq!['>']
}

/// Simple wildcard topic matching (supports trailing `*` and `>`).
pub fn topic_matches(pattern: &str, topic: &str) -> (r: bool)
    ensures
        r == topic_matches_spec(pattern@, topic@),
{
    let p = chars_of(pattern);
    let t = chars_of(topic);
    if chars_eq(&p, &t) {
        return true;
    }
    let n = p.len();
    if n >= 2 && p[n - 2] == '.' && (p[n - 1] == '*' || p[n - 1] == '>') {
        // The pattern's prefix, dot included, must open the topic.
        if n - 1 > t.len() {
            assert(!p@.drop_last().is_prefix_of(t@));
            assert(p@ != seq!['>']);
            return false;
        }
        let mut k: usize = 0;
        while k < n - 1
            invariant
                n == p.len(),
                n >= 2,
                n - 1 <= t.len(),
                p@ == pattern@,
                t@ == topic@,
                p@ != t@,
                p@[n - 2] == '.',
                k <= n - 1,
                forall|j: int| 0 <= j < k ==> p@[j] == t@[j],
            decreases n - 1 - k,
        {
            if p[k] != t[k] {
                assert(p@.drop_last()[k as int] != t@.subrange(0, n - 1)[k as int]);
                assert(p@.drop_last() != t@.subrange(0, n - 1));
                assert(!p@.drop_last().is_prefix_of(t@));
                assert(p@ != seq!['>']);
                return false;
            }
            k = k + 1;
        }
        assert(p@.drop_last() =~= t@.subrange(0, n - 1));
        return true;
    }
    let r = n == 1 && p[0] == '>';
    assert(r ==> p@ =~= seq!['>']);
    r
}

/// The kinds of cognitive event; each is published on its own topic.
#[derive(Debug, Clone, Copy, PartialEq, Eq, Structural, Hash)]
pub enum EventKind {
    CycleStarted,
    PerceptionComplete,
    CrawlComplete,
    GapReportReady,
    GapDetected,
    SelfModelUpdated,
    ActionPlanReady,
    ActionDeferred,
    ForgeStarted,
    GatePass,
    GateFail,
    ModulePublished,
    ModuleRejected,
    EvaluationComplete,
    ModuleDeprecated,
    ParameterAdjusted,
    ConstitutionalLesson,
    CycleClosed,
    HealthAlert,
    SupervisorIntervention,
    CircuitBreakerOpen,
    CircuitBreakerClosed,
}

pub open spec fn topic_spec(k: EventKind) -> Seq<char> {
    match k {
        EventKind::CycleStarted => "project_e.system.cycle_started"@,
        EventKind::PerceptionComplete => "project_e.perception.complete"@,
        EventKind::CrawlComplete => "project_e.perception.crawl_complete"@,
        EventKind::GapReportReady => "project_e.analysis.gap_report_ready"@,
        EventKind::GapDetected => "project_e.analysis.gap_detected"@,
        EventKind::SelfModelUpdated => "project_e.meta.self_model_updated"@,
        EventKind::ActionPlanReady => "project_e.meta.action_plan_created"@,
        EventKind::ActionDeferred => "project_e.meta.action_deferred"@,
        EventKind::ForgeStarted => "project_e.forge.started"@,
        EventKind::GatePass => "project_e.forge.gate_pass"@,
        EventKind::GateFail => "project_e.forge.gate_fail"@,
        EventKind::ModulePublished => "project_e.forge.module_published"@,
        EventKind::ModuleRejected => "project_e.forge.module_rejected"@,
        EventKind::EvaluationComplete => "project_e.meta.cycle_evaluated"@,
        EventKind::ModuleDeprecated => "project_e.registry.module_deprecated"@,
        EventKind::ParameterAdjusted => "project_e.meta.parameter_adjusted"@,
        EventKind::ConstitutionalLesson => "project_e.meta.constitutional_lesson"@,
        EventKind::CycleClosed => "project_e.system.cycle_closed"@,
        EventKind::HealthAlert => "project_e.system.health_alert"@,
        EventKind::SupervisorIntervention => "project_e.system.supervisor_intervention"@,
        EventKind::CircuitBreakerOpen => "project_e.system.circuit_open"@,
        EventKind::CircuitBreakerClosed => "project_e.system.circuit_closed"@,
    }
}

/// Whether events of a kind belong to a cognitive cycle (and so carry its
/// id): all but the cross-cutting health, supervisor and breaker events.
pub open spec fn carries_cycle_id_spec(k: EventKind) -> bool {
    match k {
        EventKind::HealthAlert | EventKind::SupervisorIntervention
        | EventKind::CircuitBreakerOpen | EventKind::CircuitBreakerClosed => false,
        _ => true,
    }
}

impl EventKind {
    /// Returns the topic for this event kind.
    pub fn topic(&self) -> (r: &'static str)
        ensures
            r@ == topic_spec(*self),
    {
        match self {
            EventKind::CycleStarted => "project_e.system.cycle_started",
            EventKind::PerceptionComplete => "project_e.perception.complete",
            EventKind::CrawlComplete => "project_e.perception.crawl_complete",
            EventKind::GapReportReady => "project_e.analysis.gap_report_ready",
            EventKind::GapDetected => "project_e.analysis.gap_detected",
            EventKind::SelfModelUpdated => "project_e.meta.self_model_updated",
            EventKind::ActionPlanReady => "project_e.meta.action_plan_created",
            EventKind::ActionDeferred => "project_e.meta.action_deferred",
            EventKind::ForgeStarted => "project_e.forge.started",
            EventKind::GatePass => "project_e.forge.gate_pass",
            EventKind::GateFail => "project_e.forge.gate_fail",
            EventKind::ModulePublished => "project_e.forge.module_published",
            EventKind::ModuleRejected => "project_e.forge.module_rejected",
            EventKind::EvaluationComplete => "project_e.meta.cycle_evaluated",
            EventKind::ModuleDeprecated => "project_e.registry.module_deprecated",
            EventKind::ParameterAdjusted => "project_e.meta.parameter_adjusted",
            EventKind::ConstitutionalLesson => "project_e.meta.constitutional_lesson",
            EventKind::CycleClosed => "project_e.system.cycle_closed",
            EventKind::HealthAlert => "project_e.system.health_alert",
            EventKind::SupervisorIntervention => "project_e.system.supervisor_intervention",
            EventKind::CircuitBreakerOpen => "project_e.system.circuit_open",
            EventKind::CircuitBreakerClosed => "project_e.system.circuit_closed",
        }
    }

    /// Whether an event of this kind carries the id of its cycle.
    pub fn carries_cycle_id(&self) -> (r: bool)
        ensures
            r == carries_cycle_id_spec(*self),
    {
        match self {
            EventKind::HealthAlert | EventKind::SupervisorIntervention
            | EventKind::CircuitBreakerOpen | EventKind::CircuitBreakerClosed => false,
            _ => true,
        }
    }

    /// The cycle id an event of this kind reports, given the id stored in
    /// the event (absent for the cross-cutting kinds).
    pub fn cycle_id(&self, stored: u128) -> (r: Option<u128>)
        ensures
            r == (if carries_cycle_id_spec(*self) { Some(stored) } else { None::<u128> }),
    {
        if self.carries_cycle_id() {
            Some(stored)
        } else {
            None
        }
    }
}

/// The severity an event is logged at by the subscriber that forwards the
/// bus to the agent's logs.
#[derive(Debug, Clone, Copy, PartialEq, Eq, Structural)]
pub enum LogSeverity {
    Debug,
    Info,
    Warn,
}

/// Cycle milestones and recoveries are information; rejections, gate
/// failures, interventions, health alerts and an opening breaker are
/// warnings; every other event is debug detail.
pub open spec fn severity_spec(k: EventKind) -> LogSeverity {
    match k {
        EventKind::CycleStarted | EventKind::CycleClosed | EventKind::ActionPlanReady
        | EventKind::ForgeStarted | EventKind::ModulePublished
        | EventKind::CircuitBreakerClosed => LogSeverity::Info,
        EventKind::ModuleRejected | EventKind::GateFail | EventKind::SupervisorIntervention
        | EventKind::HealthAlert | EventKind::CircuitBreakerOpen => LogSeverity::Warn,
        _ => LogSeverity::Debug,
    }
}

impl EventKind {
    /// The severity events of this kind are logged at.
    pub fn log_severity(&self) -> (r: LogSeverity)
        ensures
            r == severity_spec(*self),
    {
        match self {
            EventKind::CycleStarted | EventKind::CycleClosed | EventKind::ActionPlanReady
            | EventKind::ForgeStarted | EventKind::ModulePublished
            | EventKind::CircuitBreakerClosed => LogSeverity::Info,
            EventKind::ModuleRejected | EventKind::GateFail | EventKind::SupervisorIntervention
            | EventKind::HealthAlert | EventKind::CircuitBreakerOpen => LogSeverity::Warn,
            _ => LogSeverity::Debug,
        }
    }
}

/// The message an event of a kind is logged with: its own for the cycle
/// milestones, forge outcomes, interventions, health alerts and breaker
/// changes, a generic one for every other kind.
pub open spec fn log_message_spec(k: EventKind) -> Seq<char> {
    match k {
        EventKind::CycleStarted => "project_e: cognitive cycle started"@,
        EventKind::CycleClosed => "project_e: cognitive cycle closed"@,
        EventKind::ActionPlanReady => "project_e: action plan ready"@,
        EventKind::ForgeStarted => "project_e: forge pipeline started"@,
        EventKind::ModulePublished => "project_e: module published"@,
        EventKind::ModuleRejected => "project_e: module rejected after all retries"@,
        EventKind::GateFail => "project_e: forge gate failed"@,
        EventKind::SupervisorIntervention => "project_e: supervisor intervention applied"@,
        EventKind::HealthAlert => "project_e: health alert triggered"@,
        EventKind::CircuitBreakerOpen => "project_e: LLM circuit breaker opened"@,
        EventKind::CircuitBreakerClosed => "project_e: LLM circuit breaker closed (recovered)"@,
        _ => "project_e: cognitive event"@,
    }
}

impl EventKind {
    /// The message events of this kind are logged with.
    pub fn log_message(&self) -> (r: &'static str)
        ensures
            r@ == log_message_spec(*self),
    {
        match self {
            EventKind::CycleStarted => "project_e: cognitive cycle started",
            EventKind::CycleClosed => "project_e: cognitive cycle closed",
            EventKind::ActionPlanReady => "project_e: action plan ready",
            EventKind::ForgeStarted => "project_e: forge pipeline started",
            EventKind::ModulePublished => "project_e: module published",
            EventKind::ModuleRejected => "project_e: module rejected after all retries",
            EventKind::GateFail => "project_e: forge gate failed",
            EventKind::SupervisorIntervention => "project_e: supervisor intervention applied",
            EventKind::HealthAlert => "project_e: health alert triggered",
            EventKind::CircuitBreakerOpen => "project_e: LLM circuit breaker opened",
            EventKind::CircuitBreakerClosed => "project_e: LLM circuit breaker closed (recovered)",
            _ => "project_e: cognitive event",
        }
    }
}

/// Every pattern matches itself, and `>` matches every topic.
pub proof fn lemma_topic_match_reflexive_and_total(p: Seq<char>, t: Seq<char>)
    ensures
        topic_matches_spec(p, p),
        topic_matches_spec(seq!['>'], t),
{
}

/// A domain wildcard `prefix.*` matches exactly the topics that extend
/// `prefix.`, so it matches nothing outside that namespace.
pub proof fn lemma_wildcard_selects_namespace(prefix: Seq<char>, t: Seq<char>)
    ensures
        topic_matches_spec(prefix + seq!['.', '*'], t) <==> (prefix + seq!['.']).is_prefix_of(t),
{
    let p = prefix + seq!['.', '*'];
    assert(p.drop_last() =~= prefix + seq!['.']);
    assert(p.len() >= 2);
    if p == t {
        assert(t.last() == '*');
        assert((prefix + seq!['.']).is_prefix_of(t)) by {
            assert(t.subrange(0, prefix.len() as int + 1) =~= prefix + seq!['.']);
        }
    }
    if p == seq!['>'] {
        assert(p.len() == 1);
    }
}

/// A subtree wildcard `prefix.>` matches exactly the topics that extend
/// `prefix.`: every topic below the prefix, and nothing outside it.
pub proof fn lemma_subtree_wildcard_selects_namespace(prefix: Seq<char>, t: Seq<char>)
    ensures
        topic_matches_spec(prefix + seq!['.', '>'], t) <==> (prefix + seq!['.']).is_prefix_of(t),
{
    let p = prefix + seq!['.', '>'];
    assert(p.drop_last() =~= prefix + seq!['.']);
    assert(p.len() >= 2);
    assert(p[p.len() - 2] == '.' && p.last() == '>');
    if p == t {
        assert((prefix + seq!['.']).is_prefix_of(t)) by {
            assert(t.subrange(0, prefix.len() as int + 1) =~= prefix + seq!['.']);
        }
    }
    if p == seq!['>'] {
        assert(p.len() == 1);
    }
}

/// The namespace a kind of event belongs to.
pub open spec fn namespace_spec(k: EventKind) -> Seq<char> {
    match k {
        EventKind::CycleStarted => "project_e.system"@,
        EventKind::PerceptionComplete => "project_e.perception"@,
        EventKind::CrawlComplete => "project_e.perception"@,
        EventKind::GapReportReady => "project_e.analysis"@,
        EventKind::GapDetected => "project_e.analysis"@,
        EventKind::SelfModelUpdated => "project_e.meta"@,
        EventKind::ActionPlanReady => "project_e.meta"@,
        EventKind::ActionDeferred => "project_e.meta"@,
        EventKind::ForgeStarted => "project_e.forge"@,
        EventKind::GatePass => "project_e.forge"@,
        EventKind::GateFail => "project_e.forge"@,
        EventKind::ModulePublished => "project_e.forge"@,
        EventKind::ModuleRejected => "project_e.forge"@,
        EventKind::EvaluationComplete => "project_e.meta"@,
        EventKind::ModuleDeprecated => "project_e.registry"@,
        EventKind::ParameterAdjusted => "project_e.meta"@,
        EventKind::ConstitutionalLesson => "project_e.meta"@,
        EventKind::CycleClosed => "project_e.system"@,
        EventKind::HealthAlert => "project_e.system"@,
        EventKind::SupervisorIntervention => "project_e.system"@,
        EventKind::CircuitBreakerOpen => "project_e.system"@,
        EventKind::CircuitBreakerClosed => "project_e.system"@,
    }
}


/// The domain segment of a kind's topic.
pub open spec fn domain_spec(k: EventKind) -> Seq<char> {
    match k {
        EventKind::CycleStarted => "system"@,
        EventKind::PerceptionComplete => "perception"@,
        EventKind::CrawlComplete => "perception"@,
        EventKind::GapReportReady => "analysis"@,
        EventKind::GapDetected => "analysis"@,
        EventKind::SelfModelUpdated => "meta"@,
        EventKind::ActionPlanReady => "meta"@,
        EventKind::ActionDeferred => "meta"@,
        EventKind::ForgeStarted => "forge"@,
        EventKind::GatePass => "forge"@,
        EventKind::GateFail => "forge"@,
        EventKind::ModulePublished => "forge"@,
        EventKind::ModuleRejected => "forge"@,
        EventKind::EvaluationComplete => "meta"@,
        EventKind::ModuleDeprecated => "registry"@,
        EventKind::ParameterAdjusted => "meta"@,
        EventKind::ConstitutionalLesson => "meta"@,
        EventKind::CycleClosed => "system"@,
        EventKind::HealthAlert => "system"@,
        EventKind::SupervisorIntervention => "system"@,
        EventKind::CircuitBreakerOpen => "system"@,
        EventKind::CircuitBreakerClosed => "system"@,
    }
}

/// The event-name segment of a kind's topic.
pub open spec fn event_name_spec(k: EventKind) -> Seq<char> {
    match k {
        EventKind::CycleStarted => "cycle_started"@,
        EventKind::PerceptionComplete => "complete"@,
        EventKind::CrawlComplete => "crawl_complete"@,
        EventKind::GapReportReady => "gap_report_ready"@,
        EventKind::GapDetected => "gap_detected"@,
        EventKind::SelfModelUpdated => "self_model_updated"@,
        EventKind::ActionPlanReady => "action_plan_created"@,
        EventKind::ActionDeferred => "action_deferred"@,
        EventKind::ForgeStarted => "started"@,
        EventKind::GatePass => "gate_pass"@,
        EventKind::GateFail => "gate_fail"@,
        EventKind::ModulePublished => "module_published"@,
        EventKind::ModuleRejected => "module_rejected"@,
        EventKind::EvaluationComplete => "cycle_evaluated"@,
        EventKind::ModuleDeprecated => "module_deprecated"@,
        EventKind::ParameterAdjusted => "parameter_adjusted"@,
        EventKind::ConstitutionalLesson => "constitutional_lesson"@,
        EventKind::CycleClosed => "cycle_closed"@,
        EventKind::HealthAlert => "health_alert"@,
        EventKind::SupervisorIntervention => "supervisor_intervention"@,
        EventKind::CircuitBreakerOpen => "circuit_open"@,
        EventKind::CircuitBreakerClosed => "circuit_closed"@,
    }
}

/// The domains topics are grouped in.
pub open spec fn known_domain(d: Seq<char>) -> bool {
    ||| d == "system"@
    ||| d == "perception"@
    ||| d == "analysis"@
    ||| d == "meta"@
    ||| d == "forge"@
    ||| d == "registry"@
}

/// `s` holds no dot.
pub open spec fn dot_free(s: Seq<char>) -> bool
    decreases s.len(),
{
    s.len() == 0 || (s[0] != '.' && dot_free(s.skip(1)))
}

proof fn lemma_dot_free_contains(s: Seq<char>)
    requires
        dot_free(s),
    ensures
        !s.contains('.'),
    decreases s.len(),
{
    if s.len() > 0 {
        lemma_dot_free_contains(s.skip(1));
        if s.contains('.') {
            let i = choose|i: int| 0 <= i < s.len() && s[i] == '.';
            assert(s.skip(1)[i - 1] == '.');
        }
    }
}

/// Topic form: every topic is `project_e.<domain>.<event_name>`, with a
/// known domain and a non-empty event name, neither holding a dot (so the
/// topic has exactly three dot-separated segments); the kind's namespace is
/// `project_e.<domain>`.
pub proof fn lemma_topic_form(k: EventKind)
    ensures
        topic_spec(k) == "project_e"@ + seq!['.'] + domain_spec(k) + seq!['.'] + event_name_spec(k),
        namespace_spec(k) == "project_e"@ + seq!['.'] + domain_spec(k),
        known_domain(domain_spec(k)),
        event_name_spec(k).len() > 0,
        !domain_spec(k).contains('.'),
        !event_name_spec(k).contains('.'),
{
    reveal_strlit("project_e");
    reveal_strlit("system");
    reveal_strlit("perception");
    reveal_strlit("analysis");
    reveal_strlit("meta");
    reveal_strlit("forge");
    reveal_strlit("registry");
    reveal_with_fuel(dot_free, 30);
    match k {
        EventKind::CycleStarted => {
            reveal_strlit("project_e.system.cycle_started");
            reveal_strlit("project_e.system");
            reveal_strlit("cycle_started");
            assert(topic_spec(k) =~= "project_e"@ + seq!['.'] + domain_spec(k) + seq!['.'] + event_name_spec(k));
            assert(namespace_spec(k) =~= "project_e"@ + seq!['.'] + domain_spec(k));
            assert(dot_free(event_name_spec(k)));
        },
        EventKind::PerceptionComplete => {
            reveal_strlit("project_e.perception.complete");
            reveal_strlit("project_e.perception");
            reveal_strlit("complete");
            assert(topic_spec(k) =~= "project_e"@ + seq!['.'] + domain_spec(k) + seq!['.'] + event_name_spec(k));
            assert(namespace_spec(k) =~= "project_e"@ + seq!['.'] + domain_spec(k));
            assert(dot_free(event_name_spec(k)));
        },
        EventKind::CrawlComplete => {
            reveal_strlit("project_e.perception.crawl_complete");
            reveal_strlit("project_e.perception");
            reveal_strlit("crawl_complete");
            assert(topic_spec(k) =~= "project_e"@ + seq!['.'] + domain_spec(k) + seq!['.'] + event_name_spec(k));
            assert(namespace_spec(k) =~= "project_e"@ + seq!['.'] + domain_spec(k));
            assert(dot_free(event_name_spec(k)));
        },
        EventKind::GapReportReady => {
            reveal_strlit("project_e.analysis.gap_report_ready");
            reveal_strlit("project_e.analysis");
            reveal_strlit("gap_report_ready");
            assert(topic_spec(k) =~= "project_e"@ + seq!['.'] + domain_spec(k) + seq!['.'] + event_name_spec(k));
            assert(namespace_spec(k) =~= "project_e"@ + seq!['.'] + domain_spec(k));
            assert(dot_free(event_name_spec(k)));
        },
        EventKind::GapDetected => {
            reveal_strlit("project_e.analysis.gap_detected");
            reveal_strlit("project_e.analysis");
            reveal_strlit("gap_detected");
            assert(topic_spec(k) =~= "project_e"@ + seq!['.'] + domain_spec(k) + seq!['.'] + event_name_spec(k));
            assert(namespace_spec(k) =~= "project_e"@ + seq!['.'] + domain_spec(k));
            assert(dot_free(event_name_spec(k)));
        },
        EventKind::SelfModelUpdated => {
            reveal_strlit("project_e.meta.self_model_updated");
            reveal_strlit("project_e.meta");
            reveal_strlit("self_model_updated");
            assert(topic_spec(k) =~= "project_e"@ + seq!['.'] + domain_spec(k) + seq!['.'] + event_name_spec(k));
            assert(namespace_spec(k) =~= "project_e"@ + seq!['.'] + domain_spec(k));
            assert(dot_free(event_name_spec(k)));
        },
        EventKind::ActionPlanReady => {
            reveal_strlit("project_e.meta.action_plan_created");
            reveal_strlit("project_e.meta");
            reveal_strlit("action_plan_created");
            assert(topic_spec(k) =~= "project_e"@ + seq!['.'] + domain_spec(k) + seq!['.'] + event_name_spec(k));
            assert(namespace_spec(k) =~= "project_e"@ + seq!['.'] + domain_spec(k));
            assert(dot_free(event_name_spec(k)));
        },
        EventKind::ActionDeferred => {
            reveal_strlit("project_e.meta.action_deferred");
            reveal_strlit("project_e.meta");
            reveal_strlit("action_deferred");
            assert(topic_spec(k) =~= "project_e"@ + seq!['.'] + domain_spec(k) + seq!['.'] + event_name_spec(k));
            assert(namespace_spec(k) =~= "project_e"@ + seq!['.'] + domain_spec(k));
            assert(dot_free(event_name_spec(k)));
        },
        EventKind::ForgeStarted => {
            reveal_strlit("project_e.forge.started");
            reveal_strlit("project_e.forge");
            reveal_strlit("started");
            assert(topic_spec(k) =~= "project_e"@ + seq!['.'] + domain_spec(k) + seq!['.'] + event_name_spec(k));
            assert(namespace_spec(k) =~= "project_e"@ + seq!['.'] + domain_spec(k));
            assert(dot_free(event_name_spec(k)));
        },
        EventKind::GatePass => {
            reveal_strlit("project_e.forge.gate_pass");
            reveal_strlit("project_e.forge");
            reveal_strlit("gate_pass");
            assert(topic_spec(k) =~= "project_e"@ + seq!['.'] + domain_spec(k) + seq!['.'] + event_name_spec(k));
            assert(namespace_spec(k) =~= "project_e"@ + seq!['.'] + domain_spec(k));
            assert(dot_free(event_name_spec(k)));
        },
        EventKind::GateFail => {
            reveal_strlit("project_e.forge.gate_fail");
            reveal_strlit("project_e.forge");
            reveal_strlit("gate_fail");
            assert(topic_spec(k) =~= "project_e"@ + seq!['.'] + domain_spec(k) + seq!['.'] + event_name_spec(k));
            assert(namespace_spec(k) =~= "project_e"@ + seq!['.'] + domain_spec(k));
            assert(dot_free(event_name_spec(k)));
        },
        EventKind::ModulePublished => {
            reveal_strlit("project_e.forge.module_published");
            reveal_strlit("project_e.forge");
            reveal_strlit("module_published");
            assert(topic_spec(k) =~= "project_e"@ + seq!['.'] + domain_spec(k) + seq!['.'] + event_name_spec(k));
            assert(namespace_spec(k) =~= "project_e"@ + seq!['.'] + domain_spec(k));
            assert(dot_free(event_name_spec(k)));
        },
        EventKind::ModuleRejected => {
            reveal_strlit("project_e.forge.module_rejected");
            reveal_strlit("project_e.forge");
            reveal_strlit("module_rejected");
            assert(topic_spec(k) =~= "project_e"@ + seq!['.'] + domain_spec(k) + seq!['.'] + event_name_spec(k));
            assert(namespace_spec(k) =~= "project_e"@ + seq!['.'] + domain_spec(k));
            assert(dot_free(event_name_spec(k)));
        },
        EventKind::EvaluationComplete => {
            reveal_strlit("project_e.meta.cycle_evaluated");
            reveal_strlit("project_e.meta");
            reveal_strlit("cycle_evaluated");
            assert(topic_spec(k) =~= "project_e"@ + seq!['.'] + domain_spec(k) + seq!['.'] + event_name_spec(k));
            assert(namespace_spec(k) =~= "project_e"@ + seq!['.'] + domain_spec(k));
            assert(dot_free(event_name_spec(k)));
        },
        EventKind::ModuleDeprecated => {
            reveal_strlit("project_e.registry.module_deprecated");
            reveal_strlit("project_e.registry");
            reveal_strlit("module_deprecated");
            assert(topic_spec(k) =~= "project_e"@ + seq!['.'] + domain_spec(k) + seq!['.'] + event_name_spec(k));
            assert(namespace_spec(k) =~= "project_e"@ + seq!['.'] + domain_spec(k));
            assert(dot_free(event_name_spec(k)));
        },
        EventKind::ParameterAdjusted => {
            reveal_strlit("project_e.meta.parameter_adjusted");
            reveal_strlit("project_e.meta");
            reveal_strlit("parameter_adjusted");
            assert(topic_spec(k) =~= "project_e"@ + seq!['.'] + domain_spec(k) + seq!['.'] + event_name_spec(k));
            assert(namespace_spec(k) =~= "project_e"@ + seq!['.'] + domain_spec(k));
            assert(dot_free(event_name_spec(k)));
        },
        EventKind::ConstitutionalLesson => {
            reveal_strlit("project_e.meta.constitutional_lesson");
            reveal_strlit("project_e.meta");
            reveal_strlit("constitutional_lesson");
            assert(topic_spec(k) =~= "project_e"@ + seq!['.'] + domain_spec(k) + seq!['.'] + event_name_spec(k));
            assert(namespace_spec(k) =~= "project_e"@ + seq!['.'] + domain_spec(k));
            assert(dot_free(event_name_spec(k)));
        },
        EventKind::CycleClosed => {
            reveal_strlit("project_e.system.cycle_closed");
            reveal_strlit("project_e.system");
            reveal_strlit("cycle_closed");
            assert(topic_spec(k) =~= "project_e"@ + seq!['.'] + domain_spec(k) + seq!['.'] + event_name_spec(k));
            assert(namespace_spec(k) =~= "project_e"@ + seq!['.'] + domain_spec(k));
            assert(dot_free(event_name_spec(k)));
        },
        EventKind::HealthAlert => {
            reveal_strlit("project_e.system.health_alert");
            reveal_strlit("project_e.system");
            reveal_strlit("health_alert");
            assert(topic_spec(k) =~= "project_e"@ + seq!['.'] + domain_spec(k) + seq!['.'] + event_name_spec(k));
            assert(namespace_spec(k) =~= "project_e"@ + seq!['.'] + domain_spec(k));
            assert(dot_free(event_name_spec(k)));
        },
        EventKind::SupervisorIntervention => {
            reveal_strlit("project_e.system.supervisor_intervention");
            reveal_strlit("project_e.system");
            reveal_strlit("supervisor_intervention");
            assert(topic_spec(k) =~= "project_e"@ + seq!['.'] + domain_spec(k) + seq!['.'] + event_name_spec(k));
            assert(namespace_spec(k) =~= "project_e"@ + seq!['.'] + domain_spec(k));
            assert(dot_free(event_name_spec(k)));
        },
        EventKind::CircuitBreakerOpen => {
            reveal_strlit("project_e.system.circuit_open");
            reveal_strlit("project_e.system");
            reveal_strlit("circuit_open");
            assert(topic_spec(k) =~= "project_e"@ + seq!['.'] + domain_spec(k) + seq!['.'] + event_name_spec(k));
            assert(namespace_spec(k) =~= "project_e"@ + seq!['.'] + domain_spec(k));
            assert(dot_free(event_name_spec(k)));
        },
        EventKind::CircuitBreakerClosed => {
            reveal_strlit("project_e.system.circuit_closed");
            reveal_strlit("project_e.system");
            reveal_strlit("circuit_closed");
            assert(topic_spec(k) =~= "project_e"@ + seq!['.'] + domain_spec(k) + seq!['.'] + event_name_spec(k));
            assert(namespace_spec(k) =~= "project_e"@ + seq!['.'] + domain_spec(k));
            assert(dot_free(event_name_spec(k)));
        },
    }
    assert(dot_free(domain_spec(k)));
    lemma_dot_free_contains(domain_spec(k));
    lemma_dot_free_contains(event_name_spec(k));
}

/// The kind whose topic has this length and these characters at positions
/// 10 and 21 (which tell all topics apart).
pub open spec fn kind_of_key(n: nat, a: char, b: char) -> Option<EventKind> {
    if n == 30 && a == 's' && b == 'e' {
        Some(EventKind::CycleStarted)
    } else if n == 29 && a == 'p' && b == 'c' {
        Some(EventKind::PerceptionComplete)
    } else if n == 35 && a == 'p' && b == 'c' {
        Some(EventKind::CrawlComplete)
    } else if n == 35 && a == 'a' && b == 'p' {
        Some(EventKind::GapReportReady)
    } else if n == 31 && a == 'a' && b == 'p' {
        Some(EventKind::GapDetected)
    } else if n == 33 && a == 'm' && b == 'o' {
        Some(EventKind::SelfModelUpdated)
    } else if n == 34 && a == 'm' && b == '_' {
        Some(EventKind::ActionPlanReady)
    } else if n == 30 && a == 'm' && b == '_' {
        Some(EventKind::ActionDeferred)
    } else if n == 23 && a == 'f' && b == 'e' {
        Some(EventKind::ForgeStarted)
    } else if n == 25 && a == 'f' && b == 'p' {
        Some(EventKind::GatePass)
    } else if n == 25 && a == 'f' && b == 'f' {
        Some(EventKind::GateFail)
    } else if n == 32 && a == 'f' && b == 'e' {
        Some(EventKind::ModulePublished)
    } else if n == 31 && a == 'f' && b == 'e' {
        Some(EventKind::ModuleRejected)
    } else if n == 30 && a == 'm' && b == 'e' {
        Some(EventKind::EvaluationComplete)
    } else if n == 36 && a == 'r' && b == 'd' {
        Some(EventKind::ModuleDeprecated)
    } else if n == 33 && a == 'm' && b == 't' {
        Some(EventKind::ParameterAdjusted)
    } else if n == 36 && a == 'm' && b == 't' {
        Some(EventKind::ConstitutionalLesson)
    } else if n == 29 && a == 's' && b == 'e' {
        Some(EventKind::CycleClosed)
    } else if n == 29 && a == 's' && b == 't' {
        Some(EventKind::HealthAlert)
    } else if n == 40 && a == 's' && b == 'r' {
        Some(EventKind::SupervisorIntervention)
    } else if n == 29 && a == 's' && b == 'u' {
        Some(EventKind::CircuitBreakerOpen)
    } else if n == 31 && a == 's' && b == 'u' {
        Some(EventKind::CircuitBreakerClosed)
    } else {
        None
    }
}

proof fn lemma_key_identifies(k: EventKind)
    ensures
        topic_spec(k).len() > 21,
        kind_of_key(topic_spec(k).len(), topic_spec(k)[10], topic_spec(k)[21]) == Some(k),
{
    match k {
        EventKind::CycleStarted => {
            reveal_strlit("project_e.system.cycle_started");
        },
        EventKind::PerceptionComplete => {
            reveal_strlit("project_e.perception.complete");
        },
        EventKind::CrawlComplete => {
            reveal_strlit("project_e.perception.crawl_complete");
        },
        EventKind::GapReportReady => {
            reveal_strlit("project_e.analysis.gap_report_ready");
        },
        EventKind::GapDetected => {
            reveal_strlit("project_e.analysis.gap_detected");
        },
        EventKind::SelfModelUpdated => {
            reveal_strlit("project_e.meta.self_model_updated");
        },
        EventKind::ActionPlanReady => {
            reveal_strlit("project_e.meta.action_plan_created");
        },
        EventKind::ActionDeferred => {
            reveal_strlit("project_e.meta.action_deferred");
        },
        EventKind::ForgeStarted => {
            reveal_strlit("project_e.forge.started");
        },
        EventKind::GatePass => {
            reveal_strlit("project_e.forge.gate_pass");
        },
        EventKind::GateFail => {
            reveal_strlit("project_e.forge.gate_fail");
        },
        EventKind::ModulePublished => {
            reveal_strlit("project_e.forge.module_published");
        },
        EventKind::ModuleRejected => {
            reveal_strlit("project_e.forge.module_rejected");
        },
        EventKind::EvaluationComplete => {
            reveal_strlit("project_e.meta.cycle_evaluated");
        },
        EventKind::ModuleDeprecated => {
            reveal_strlit("project_e.registry.module_deprecated");
        },
        EventKind::ParameterAdjusted => {
            reveal_strlit("project_e.meta.parameter_adjusted");
        },
        EventKind::ConstitutionalLesson => {
            reveal_strlit("project_e.meta.constitutional_lesson");
        },
        EventKind::CycleClosed => {
            reveal_strlit("project_e.system.cycle_closed");
        },
        EventKind::HealthAlert => {
            reveal_strlit("project_e.system.health_alert");
        },
        EventKind::SupervisorIntervention => {
            reveal_strlit("project_e.system.supervisor_intervention");
        },
        EventKind::CircuitBreakerOpen => {
            reveal_strlit("project_e.system.circuit_open");
        },
        EventKind::CircuitBreakerClosed => {
            reveal_strlit("project_e.system.circuit_closed");
        },
    }
}

/// Different kinds of event have different topics.
pub proof fn lemma_topics_distinct(a: EventKind, b: EventKind)
    ensures
        topic_spec(a) == topic_spec(b) ==> a == b,
{
    lemma_key_identifies(a);
    lemma_key_identifies(b);
}

/// Every event is published under its namespace, so the namespace's `.*`
/// wildcard receives it; and every topic lies under the project's root, so
/// `project_e.>` receives every event.
pub proof fn lemma_topic_under_namespace(k: EventKind)
    ensures
        (namespace_spec(k) + seq!['.']).is_prefix_of(topic_spec(k)),
        topic_matches_spec(namespace_spec(k) + seq!['.', '*'], topic_spec(k)),
        topic_matches_spec("project_e"@ + seq!['.', '>'], topic_spec(k)),
{
    reveal_strlit("project_e");
    match k {
        EventKind::CycleStarted => {
            reveal_strlit("project_e.system.cycle_started");
            reveal_strlit("project_e.system");
        },
        EventKind::PerceptionComplete => {
            reveal_strlit("project_e.perception.complete");
            reveal_strlit("project_e.perception");
        },
        EventKind::CrawlComplete => {
            reveal_strlit("project_e.perception.crawl_complete");
            reveal_strlit("project_e.perception");
        },
        EventKind::GapReportReady => {
            reveal_strlit("project_e.analysis.gap_report_ready");
            reveal_strlit("project_e.analysis");
        },
        EventKind::GapDetected => {
            reveal_strlit("project_e.analysis.gap_detected");
            reveal_strlit("project_e.analysis");
        },
        EventKind::SelfModelUpdated => {
            reveal_strlit("project_e.meta.self_model_updated");
            reveal_strlit("project_e.meta");
        },
        EventKind::ActionPlanReady => {
            reveal_strlit("project_e.meta.action_plan_created");
            reveal_strlit("project_e.meta");
        },
        EventKind::ActionDeferred => {
            reveal_strlit("project_e.meta.action_deferred");
            reveal_strlit("project_e.meta");
        },
        EventKind::ForgeStarted => {
            reveal_strlit("project_e.forge.started");
            reveal_strlit("project_e.forge");
        },
        EventKind::GatePass => {
            reveal_strlit("project_e.forge.gate_pass");
            reveal_strlit("project_e.forge");
        },
        EventKind::GateFail => {
            reveal_strlit("project_e.forge.gate_fail");
            reveal_strlit("project_e.forge");
        },
        EventKind::ModulePublished => {
            reveal_strlit("project_e.forge.module_published");
            reveal_strlit("project_e.forge");
        },
        EventKind::ModuleRejected => {
            reveal_strlit("project_e.forge.module_rejected");
            reveal_strlit("project_e.forge");
        },
        EventKind::EvaluationComplete => {
            reveal_strlit("project_e.meta.cycle_evaluated");
            reveal_strlit("project_e.meta");
        },
        EventKind::ModuleDeprecated => {
            reveal_strlit("project_e.registry.module_deprecated");
            reveal_strlit("project_e.registry");
        },
        EventKind::ParameterAdjusted => {
            reveal_strlit("project_e.meta.parameter_adjusted");
            reveal_strlit("project_e.meta");
        },
        EventKind::ConstitutionalLesson => {
            reveal_strlit("project_e.meta.constitutional_lesson");
            reveal_strlit("project_e.meta");
        },
        EventKind::CycleClosed => {
            reveal_strlit("project_e.system.cycle_closed");
            reveal_strlit("project_e.system");
        },
        EventKind::HealthAlert => {
            reveal_strlit("project_e.system.health_alert");
            reveal_strlit("project_e.system");
        },
        EventKind::SupervisorIntervention => {
            reveal_strlit("project_e.system.supervisor_intervention");
            reveal_strlit("project_e.system");
        },
        EventKind::CircuitBreakerOpen => {
            reveal_strlit("project_e.system.circuit_open");
            reveal_strlit("project_e.system");
        },
        EventKind::CircuitBreakerClosed => {
            reveal_strlit("project_e.system.circuit_closed");
            reveal_strlit("project_e.system");
        },
    }
    let ns = namespace_spec(k);
    let t = topic_spec(k);
    assert(t.subrange(0, ns.len() as int + 1) =~= ns + seq!['.']);
    assert(t.subrange(0, 10) =~= "project_e"@ + seq!['.']);
    lemma_wildcard_selects_namespace(ns, t);
    let root = "project_e"@ + seq!['.', '>'];
    assert(root.drop_last() =~= "project_e"@ + seq!['.']);
}

} // verus!
