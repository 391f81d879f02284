//! The decisions of the cognitive cycle runner: when repeated failures stop
//! it, how the rolling cycle history is trimmed, how the LLM's answer to the
//! gap-identification prompt becomes gap reports, and how the action phase
//! tallies its forge runs.

use vstd::prelude::*;

use crate::analysis::GapReport;
use crate::text::{chars_of, join, join_range, matches_at, push_all, string_of, trim, trim_chars};
use crate::types::{CynefinDomain, GapClassification, LifecycleAction, Priority, WardleyStage, cynefin_label_spec};

verus! {

// ---------------------------------------------------------------------------
// Failure policy
// ---------------------------------------------------------------------------

/// Consecutive cycle failures after which the runner stops itself.
pub const MAX_CONSECUTIVE_FAILURES: u32 = 3;

/// What the runner does after a cycle.
#[derive(Debug, Clone, Copy, PartialEq, Eq, Structural)]
pub enum RunnerDecision {
    /// Wait for the next heartbeat.
    Continue,
    /// Too many consecutive failures: stop the runner.
    Stop,
}

/// The failure count and decision after a cycle that `succeeded` or not,
/// from `failures` consecutive failures before it.
pub open spec fn after_cycle_spec(failures: u32, succeeded: bool) -> (u32, RunnerDecision) {
    if succeeded {
        (0, RunnerDecision::Continue)
    } else if failures + 1 >= MAX_CONSECUTIVE_FAILURES {
        ((failures + 1) as u32, RunnerDecision::Stop)
    } else {
        ((failures + 1) as u32, RunnerDecision::Continue)
    }
}

/// Counts consecutive cycle failures of a running runner.
pub struct FailureTracker {
    consecutive_failures: u32,
}

impl FailureTracker {
    pub closed spec fn failures(&self) -> u32 {
        self.consecutive_failures
    }

    /// A runner that has not failed yet.
    pub fn new() -> (r: Self)
        ensures
            r.failures() == 0,
    {
        FailureTracker { consecutive_failures: 0 }
    }

    /// The consecutive failures so far.
    pub fn consecutive_failures(&self) -> (r: u32)
        ensures
            r == self.failures(),
    {
        self.consecutive_failures
    }

    /// Record the outcome of a cycle: a success resets the count; a failure
    /// increments it and stops the runner once it reaches
    /// `MAX_CONSECUTIVE_FAILURES`.
    pub fn after_cycle(&mut self, succeeded: bool) -> (r: RunnerDecision)
        requires
            old(self).failures() < u32::MAX,
        ensures
            (final(self).failures(), r) == after_cycle_spec(old(self).failures(), succeeded),
    {
        if succeeded {
            self.consecutive_failures = 0;
            RunnerDecision::Continue
        } else {
            self.consecutive_failures = self.consecutive_failures + 1;
            if self.consecutive_failures >= MAX_CONSECUTIVE_FAILURES {
                RunnerDecision::Stop
            } else {
                RunnerDecision::Continue
            }
        }
    }
}

/// The runner stops exactly at the third failure in a row: two failures
/// leave it running, a third stops it, and a success in between starts the
/// count again.
pub proof fn lemma_stops_after_three_consecutive_failures(before: u32)
    requires
        before < MAX_CONSECUTIVE_FAILURES,
    ensures
        after_cycle_spec(0, false) == (1u32, RunnerDecision::Continue),
        after_cycle_spec(1, false) == (2u32, RunnerDecision::Continue),
        after_cycle_spec(2, false) == (3u32, RunnerDecision::Stop),
        after_cycle_spec(before, true) == (0u32, RunnerDecision::Continue),
        after_cycle_spec(before, false).1 == RunnerDecision::Stop <==> before + 1
            == MAX_CONSECUTIVE_FAILURES,
{
}

// ---------------------------------------------------------------------------
// Rolling history
// ---------------------------------------------------------------------------

/// The history kept after trimming to a window: its last `max(window, 1)`
/// entries (a window of zero keeps the latest one).
pub open spec fn trimmed<T>(h: Seq<T>, window: nat) -> Seq<T> {
    let w = if window == 0 { 1 } else { window };
    if h.len() > w {
        h.subrange(h.len() - w, h.len() as int)
    } else {
        h
    }
}

/// Trim a rolling history to its window, dropping the oldest entries.
pub fn trim_history<T>(history: &mut Vec<T>, window: usize)
    ensures
        final(history)@ == trimmed(old(history)@, window as nat),
{
    let w: usize = if window == 0 { 1 } else { window };
    if history.len() > w {
        let excess: usize = history.len() - w;
        let tail = history.split_off(excess);
        *history = tail;
    }
}

/// Append a cycle's record to the history and trim it to the window.
pub fn push_and_trim<T>(history: &mut Vec<T>, entry: T, window: usize)
    ensures
        final(history)@ == trimmed(old(history)@.push(entry), window as nat),
{
    history.push(entry);
    trim_history(history, window);
}

// ---------------------------------------------------------------------------
// Gap identification answer
// ---------------------------------------------------------------------------

/// `s` without every leading copy of `p`.
pub open spec fn strip_prefixes(s: Seq<char>, p: Seq<char>) -> Seq<char>
    decreases s.len(),
{
    if p.len() > 0 && p.is_prefix_of(s) {
        strip_prefixes(s.skip(p.len() as int), p)
    } else {
        s
    }
}

/// `s` without every trailing copy of `p`.
pub open spec fn strip_suffixes(s: Seq<char>, p: Seq<char>) -> Seq<char>
    decreases s.len(),
{
    if p.len() > 0 && p.is_suffix_of(s) {
        strip_suffixes(s.take(s.len() - p.len()), p)
    } else {
        s
    }
}

/// The answer with surrounding whitespace and markdown code fences removed:
/// trimmed, without leading "```json" then "```" fences, without trailing
/// "```" fences, and trimmed again.
pub open spec fn fences_stripped(response: Seq<char>) -> Seq<char> {
    trim(strip_suffixes(strip_prefixes(strip_prefixes(trim(response), "```json"@), "```"@), "```"@))
}

fn strip_prefixes_chars(s: &Vec<char>, p: &Vec<char>) -> (r: Vec<char>)
    ensures
        r@ == strip_prefixes(s@, p@),
{
    if p.len() == 0 {
        return s.clone();
    }
    let mut i: usize = 0;
    assert(s@.skip(0) =~= s@);
    while p.len() <= s.len() - i && matches_at(s, p, i)
        invariant
            p@.len() > 0,
            i <= s@.len(),
            strip_prefixes(s@.skip(i as int), p@) == strip_prefixes(s@, p@),
        decreases s@.len() - i,
    {
        proof {
            let t = s@.skip(i as int);
            assert(t.subrange(0, p@.len() as int) =~= s@.subrange(i as int, i + p@.len()));
            assert(p@.is_prefix_of(t));
            assert(t.skip(p@.len() as int) =~= s@.skip(i + p@.len()));
        }
        i = i + p.len();
    }
    proof {
        let t = s@.skip(i as int);
        if p@.is_prefix_of(t) {
            assert(t.subrange(0, p@.len() as int) =~= s@.subrange(i as int, i + p@.len()));
        }
    }
    let mut out: Vec<char> = Vec::new();
    let mut k: usize = i;
    while k < s.len()
        invariant
            i <= k <= s@.len(),
            out@ == s@.subrange(i as int, k as int),
        decreases s@.len() - k,
    {
        out.push(s[k]);
        k = k + 1;
    }
    assert(out@ =~= s@.skip(i as int));
    out
}

fn strip_suffixes_chars(s: &Vec<char>, p: &Vec<char>) -> (r: Vec<char>)
    ensures
        r@ == strip_suffixes(s@, p@),
{
    if p.len() == 0 {
        return s.clone();
    }
    let mut e: usize = s.len();
    assert(s@.take(s@.len() as int) =~= s@);
    while e >= p.len() && matches_at(s, p, e - p.len())
        invariant
            p@.len() > 0,
            e <= s@.len(),
            strip_suffixes(s@.take(e as int), p@) == strip_suffixes(s@, p@),
        decreases e,
    {
        proof {
            let t = s@.take(e as int);
            let b = e - p@.len();
            assert(t.subrange(b, e as int) =~= s@.subrange(b, e as int));
            assert(p@.is_suffix_of(t));
            assert(t.take(b) =~= s@.take(b));
        }
        e = e - p.len();
    }
    proof {
        assert(s@.take(s@.len() as int) =~= s@);
        let t = s@.take(e as int);
        if p@.is_suffix_of(t) {
            let b = e - p@.len();
            assert(t.subrange(b, e as int) =~= s@.subrange(b, e as int));
        }
    }
    let mut out: Vec<char> = Vec::new();
    let mut k: usize = 0;
    while k < e
        invariant
            k <= e <= s@.len(),
            out@ == s@.subrange(0, k as int),
        decreases e - k,
    {
        out.push(s[k]);
        k = k + 1;
    }
    assert(out@ =~= s@.take(e as int));
    out
}

/// The LLM's answer without surrounding whitespace or markdown code fences.
pub fn strip_code_fences(response: &str) -> (r: String)
    ensures
        r@ == fences_stripped(response@),
{
    let s = trim_chars(&chars_of(response));
    let s = strip_prefixes_chars(&s, &chars_of("```json"));
    let s = strip_prefixes_chars(&s, &chars_of("```"));
    let s = strip_suffixes_chars(&s, &chars_of("```"));
    let s = trim_chars(&s);
    string_of(s.as_slice())
}

/// The priority a label names: `high`, `low`, anything else medium.
pub open spec fn priority_named(label: Option<Seq<char>>) -> Priority {
    if label == Some("high"@) {
        Priority::High
    } else if label == Some("low"@) {
        Priority::Low
    } else {
        Priority::Medium
    }
}

/// The Cynefin domain a label names: `complicated`, `complex`, `chaotic`,
/// anything else simple.
pub open spec fn domain_named(label: Option<Seq<char>>) -> CynefinDomain {
    if label == Some("complicated"@) {
        CynefinDomain::Complicated
    } else if label == Some("complex"@) {
        CynefinDomain::Complex
    } else if label == Some("chaotic"@) {
        CynefinDomain::Chaotic
    } else {
        CynefinDomain::Simple
    }
}

/// Reading a domain label inverts writing it: the label of every Cynefin
/// domain (`simple`, `complicated`, `complex`, `chaotic`) reads back as that
/// domain, and any other answer, or none, reads as simple.
pub proof fn lemma_domain_label_round_trip(d: CynefinDomain, other: Option<Seq<char>>)
    ensures
        domain_named(Some(cynefin_label_spec(d))) == d,
        (forall|e: CynefinDomain| other != Some(#[trigger] cynefin_label_spec(e))) ==> domain_named(other)
            == CynefinDomain::Simple,
{
    reveal_strlit("simple");
    reveal_strlit("complicated");
    reveal_strlit("complex");
    reveal_strlit("chaotic");
    assert("simple"@.len() == 6 && "complicated"@.len() == 11 && "complex"@.len() == 7 && "chaotic"@.len()
        == 7);
    assert("simple"@ != "complicated"@ && "simple"@ != "complex"@ && "simple"@ != "chaotic"@);
    assert("complicated"@ != "complex"@ && "complicated"@ != "chaotic"@);
    assert("complex"@ != "chaotic"@) by {
        assert("complex"@[1] != "chaotic"@[1]);
    }
    if forall|e: CynefinDomain| other != Some(#[trigger] cynefin_label_spec(e)) {
        assert(other != Some(cynefin_label_spec(CynefinDomain::Complicated)));
        assert(other != Some(cynefin_label_spec(CynefinDomain::Complex)));
        assert(other != Some(cynefin_label_spec(CynefinDomain::Chaotic)));
    }
}

/// Priority labels read as the priority they name: `high` is high, `low`
/// is low, `medium` (and anything else, or none) is medium.
pub proof fn lemma_priority_labels()
    ensures
        priority_named(Some("high"@)) == Priority::High,
        priority_named(Some("low"@)) == Priority::Low,
        priority_named(Some("medium"@)) == Priority::Medium,
        priority_named(None) == Priority::Medium,
{
    reveal_strlit("high");
    reveal_strlit("low");
    reveal_strlit("medium");
    assert("high"@.len() == 4 && "low"@.len() == 3 && "medium"@.len() == 6);
    assert("low"@ != "high"@ && "medium"@ != "high"@ && "medium"@ != "low"@);
}

pub open spec fn opt_view(s: Option<String>) -> Option<Seq<char>> {
    match s {
        Some(t) => Some(t@),
        None => None,
    }
}

fn is_label(label: &Option<String>, name: &str) -> (r: bool)
    ensures
        r == (opt_view(*label) == Some(name@)),
{
    match label {
        Some(t) => crate::text::chars_eq(&chars_of(t.as_str()), &chars_of(name)),
        None => false,
    }
}

/// The priority named by an answer's `priority` field.
pub fn priority_from_label(label: &Option<String>) -> (r: Priority)
    ensures
        r == priority_named(opt_view(*label)),
{
    if is_label(label, "high") {
        Priority::High
    } else if is_label(label, "low") {
        Priority::Low
    } else {
        Priority::Medium
    }
}

/// The Cynefin domain named by an answer's `domain` field.
pub fn domain_from_label(label: &Option<String>) -> (r: CynefinDomain)
    ensures
        r == domain_named(opt_view(*label)),
{
    if is_label(label, "complicated") {
        CynefinDomain::Complicated
    } else if is_label(label, "complex") {
        CynefinDomain::Complex
    } else if is_label(label, "chaotic") {
        CynefinDomain::Chaotic
    } else {
        CynefinDomain::Simple
    }
}

/// One gap object of the LLM's answer, with the text fields the cycle reads
/// (each absent when missing or not a string).
#[derive(Debug, Clone)]
pub struct GapItem {
    pub description: Option<String>,
    /// The item's confidence in thousandths, when it gives one.
    pub confidence_thousandths: Option<u32>,
    pub priority: Option<String>,
    pub domain: Option<String>,
}

/// The description a gap report gets: the item's, or "unknown gap".
pub open spec fn description_of(item: GapItem) -> Seq<char> {
    match item.description {
        Some(d) => d@,
        None => "unknown gap"@,
    }
}

/// The gap report made from an item of the answer: a custom-stage gap to be
/// created, with the priority and domain the item names and its confidence
/// (0.6 when it gives none).
pub open spec fn report_matches_item(r: GapReport, cycle_id: u128, item: GapItem) -> bool {
    &&& r.cycle_id == cycle_id
    &&& r.classification == GapClassification::Gap
    &&& r.confidence_thousandths == match item.confidence_thousandths {
        Some(c) => c,
        None => 600u32,
    }
    &&& r.cynefin_domain == domain_named(opt_view(item.domain))
    &&& r.wardley_stage == WardleyStage::Custom
    &&& r.priority == priority_named(opt_view(item.priority))
    &&& r.suggested_action == LifecycleAction::Create
    &&& r.justification@ == description_of(item)
    &&& r.affected_modules@.len() == 0
    &&& r.evidence@.len() == 0
}

/// The gap report for one item of the answer.
pub fn gap_report_from_item(cycle_id: u128, item: &GapItem) -> (r: GapReport)
    ensures
        report_matches_item(r, cycle_id, *item),
{
    let description: String = match &item.description {
        Some(d) => d.clone(),
        None => crate::config::owned("unknown gap"),
    };
    let confidence: u32 = match item.confidence_thousandths {
        Some(c) => c,
        None => 600,
    };
    GapReport::new(
        cycle_id,
        GapClassification::Gap,
        confidence,
        domain_from_label(&item.domain),
        WardleyStage::Custom,
        priority_from_label(&item.priority),
        LifecycleAction::Create,
        description,
    )
}

/// The gap reports for the items of the answer, one per item, in order.
pub fn gap_reports_from_items(cycle_id: u128, items: &Vec<GapItem>) -> (r: Vec<GapReport>)
    ensures
        r@.len() == items@.len(),
        forall|i: int| 0 <= i < r@.len() ==> report_matches_item(#[trigger] r@[i], cycle_id, items@[i]),
{
    let mut out: Vec<GapReport> = Vec::new();
    let mut i: usize = 0;
    while i < items.len()
        invariant
            i <= items@.len(),
            out@.len() == i,
            forall|j: int| 0 <= j < i ==> report_matches_item(#[trigger] out@[j], cycle_id, items@[j]),
        decreases items@.len() - i,
    {
        out.push(gap_report_from_item(cycle_id, &items[i]));
        i = i + 1;
    }
    out
}

// ---------------------------------------------------------------------------
// Gap identification prompt
// ---------------------------------------------------------------------------

/// Perception items shown to the LLM when it is asked for gaps.
pub const SUMMARY_ITEMS: usize = 5;

/// Characters of an item's content shown in the prompt.
pub const SNIPPET_CHARS: usize = 200;

/// `s` cut to at most `n` characters.
pub open spec fn prefix_of_len(s: Seq<char>, n: nat) -> Seq<char> {
    if s.len() <= n {
        s
    } else {
        s.take(n as int)
    }
}

/// The prompt line for one perception item: a bullet, its source type, a
/// colon and the first `SNIPPET_CHARS` characters of its content.
pub open spec fn summary_line(source_type: Seq<char>, content: Seq<char>) -> Seq<char> {
    seq!['\u{2022}', ' '] + source_type + seq![':', ' '] + prefix_of_len(content, SNIPPET_CHARS as nat)
}

/// The perception part of the gap-identification prompt: the lines of the
/// first `SUMMARY_ITEMS` items, each item given as (source type, content),
/// joined by newlines.
pub open spec fn perception_summary_spec(items: Seq<(Seq<char>, Seq<char>)>) -> Seq<char> {
    join(
        prefix_items(items, SUMMARY_ITEMS as nat).map_values(
            |it: (Seq<char>, Seq<char>)| summary_line(it.0, it.1),
        ),
        seq!['\n'],
    )
}

/// The first `n` items of `items`, or all of them when there are fewer.
pub open spec fn prefix_items<T>(items: Seq<T>, n: nat) -> Seq<T> {
    if items.len() <= n {
        items
    } else {
        items.take(n as int)
    }
}

/// The views of (source type, content) pairs.
pub open spec fn pair_views(items: Seq<(String, String)>) -> Seq<(Seq<char>, Seq<char>)> {
    items.map_values(|it: (String, String)| (it.0@, it.1@))
}

fn summary_line_chars(source_type: &String, content: &String) -> (r: Vec<char>)
    ensures
        r@ == summary_line(source_type@, content@),
{
    let mut out: Vec<char> = Vec::new();
    out.push('\u{2022}');
    out.push(' ');
    push_all(&mut out, &chars_of(source_type.as_str()));
    out.push(':');
    out.push(' ');
    let body = chars_of(content.as_str());
    let n: usize = if body.len() <= SNIPPET_CHARS { body.len() } else { SNIPPET_CHARS };
    let ghost head = out@;
    let mut k: usize = 0;
    while k < n
        invariant
            k <= n <= body@.len(),
            n == (if body@.len() <= SNIPPET_CHARS { body@.len() } else { SNIPPET_CHARS as nat }),
            out@ == head + body@.take(k as int),
        decreases n - k,
    {
        out.push(body[k]);
        k = k + 1;
        assert(out@ =~= head + body@.take(k as int));
    }
    assert(body@.take(n as int) =~= prefix_of_len(content@, SNIPPET_CHARS as nat));
    assert(out@ =~= summary_line(source_type@, content@));
    out
}

/// Summarises scored perception items, given as (source type, content), for
/// the gap-identification prompt.
pub fn perception_summary(items: &Vec<(String, String)>) -> (r: String)
    ensures
        r@ == perception_summary_spec(pair_views(items@)),
{
    let n: usize = if items.len() <= SUMMARY_ITEMS { items.len() } else { SUMMARY_ITEMS };
    let mut lines: Vec<Vec<char>> = Vec::new();
    let mut k: usize = 0;
    while k < n
        invariant
            k <= n <= items@.len(),
            lines@.len() == k,
            forall|j: int|
                0 <= j < k ==> #[trigger] lines@[j]@ == summary_line(items@[j].0@, items@[j].1@),
        decreases n - k,
    {
        let line = summary_line_chars(&items[k].0, &items[k].1);
        lines.push(line);
        k = k + 1;
    }
    let sep: Vec<char> = vec!['\n'];
    let joined = join_range(&lines, 0, n, &sep);
    proof {
        let want = prefix_items(pair_views(items@), SUMMARY_ITEMS as nat).map_values(
            |it: (Seq<char>, Seq<char>)| summary_line(it.0, it.1),
        );
        let got = lines@.subrange(0, n as int).map_values(|p: Vec<char>| p@);
        assert(got =~= want);
        assert(sep@ =~= seq!['\n']);
    }
    string_of(joined.as_slice())
}

// ---------------------------------------------------------------------------
// Action phase
// ---------------------------------------------------------------------------

/// A generated source is usable when it is not blank.
pub fn usable_source(source: &str) -> (r: bool)
    ensures
        r == (trim(source@).len() > 0),
{
    trim_chars(&chars_of(source)).len() > 0
}

/// The forge runs of one cycle's action phase so far.
pub struct ForgeTally {
    pub published: usize,
    pub rejected: usize,
}

impl ForgeTally {
    pub fn new() -> (r: Self)
        ensures
            r.published == 0,
            r.rejected == 0,
    {
        ForgeTally { published: 0, rejected: 0 }
    }

    /// The 0-based index, within the cycle's LLM budget, of the call that
    /// generates the next module's source: the gap-identification call is
    /// index 0, and each action handled so far used one more.
    pub fn generation_call_index(&self) -> (r: usize)
        requires
            self.published + self.rejected < usize::MAX,
        ensures
            r == self.published + self.rejected + 1,
    {
        self.published + self.rejected + 1
    }

    /// Count an action as published or rejected.
    pub fn record(&mut self, published: bool)
        requires
            old(self).published + old(self).rejected < usize::MAX,
        ensures
            published ==> final(self).published == old(self).published + 1 && final(self).rejected
                == old(self).rejected,
            !published ==> final(self).rejected == old(self).rejected + 1 && final(self).published
                == old(self).published,
    {
        if published {
            self.published = self.published + 1;
        } else {
            self.rejected = self.rejected + 1;
        }
    }
}

/// A cycle's forge efficiency in thousandths: the share of attempted
/// actions that were published (rounded down), full when nothing was
/// attempted.
pub open spec fn efficiency_spec(published: nat, attempted: nat) -> nat {
    if attempted == 0 {
        1000
    } else {
        published * 1000 / attempted
    }
}

pub fn forge_efficiency(published: usize, attempted: usize) -> (r: u32)
    requires
        published <= attempted,
    ensures
        r == efficiency_spec(published as nat, attempted as nat),
        r <= 1000,
{
    if attempted == 0 {
        return 1000;
    }
    let p: u128 = published as u128;
    let a: u128 = attempted as u128;
    assert((p * 1000) as int / (a as int) <= 1000) by (nonlinear_arith)
        requires
            p <= a,
            a > 0,
    ;
    (p * 1000 / a) as u32
}

/// The stability score the cycle reports to the self-model, in thousandths:
/// one minus the share of the action budget the kept gaps would fill
/// (capped at one); no stability with no budget.
pub open spec fn stability_spec(kept_gaps: nat, max_actions: nat) -> nat {
    if max_actions == 0 || kept_gaps >= max_actions {
        0
    } else {
        (1000 - kept_gaps * 1000 / max_actions) as nat
    }
}

pub fn cycle_stability(kept_gaps: usize, max_actions: usize) -> (r: u32)
    ensures
        r == stability_spec(kept_gaps as nat, max_actions as nat),
        r <= 1000,
{
    if max_actions == 0 || kept_gaps >= max_actions {
        return 0;
    }
    let g: u128 = kept_gaps as u128;
    let m: u128 = max_actions as u128;
    assert((g * 1000) as int / (m as int) <= 1000) by (nonlinear_arith)
        requires
            g < m,
    ;
    (1000 - g * 1000 / m) as u32
}

} // verus!
