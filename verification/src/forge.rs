//! The forge pipeline's decisions: the capabilities manifest of a forged
//! module, gate results, the two static gates (unsafe code and
//! forbidden patterns), the order in which gates run, and the retry
//! bookkeeping that keeps the most complete candidate.
//!
//! Parsing a source file for `unsafe` uses a syntax-tree visitor, and the
//! compile, lint, audit and test gates run external tools; those steps
//! happen outside the library and hand their findings in.

use vstd::prelude::*;

use crate::config::{ForgeConfig, owned};
use crate::text::{
    chars_of, contains, decimal, join, lines, push_all, push_decimal, seq_contains, split_lines,
    starts_with, string_of, trim, trim_chars,
};
use crate::error::ProjectEError;
use crate::types::{GateName, gate_debug_spec, gate_ordinal_spec};

verus! {

/// Network access policy for a module.
#[derive(Debug, Clone, Copy, PartialEq, Eq, Structural)]
pub enum NetworkPolicy {
    /// No network access.
    DenyAll,
    /// Only whitelisted domains.
    AllowListed,
}

/// Capabilities manifest generated per module by the forge pipeline.
#[derive(Debug, Clone)]
pub struct Capabilities {
    pub allow_http: bool,
    pub allow_domains: Vec<String>,
    pub allow_secrets: Vec<String>,
    pub max_http_requests: u32,
    pub max_memory_bytes: u64,
    pub timeout_secs: u32,
    pub network_policy: NetworkPolicy,
}

impl Default for Capabilities {
    fn default() -> (r: Self)
        ensures
            !r.allow_http,
            r.allow_domains@.len() == 0,
            r.allow_secrets@.len() == 0,
            r.max_http_requests == 50,
            r.max_memory_bytes == 128 * 1024 * 1024,
            r.timeout_secs == 30,
            r.network_policy == NetworkPolicy::DenyAll,
    {
        Capabilities {
            allow_http: false,
            allow_domains: Vec::new(),
            allow_secrets: Vec::new(),
            max_http_requests: 50,
            max_memory_bytes: 128 * 1024 * 1024,
            timeout_secs: 30,
            network_policy: NetworkPolicy::DenyAll,
        }
    }
}

impl Capabilities {
    /// Generate capabilities from gap report properties: network access
    /// (to the listed domains) exactly when the module needs the web; every
    /// other limit at its default.
    pub fn from_web_access(requires_web: bool, domains: Vec<String>) -> (r: Self)
        ensures
            r.allow_http == requires_web,
            r.allow_domains == domains,
            r.network_policy == (if requires_web { NetworkPolicy::AllowListed } else { NetworkPolicy::DenyAll }),
            r.allow_secrets@.len() == 0,
            r.max_http_requests == 50,
            r.max_memory_bytes == 128 * 1024 * 1024,
            r.timeout_secs == 30,
    {
        let base = Capabilities::default();
        Capabilities {
            allow_http: requires_web,
            allow_domains: domains,
            network_policy: if requires_web { NetworkPolicy::AllowListed } else { NetworkPolicy::DenyAll },
            ..base
        }
    }
}

/// Error type for gate validation failures.
#[derive(Debug, Clone)]
pub struct GateError {
    pub gate: GateName,
    pub message: String,
    pub details: Option<String>,
}

impl GateError {
    pub fn new(gate: GateName, message: String) -> (r: Self)
        ensures
            r.gate == gate,
            r.message == message,
            r.details is None,
    {
        GateError { gate, message, details: None }
    }

    pub fn with_details(self, details: String) -> (r: Self)
        ensures
            r.gate == self.gate,
            r.message == self.message,
            r.details == Some(details),
    {
        GateError { details: Some(details), ..self }
    }
}

/// The reason a gate failure carries as a forge error:
/// `gate <Gate> failed: <message>`.
pub open spec fn gate_error_reason(gate: GateName, message: Seq<char>) -> Seq<char> {
    "gate "@ + gate_debug_spec(gate) + " failed: "@ + message
}

impl GateError {
    /// The forge error a gate failure becomes.
    pub fn into_project_error(self) -> (r: ProjectEError)
        ensures
            r matches ProjectEError::Forge { reason } && reason@ == gate_error_reason(self.gate, self.message@),
    {
        let mut out = chars_of("gate ");
        push_all(&mut out, &chars_of(self.gate.debug_name()));
        push_all(&mut out, &chars_of(" failed: "));
        push_all(&mut out, &chars_of(self.message.as_str()));
        ProjectEError::Forge { reason: string_of(out.as_slice()) }
    }
}

/// Result of running a single gate.
#[derive(Debug, Clone)]
pub enum GateResult {
    /// Gate passed.
    Pass,
    /// Gate failed with an error.
    Fail(GateError),
}

impl GateResult {
    pub fn is_pass(&self) -> (r: bool)
        ensures
            r == (*self is Pass),
    {
        match self {
            GateResult::Pass => true,
            GateResult::Fail(_) => false,
        }
    }
}

/// Determine which gate failed from a gate result.
pub fn failed_gate(result: &GateResult) -> (r: Option<GateName>)
    ensures
        r == (match *result {
            GateResult::Pass => None,
            GateResult::Fail(e) => Some(e.gate),
        }),
{
    match result {
        GateResult::Pass => None,
        GateResult::Fail(e) => Some(e.gate),
    }
}

/// Joins strings with a separator.
pub fn join_strings(parts: &Vec<String>, sep: &str) -> (r: String)
    ensures
        r@ == join(parts@.map_values(|s: String| s@), sep@),
{
    let sepc = chars_of(sep);
    let mut out: Vec<char> = Vec::new();
    let mut k: usize = 0;
    while k < parts.len()
        invariant
            k <= parts.len(),
            sepc@ == sep@,
            out@ == join(parts@.take(k as int).map_values(|s: String| s@), sep@),
        decreases parts.len() - k,
    {
        let ghost prev = parts@.take(k as int).map_values(|s: String| s@);
        let ghost next = parts@.take(k + 1).map_values(|s: String| s@);
        assert(next.drop_last() =~= prev);
        assert(next.last() == parts[k as int]@);
        if k > 0 {
            push_all(&mut out, &sepc);
        } else {
            assert(next.len() == 1);
        }
        push_all(&mut out, &chars_of(parts[k].as_str()));
        k = k + 1;
        assert(out@ =~= join(next, sep@));
    }
    assert(parts@.take(parts.len() as int) =~= parts@);
    string_of(out.as_slice())
}

/// `prefix` + the decimal rendering of `n` + `suffix`.
pub open spec fn counted_message(prefix: Seq<char>, n: nat, suffix: Seq<char>) -> Seq<char> {
    prefix + decimal(n) + suffix
}

fn counted_message_text(prefix: &str, n: usize, suffix: &str) -> (r: String)
    ensures
        r@ == counted_message(prefix@, n as nat, suffix@),
{
    let mut out = chars_of(prefix);
    push_decimal(&mut out, n as u64);
    push_all(&mut out, &chars_of(suffix));
    string_of(out.as_slice())
}

/// The verdict of the unsafe-code gate on what the syntax-tree scan of the
/// source reported: the findings, or the parser's error.
pub open spec fn unsafe_verdict(scan: Result<Seq<Seq<char>>, Seq<char>>) -> (bool, Seq<char>, Seq<char>) {
    match scan {
        Err(e) => (false, "Failed to parse source"@, e),
        Ok(found) => if found.len() == 0 {
            (true, Seq::empty(), Seq::empty())
        } else {
            (false, counted_message("Found "@, found.len(), " unsafe block(s)"@), join(found, "; "@))
        },
    }
}

/// The scan's report as plain values.
pub open spec fn scan_view(scan: Result<Vec<String>, String>) -> Result<Seq<Seq<char>>, Seq<char>> {
    match scan {
        Ok(v) => Ok(v@.map_values(|s: String| s@)),
        Err(e) => Err(e@),
    }
}

/// `r` is the unsafe-code gate's verdict on the scan's report.
pub open spec fn unsafe_result_is(scan: Result<Seq<Seq<char>>, Seq<char>>, r: GateResult) -> bool {
    let v = unsafe_verdict(scan);
    if v.0 {
        r is Pass
    } else {
        gate_failure_is(r, GateName::UnsafeCheck, v.1, Some(v.2))
    }
}

/// `r` is the forbidden-pattern gate's verdict on a source.
pub open spec fn forbidden_result_is(source: Seq<char>, r: GateResult) -> bool {
    let found = forbidden_violations(source);
    if found.len() == 0 {
        r is Pass
    } else {
        gate_failure_is(
            r,
            GateName::ForbiddenPatterns,
            counted_message("Found "@, found.len(), " forbidden pattern(s)"@),
            Some(join(found, "\n"@)),
        )
    }
}

/// Gate 1: rejects source in which the syntax-tree scan found `unsafe`
/// blocks, functions or impls, or which did not parse.
pub fn unsafe_check_verdict(scan: Result<Vec<String>, String>) -> (r: GateResult)
    ensures
        unsafe_result_is(scan_view(scan), r),
{
    match scan {
        Err(e) => GateResult::Fail(
            GateError::new(GateName::UnsafeCheck, owned("Failed to parse source")).with_details(e),
        ),
        Ok(found) => {
            if found.len() == 0 {
                GateResult::Pass
            } else {
                let msg = counted_message_text("Found ", found.len(), " unsafe block(s)");
                let details = join_strings(&found, "; ");
                GateResult::Fail(GateError::new(GateName::UnsafeCheck, msg).with_details(details))
            }
        },
    }
}

/// The forbidden patterns with the advice given for each, in the order they
/// are checked.
pub open spec fn forbidden_pattern(k: int) -> Seq<char> {
    if k == 0 { ".unwrap()"@ }
    else if k == 1 { ".expect("@ }
    else if k == 2 { "panic!("@ }
    else if k == 3 { "todo!("@ }
    else { "unimplemented!("@ }
}

pub open spec fn forbidden_advice(k: int) -> Seq<char> {
    if k == 0 { "Use `?` operator or error handling instead of unwrap()"@ }
    else if k == 1 { "Use `?` operator or error handling instead of expect()"@ }
    else if k == 2 { "Do not use panic!() in module code"@ }
    else if k == 3 { "Do not leave todo!() in module code"@ }
    else { "Do not leave unimplemented!() in module code"@ }
}

/// The report for pattern `k` found on line number `n` (counted from one).
pub open spec fn violation_text(n: nat, k: int) -> Seq<char> {
    "line "@ + decimal(n) + ": "@ + forbidden_pattern(k) + " — "@ + forbidden_advice(k)
}

/// The reports for patterns `0..k` on one line, in pattern order.
pub open spec fn line_violations(line: Seq<char>, n: nat, k: int) -> Seq<Seq<char>>
    decreases k,
{
    if k <= 0 {
        Seq::empty()
    } else {
        let prev = line_violations(line, n, k - 1);
        if seq_contains(line, forbidden_pattern(k - 1)) {
            prev.push(violation_text(n, k - 1))
        } else {
            prev
        }
    }
}

/// A line is a comment when, once trimmed, it starts with `//`.
pub open spec fn is_comment_line(line: Seq<char>) -> bool {
    "//"@.is_prefix_of(trim(line))
}

/// The reports for the first `m` lines of a source, in order.
pub open spec fn source_violations(ls: Seq<Seq<char>>, m: int) -> Seq<Seq<char>>
    decreases m,
{
    if m <= 0 {
        Seq::empty()
    } else {
        let prev = source_violations(ls, m - 1);
        if is_comment_line(ls[m - 1]) {
            prev
        } else {
            prev + line_violations(ls[m - 1], m as nat, 5)
        }
    }
}

/// All reports for a source.
pub open spec fn forbidden_violations(source: Seq<char>) -> Seq<Seq<char>> {
    source_violations(lines(source), lines(source).len() as int)
}

proof fn lemma_line_reports(line: Seq<char>, n: nat, k: int, j: int)
    requires
        0 <= j < k,
        seq_contains(line, forbidden_pattern(j)),
    ensures
        line_violations(line, n, k).contains(violation_text(n, j)),
    decreases k,
{
    let prev = line_violations(line, n, k - 1);
    if j == k - 1 {
        assert(line_violations(line, n, k) == prev.push(violation_text(n, j)));
        assert(line_violations(line, n, k)[prev.len() as int] == violation_text(n, j));
    } else {
        lemma_line_reports(line, n, k - 1, j);
        let i = choose|i: int| 0 <= i < prev.len() && prev[i] == violation_text(n, j);
        if seq_contains(line, forbidden_pattern(k - 1)) {
            assert(line_violations(line, n, k)[i] == violation_text(n, j));
        }
    }
}

proof fn lemma_source_reports(ls: Seq<Seq<char>>, big_m: int, m: int, x: Seq<char>)
    requires
        0 <= m < big_m <= ls.len(),
        !is_comment_line(ls[m]),
        line_violations(ls[m], (m + 1) as nat, 5).contains(x),
    ensures
        source_violations(ls, big_m).contains(x),
    decreases big_m,
{
    let prev = source_violations(ls, big_m - 1);
    let lv = line_violations(ls[m], (m + 1) as nat, 5);
    if m == big_m - 1 {
        let i = choose|i: int| 0 <= i < lv.len() && lv[i] == x;
        assert(source_violations(ls, big_m) == prev + lv);
        assert((prev + lv)[prev.len() + i] == x);
    } else {
        lemma_source_reports(ls, big_m - 1, m, x);
        let i = choose|i: int| 0 <= i < prev.len() && prev[i] == x;
        if !is_comment_line(ls[big_m - 1]) {
            let lv2 = line_violations(ls[big_m - 1], big_m as nat, 5);
            assert((prev + lv2)[i] == x);
        }
    }
}

/// Every forbidden pattern counts, on every line that is not a comment:
/// when a non-comment line (number `m + 1`) holds any of `.unwrap()`,
/// `.expect(`, `panic!(`, `todo!(` or `unimplemented!(`, the reports of the
/// forbidden-pattern check hold one that starts with `line <m + 1>: ` and
/// that pattern, so `check_forbidden_patterns` fails.
pub proof fn lemma_every_forbidden_pattern_is_reported(source: Seq<char>, m: int, k: int)
    requires
        0 <= m < lines(source).len(),
        0 <= k < 5,
        !is_comment_line(lines(source)[m]),
        seq_contains(
            lines(source)[m],
            seq![".unwrap()"@, ".expect("@, "panic!("@, "todo!("@, "unimplemented!("@][k],
        ),
    ensures
        forbidden_violations(source).len() > 0,
        exists|i: int|
            0 <= i < forbidden_violations(source).len() && ("line "@ + decimal((m + 1) as nat) + ": "@
                + seq![".unwrap()"@, ".expect("@, "panic!("@, "todo!("@, "unimplemented!("@][k]).is_prefix_of(
                #[trigger] forbidden_violations(source)[i],
            ),
{
    let pats = seq![".unwrap()"@, ".expect("@, "panic!("@, "todo!("@, "unimplemented!("@];
    assert(forbidden_pattern(k) == pats[k]);
    let ls = lines(source);
    let v = violation_text((m + 1) as nat, k);
    lemma_line_reports(ls[m], (m + 1) as nat, 5, k);
    lemma_source_reports(ls, ls.len() as int, m, v);
    let all = forbidden_violations(source);
    let i = choose|i: int| 0 <= i < all.len() && all[i] == v;
    let head = "line "@ + decimal((m + 1) as nat) + ": "@ + pats[k];
    assert(v == head + " — "@ + forbidden_advice(k));
    assert(v.subrange(0, head.len() as int) =~= head);
    assert(head.is_prefix_of(all[i]));
}

fn pattern_and_advice(k: usize) -> (r: (&'static str, &'static str))
    requires
        k < 5,
    ensures
        r.0@ == forbidden_pattern(k as int),
        r.1@ == forbidden_advice(k as int),
{
    if k == 0 {
        (".unwrap()", "Use `?` operator or error handling instead of unwrap()")
    } else if k == 1 {
        (".expect(", "Use `?` operator or error handling instead of expect()")
    } else if k == 2 {
        ("panic!(", "Do not use panic!() in module code")
    } else if k == 3 {
        ("todo!(", "Do not leave todo!() in module code")
    } else {
        ("unimplemented!(", "Do not leave unimplemented!() in module code")
    }
}

/// Gate 2: checks source for forbidden patterns (`unwrap()`, `expect(`,
/// `panic!(`, `todo!(`, `unimplemented!(`) outside comment lines.
pub fn check_forbidden_patterns(source: &str) -> (r: GateResult)
    ensures
        forbidden_result_is(source@, r),
{
    let src = chars_of(source);
    let ls = split_lines(&src);
    let ghost lv = lines(source@);
    let slash = chars_of("//");
    let mut violations: Vec<String> = Vec::new();
    let mut i: usize = 0;
    while i < ls.len()
        invariant
            i <= ls.len(),
            ls.len() == lv.len(),
            lv == lines(source@),
            slash@ == "//"@,
            forall|k: int| 0 <= k < ls.len() ==> ls[k]@ == lv[k],
            violations@.map_values(|s: String| s@) == source_violations(lv, i as int),
        decreases ls.len() - i,
    {
        let line = &ls[i];
        let trimmed = trim_chars(line);
        if !starts_with(&trimmed, &slash) {
            let ghost before = violations@.map_values(|s: String| s@);
            let mut k: usize = 0;
            while k < 5
                invariant
                    k <= 5,
                    i < ls.len(),
                    ls.len() == lv.len(),
                    ls[i as int]@ == lv[i as int],
                    violations@.map_values(|s: String| s@) == before + line_violations(
                        lv[i as int],
                        (i + 1) as nat,
                        k as int,
                    ),
                decreases 5 - k,
            {
                let (pat, advice) = pattern_and_advice(k);
                let pc = chars_of(pat);
                let ghost prevv = violations@.map_values(|s: String| s@);
                let ghost line_k = line_violations(lv[i as int], (i + 1) as nat, k as int);
                let ghost line_k1 = line_violations(lv[i as int], (i + 1) as nat, k + 1);
                assert(line_k1 == (if seq_contains(lv[i as int], forbidden_pattern(k as int)) {
                    line_k.push(violation_text((i + 1) as nat, k as int))
                } else {
                    line_k
                }));
                if contains(&ls[i], &pc) {
                    let mut msg = chars_of("line ");
                    push_decimal(&mut msg, (i + 1) as u64);
                    push_all(&mut msg, &chars_of(": "));
                    push_all(&mut msg, &pc);
                    push_all(&mut msg, &chars_of(" — "));
                    push_all(&mut msg, &chars_of(advice));
                    assert(msg@ =~= violation_text((i + 1) as nat, k as int));
                    violations.push(string_of(msg.as_slice()));
                    assert(violations@.map_values(|s: String| s@) =~= prevv.push(msg@));
                }
                k = k + 1;
                assert(violations@.map_values(|s: String| s@) =~= before + line_violations(
                    lv[i as int],
                    (i + 1) as nat,
                    k as int,
                ));
            }
        }
        i = i + 1;
    }
    if violations.len() == 0 {
        GateResult::Pass
    } else {
        let msg = counted_message_text("Found ", violations.len(), " forbidden pattern(s)");
        let details = join_strings(&violations, "\n");
        GateResult::Fail(GateError::new(GateName::ForbiddenPatterns, msg).with_details(details))
    }
}

/// The two static gates in order: the unsafe-code gate on the scan's
/// findings, then the forbidden-pattern gate on the source; the first
/// failure is the result.
pub fn run_static_gates(source: &str, unsafe_scan: Result<Vec<String>, String>) -> (r: GateResult)
    ensures
        unsafe_verdict(scan_view(unsafe_scan)).0 ==> forbidden_result_is(source@, r),
        !unsafe_verdict(scan_view(unsafe_scan)).0 ==> unsafe_result_is(scan_view(unsafe_scan), r),
{
    let first = unsafe_check_verdict(unsafe_scan);
    if !first.is_pass() {
        return first;
    }
    check_forbidden_patterns(source)
}

/// How a gate's cargo command ended.
#[derive(Debug, Clone)]
pub enum CommandOutcome {
    /// It ran to completion, successfully or not, with this output.
    Finished { success: bool, stdout: String, stderr: String },
    /// It could not be started.
    NotRun { error: String },
    /// It did not finish within its gate's timeout.
    TimedOut,
}

/// What a command gate reports: its failure message, whether its details
/// carry the command's standard output before its error output, the
/// message when the command could not run (none: that gate passes), and the
/// start of its timeout message.
pub open spec fn command_gate_texts(gate: GateName) -> (Seq<char>, bool, Option<Seq<char>>, Seq<char>) {
    match gate {
        GateName::Compile => ("Compilation failed"@, false, Some("Failed to run cargo build"@), "Compilation"@),
        GateName::Clippy => ("Clippy warnings found"@, false, Some("Failed to run cargo clippy"@), "Clippy"@),
        GateName::Audit => ("Security audit found vulnerabilities"@, true, None, "Audit"@),
        _ => ("Tests failed"@, true, Some("Failed to run cargo test"@), "Tests"@),
    }
}

/// The cargo-command gates: compile, clippy, audit and test.
pub open spec fn is_command_gate(gate: GateName) -> bool {
    gate == GateName::Compile || gate == GateName::Clippy || gate == GateName::Audit || gate
        == GateName::Test
}

/// A command gate's verdict on how its command ended: pass on success; on
/// failure its message with the command's output as details; when the
/// command could not run, its message with the error as details (the audit
/// gate passes instead, as the tool may not be installed); on timeout
/// "<gate> timed out after <n>s".
pub open spec fn command_verdict_holds(gate: GateName, outcome: CommandOutcome, timeout_secs: u64, r: GateResult) -> bool {
    let (fail_msg, with_stdout, not_run_msg, timeout_prefix) = command_gate_texts(gate);
    match outcome {
        CommandOutcome::Finished { success, stdout, stderr } => if success {
            r is Pass
        } else {
            gate_failure_is(r, gate, fail_msg, Some(if with_stdout {
                stdout@ + "\n"@ + stderr@
            } else {
                stderr@
            }))
        },
        CommandOutcome::NotRun { error } => match not_run_msg {
            None => r is Pass,
            Some(m) => gate_failure_is(r, gate, m, Some(error@)),
        },
        CommandOutcome::TimedOut => gate_failure_is(
            r,
            gate,
            counted_message(timeout_prefix + " timed out after "@, timeout_secs as nat, "s"@),
            None,
        ),
    }
}

/// `r` is a failure of `gate` with this message and these details.
pub open spec fn gate_failure_is(r: GateResult, gate: GateName, message: Seq<char>, details: Option<Seq<char>>) -> bool {
    match r {
        GateResult::Pass => false,
        GateResult::Fail(e) => {
            &&& e.gate == gate
            &&& e.message@ == message
            &&& match (e.details, details) {
                (Some(d), Some(x)) => d@ == x,
                (None, None) => true,
                _ => false,
            }
        },
    }
}

/// Gates 3 to 6: the verdict of a cargo-command gate on how its command
/// ended within `timeout_secs`.
pub fn command_gate_verdict(gate: GateName, outcome: CommandOutcome, timeout_secs: u64) -> (r: GateResult)
    requires
        is_command_gate(gate),
    ensures
        command_verdict_holds(gate, outcome, timeout_secs, r),
{
    let (fail_msg, with_stdout, not_run_msg, timeout_prefix): (&str, bool, Option<&str>, &str) = match gate {
        GateName::Compile => ("Compilation failed", false, Some("Failed to run cargo build"), "Compilation timed out after "),
        GateName::Clippy => ("Clippy warnings found", false, Some("Failed to run cargo clippy"), "Clippy timed out after "),
        GateName::Audit => ("Security audit found vulnerabilities", true, None, "Audit timed out after "),
        _ => ("Tests failed", true, Some("Failed to run cargo test"), "Tests timed out after "),
    };
    proof {
        reveal_strlit("Compilation");
        reveal_strlit("Clippy");
        reveal_strlit("Audit");
        reveal_strlit("Tests");
        reveal_strlit(" timed out after ");
        reveal_strlit("Compilation timed out after ");
        reveal_strlit("Clippy timed out after ");
        reveal_strlit("Audit timed out after ");
        reveal_strlit("Tests timed out after ");
        let t = command_gate_texts(gate);
        assert(fail_msg@ == t.0 && with_stdout == t.1);
        assert(timeout_prefix@ =~= t.3 + " timed out after "@);
        assert(match not_run_msg {
            Some(m) => t.2 == Some(m@),
            None => t.2 is None,
        });
    }
    match outcome {
        CommandOutcome::Finished { success, stdout, stderr } => {
            if success {
                GateResult::Pass
            } else {
                let details = if with_stdout {
                    let mut out = chars_of(stdout.as_str());
                    out.push('\n');
                    push_all(&mut out, &chars_of(stderr.as_str()));
                    proof {
                        reveal_strlit("\n");
                        assert(out@ =~= stdout@ + "\n"@ + stderr@);
                    }
                    string_of(out.as_slice())
                } else {
                    stderr
                };
                GateResult::Fail(GateError::new(gate, owned(fail_msg)).with_details(details))
            }
        },
        CommandOutcome::NotRun { error } => match not_run_msg {
            None => GateResult::Pass,
            Some(m) => GateResult::Fail(GateError::new(gate, owned(m)).with_details(error)),
        },
        CommandOutcome::TimedOut => {
            let mut out = chars_of(timeout_prefix);
            push_decimal(&mut out, timeout_secs);
            out.push('s');
            proof {
                reveal_strlit("s");
                let t = command_gate_texts(gate);
                assert(out@ =~= counted_message(t.3 + " timed out after "@, timeout_secs as nat, "s"@));
            }
            GateResult::Fail(GateError::new(gate, string_of(out.as_slice())))
        },
    }
}

/// What the forge pipeline does next.
#[derive(Debug, Clone)]
pub enum PipelineStep {
    /// Run this cargo-command gate within this many seconds.
    RunGate { gate: GateName, timeout_secs: u64 },
    /// The pipeline is over, with this result.
    Finished(GateResult),
}

/// Which check follows `gate` in the pipeline: unsafe check, forbidden
/// patterns, compile, clippy, audit, tests; none after the tests.
pub open spec fn next_gate(gate: GateName) -> Option<GateName> {
    match gate {
        GateName::UnsafeCheck => Some(GateName::ForbiddenPatterns),
        GateName::ForbiddenPatterns => Some(GateName::Compile),
        GateName::Compile => Some(GateName::Clippy),
        GateName::Clippy => Some(GateName::Audit),
        GateName::Audit => Some(GateName::Test),
        GateName::Test => None,
    }
}

/// The time limit a command gate runs within.
pub open spec fn gate_timeout(config: ForgeConfig, gate: GateName) -> u64 {
    match gate {
        GateName::Compile => config.compile_timeout_secs,
        GateName::Clippy => config.clippy_timeout_secs,
        GateName::Audit => config.audit_timeout_secs,
        _ => config.test_timeout_secs,
    }
}

/// The step the pipeline takes after `gate` gave `result`.
pub open spec fn pipeline_step(gate: GateName, result: GateResult, config: ForgeConfig) -> PipelineStep {
    if result is Fail {
        PipelineStep::Finished(result)
    } else {
        match next_gate(gate) {
            None => PipelineStep::Finished(GateResult::Pass),
            Some(g) => PipelineStep::RunGate { gate: g, timeout_secs: gate_timeout(config, g) },
        }
    }
}

/// The pipeline's step after `gate` gave `result`: a failure ends the
/// pipeline with it; a pass runs the next gate, or ends the pipeline with a
/// pass after the tests. The two static gates run together
/// (`run_static_gates`), so the step after them is taken from the forbidden
/// pattern gate.
pub fn pipeline_next(gate: GateName, result: GateResult, config: &ForgeConfig) -> (r: PipelineStep)
    requires
        gate != GateName::UnsafeCheck,
    ensures
        result is Fail ==> (r matches PipelineStep::Finished(x) && x == result),
        result is Pass && next_gate(gate) is None ==> (r matches PipelineStep::Finished(x) && x is Pass),
        result is Pass && next_gate(gate) is Some ==> (r matches PipelineStep::RunGate { gate: g, timeout_secs }
            && next_gate(gate) == Some(g) && timeout_secs == gate_timeout(*config, g)),
        r matches PipelineStep::RunGate { gate: g, timeout_secs: _ } ==> is_command_gate(g),
        r == pipeline_step(gate, result, *config),
{
    if !result.is_pass() {
        return PipelineStep::Finished(result);
    }
    match gate {
        GateName::UnsafeCheck | GateName::ForbiddenPatterns => PipelineStep::RunGate {
            gate: GateName::Compile,
            timeout_secs: config.compile_timeout_secs,
        },
        GateName::Compile => PipelineStep::RunGate { gate: GateName::Clippy, timeout_secs: config.clippy_timeout_secs },
        GateName::Clippy => PipelineStep::RunGate { gate: GateName::Audit, timeout_secs: config.audit_timeout_secs },
        GateName::Audit => PipelineStep::RunGate { gate: GateName::Test, timeout_secs: config.test_timeout_secs },
        GateName::Test => PipelineStep::Finished(GateResult::Pass),
    }
}

/// Where the pipeline ends when, from `gate` having given `result`, each
/// gate it runs next gives the next of `rest`: its final result, or none if
/// `rest` runs out first.
pub open spec fn pipeline_run(gate: GateName, result: GateResult, rest: Seq<GateResult>, config: ForgeConfig) -> Option<GateResult>
    decreases rest.len(),
{
    match pipeline_step(gate, result, config) {
        PipelineStep::Finished(x) => Some(x),
        PipelineStep::RunGate { gate: g, timeout_secs: _ } => if rest.len() == 0 {
            None
        } else {
            pipeline_run(g, rest[0], rest.skip(1), config)
        },
    }
}

/// The first failure among `results`, or a pass when every one passed.
pub open spec fn first_failure(results: Seq<GateResult>) -> GateResult
    decreases results.len(),
{
    if results.len() == 0 {
        GateResult::Pass
    } else if results[0] is Fail {
        results[0]
    } else {
        first_failure(results.skip(1))
    }
}

proof fn lemma_first_failure_pass(results: Seq<GateResult>)
    ensures
        first_failure(results) is Pass <==> forall|i: int| 0 <= i < results.len() ==> #[trigger] results[i] is Pass,
    decreases results.len(),
{
    if results.len() > 0 {
        let rest = results.skip(1);
        lemma_first_failure_pass(rest);
        if forall|i: int| 0 <= i < rest.len() ==> #[trigger] rest[i] is Pass {
            if results[0] is Pass {
                assert forall|i: int| 0 <= i < results.len() implies #[trigger] results[i] is Pass by {
                    if i > 0 {
                        assert(results[i] == rest[i - 1]);
                    }
                }
            }
        } else {
            let j = choose|j: int| 0 <= j < rest.len() && !(#[trigger] rest[j] is Pass);
            assert(results[j + 1] == rest[j]);
        }
        if forall|i: int| 0 <= i < results.len() ==> #[trigger] results[i] is Pass {
            assert forall|i: int| 0 <= i < rest.len() implies #[trigger] rest[i] is Pass by {
                assert(rest[i] == results[i + 1]);
            }
            assert(results[0] is Pass);
        }
    }
}

proof fn lemma_pipeline_run_from(gate: GateName, result: GateResult, rest: Seq<GateResult>, config: ForgeConfig)
    requires
        gate != GateName::UnsafeCheck,
        rest.len() == 4 - gate_ordinal_spec(gate) + 1,
    ensures
        pipeline_run(gate, result, rest, config) == Some(first_failure(seq![result] + rest)),
    decreases rest.len(),
{
    let all = seq![result] + rest;
    assert(all[0] == result);
    assert(all.skip(1) =~= rest);
    if result is Pass && next_gate(gate) is Some {
        let g = next_gate(gate)->0;
        lemma_pipeline_follows_gate_order(gate);
        assert(gate_ordinal_spec(g) == gate_ordinal_spec(gate) + 1);
        assert(rest.len() > 0);
        lemma_pipeline_run_from(g, rest[0], rest.skip(1), config);
        assert(seq![rest[0]] + rest.skip(1) =~= rest);
        assert(pipeline_run(gate, result, rest, config) == pipeline_run(g, rest[0], rest.skip(1), config));
        assert(first_failure(all) == first_failure(all.skip(1)));
    } else if result is Pass {
        assert(gate == GateName::Test);
        assert(rest.len() == 0);
        assert(all.skip(1).len() == 0);
        assert(first_failure(all.skip(1)) is Pass);
    } else {
        assert(first_failure(all) == result);
    }
}

/// Validation gates are never bypassed: when the static gates give
/// `static_result` and the four cargo gates in turn would give `commands`,
/// the pipeline, stepping as `pipeline_next` decides, ends with the first
/// failure in gate order, and passes only when every gate passed.
pub proof fn lemma_pipeline_never_bypasses_gates(static_result: GateResult, commands: Seq<GateResult>, config: ForgeConfig)
    requires
        commands.len() == 4,
    ensures
        pipeline_run(GateName::ForbiddenPatterns, static_result, commands, config) == Some(
            first_failure(seq![static_result] + commands),
        ),
        first_failure(seq![static_result] + commands) is Pass <==> (static_result is Pass && forall|i: int|
            0 <= i < 4 ==> #[trigger] commands[i] is Pass),
{
    lemma_pipeline_run_from(GateName::ForbiddenPatterns, static_result, commands, config);
    let all = seq![static_result] + commands;
    lemma_first_failure_pass(all);
    assert(all[0] == static_result);
    assert forall|i: int| 0 <= i < 4 implies all[i + 1] == #[trigger] commands[i] by {}
    if static_result is Pass && forall|i: int| 0 <= i < 4 ==> #[trigger] commands[i] is Pass {
        assert forall|i: int| 0 <= i < all.len() implies #[trigger] all[i] is Pass by {
            if i > 0 {
                assert(all[i] == commands[i - 1]);
            }
        }
    }
}

/// The pipeline runs the gates in the order of their ordinals, one after
/// another, and the tests come last: every check but the tests is followed
/// by the one whose ordinal is one higher.
pub proof fn lemma_pipeline_follows_gate_order(gate: GateName)
    ensures
        gate == GateName::Test <==> next_gate(gate) is None,
        next_gate(gate) matches Some(g) ==> gate_ordinal_spec(g) == gate_ordinal_spec(gate) + 1,
{
}

/// Result of running the full forge pipeline on a piece of code.
#[derive(Debug)]
pub enum ForgeOutcome {
    /// All gates passed. Contains the final code.
    Success { code: String },
    /// Failed after all retry attempts. Contains the best candidate.
    Failure { best_code: Option<String>, retry_state: RetryState },
}

/// Tracks state across retry attempts for a single module forge.
#[derive(Debug)]
pub struct RetryState {
    pub attempt: u8,
    pub max_attempts: u8,
    /// Most complete code seen so far (passed more gates).
    pub best_candidate: Option<String>,
    /// Highest gate reached by the best candidate (read it with `best_gate()`).
    pub best_gate: Option<GateName>,
    /// Error history fed back to the model on retry.
    pub error_history: Vec<GateError>,
    /// True when switched to escalated model.
    pub escalated: bool,
}

/// The progress a candidate has made: the ordinal of the furthest gate it reached,
/// zero for none.
pub open spec fn progress(g: Option<GateName>) -> u8 {
    match g {
        Some(gate) => gate_ordinal_spec(gate),
        None => 0,
    }
}

impl RetryState {
    /// The highest gate reached by the best candidate.
    pub open spec fn best_gate_spec(&self) -> Option<GateName> {
        self.best_gate
    }

    pub fn new(max_attempts: u8) -> (r: Self)
        ensures
            r.attempt == 0,
            r.max_attempts == max_attempts,
            r.best_candidate is None,
            r.best_gate_spec() is None,
            r.error_history@.len() == 0,
            !r.escalated,
    {
        RetryState {
            attempt: 0,
            max_attempts,
            best_candidate: None,
            best_gate: None,
            error_history: Vec::new(),
            escalated: false,
        }
    }

    /// Record an attempt. The code becomes the best candidate if it reached
    /// at least as far as the previous best.
    pub fn record_attempt(&mut self, code: &str, gate_reached: GateName, error: GateError)
        requires
            old(self).attempt < u8::MAX,
        ensures
            final(self).attempt == old(self).attempt + 1,
            final(self).max_attempts == old(self).max_attempts,
            final(self).escalated == old(self).escalated,
            final(self).error_history@ == old(self).error_history@.push(error),
            gate_ordinal_spec(gate_reached) >= progress(old(self).best_gate_spec()) ==> {
                &&& final(self).best_candidate matches Some(c) && c@ == code@
                &&& final(self).best_gate_spec() == Some(gate_reached)
            },
            gate_ordinal_spec(gate_reached) < progress(old(self).best_gate_spec()) ==> {
                &&& final(self).best_candidate == old(self).best_candidate
                &&& final(self).best_gate_spec() == old(self).best_gate_spec()
            },
    {
        self.attempt = self.attempt + 1;
        let current_progress = gate_reached.ordinal();
        let best_progress = match self.best_gate {
            Some(g) => g.ordinal(),
            None => 0,
        };
        if current_progress >= best_progress {
            self.best_candidate = Some(owned(code));
            self.best_gate = Some(gate_reached);
        }
        self.error_history.push(error);
    }

    /// Record a fully successful attempt.
    pub fn record_success(&mut self, code: &str)
        requires
            old(self).attempt < u8::MAX,
        ensures
            final(self).attempt == old(self).attempt + 1,
            final(self).max_attempts == old(self).max_attempts,
            final(self).escalated == old(self).escalated,
            final(self).error_history == old(self).error_history,
            final(self).best_candidate matches Some(c) && c@ == code@,
            final(self).best_gate_spec() == Some(GateName::Test),
    {
        self.attempt = self.attempt + 1;
        self.best_candidate = Some(owned(code));
        self.best_gate = Some(GateName::Test);
    }

    /// Whether more retry attempts are available.
    pub fn can_retry(&self) -> (r: bool)
        ensures
            r == (self.attempt < self.max_attempts),
    {
        self.attempt < self.max_attempts
    }

    /// Whether the model should be escalated (after two failures).
    pub fn should_escalate(&self) -> (r: bool)
        ensures
            r == (self.attempt >= 2 && !self.escalated),
    {
        self.attempt >= 2 && !self.escalated
    }

    /// Mark as escalated.
    pub fn mark_escalated(&mut self)
        ensures
            final(self).escalated,
            final(self).attempt == old(self).attempt,
            final(self).max_attempts == old(self).max_attempts,
            final(self).best_candidate == old(self).best_candidate,
            final(self).best_gate_spec() == old(self).best_gate_spec(),
            final(self).error_history == old(self).error_history,
    {
        self.escalated = true;
    }

    /// Return the best candidate for the rejection report.
    pub fn best_for_report(&self) -> (r: Option<&str>)
        ensures
            r is Some <==> self.best_candidate is Some,
            r matches Some(s) ==> self.best_candidate matches Some(c) && s@ == c@,
    {
        match &self.best_candidate {
            Some(c) => Some(c.as_str()),
            None => None,
        }
    }

    /// Return the highest gate reached.
    pub fn best_gate(&self) -> (r: Option<GateName>)
        ensures
            r == self.best_gate_spec(),
    {
        self.best_gate
    }
}

/// The best candidate's progress never goes down: whatever an attempt
/// reaches, the recorded best gate afterwards is at least the one before,
/// and at least the one just reached.
pub proof fn lemma_best_progress_monotone(before: Option<GateName>, reached: GateName)
    ensures
        ({
            let after = if gate_ordinal_spec(reached) >= progress(before) { Some(reached) } else { before };
            &&& progress(after) >= progress(before)
            &&& progress(after) >= gate_ordinal_spec(reached)
        }),
{
}

} // verus!
