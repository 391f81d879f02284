//! The forge runner's decisions for one planned module: how it names the
//! module and lays out its scratch project, where the validated source is
//! kept, and what happens after each pipeline run — publish on
//! a pass, run again after a failure while retries remain, and reject with
//! the last gate failure once they are spent.

use vstd::prelude::*;

use crate::error::ForgeError;
use crate::forge::{GateError, GateResult};
use crate::text::{chars_of, push_all, string_of};
use crate::types::{GateName, gate_debug_spec};

verus! {

/// What the runner does after a pipeline run.
#[derive(Debug, Clone)]
pub enum ForgeDecision {
    /// All gates passed: persist the source and announce the module.
    Publish,
    /// A gate failed and a retry remains: run the pipeline again.
    RunAgain { gate: GateName, message: String },
    /// A gate failed on the last allowed run: reject the module.
    Reject { error: ForgeError, reason: String, attempts: u8 },
}

/// The rejection reason for a failure at `gate`: `gate '<Gate>' failed: <message>`.
pub open spec fn gate_failed_text(gate: GateName, message: Seq<char>) -> Seq<char> {
    "gate '"@ + gate_debug_spec(gate) + "' failed: "@ + message
}

fn gate_failed_reason(gate: GateName, message: &String) -> (r: String)
    ensures
        r@ == gate_failed_text(gate, message@),
{
    let mut out = chars_of("gate '");
    push_all(&mut out, &chars_of(gate.debug_name()));
    push_all(&mut out, &chars_of("' failed: "));
    push_all(&mut out, &chars_of(message.as_str()));
    string_of(out.as_slice())
}

/// The retry bookkeeping of one forge run: the pipeline runs at most
/// `max_retries + 1` times.
#[derive(Debug, Clone)]
pub struct ForgeAttempts {
    pub max_retries: u8,
    /// Runs of the pipeline recorded so far (one more than `max_retries`
    /// once the run is over).
    pub attempts: u16,
}

impl ForgeAttempts {
    pub fn new(max_retries: u8) -> (r: Self)
        ensures
            r.max_retries == max_retries,
            r.attempts == 0,
    {
        ForgeAttempts { max_retries, attempts: 0 }
    }

    /// Whether the run is over (published or rejected).
    pub open spec fn finished(&self) -> bool {
        self.attempts > self.max_retries
    }

    /// Records the result of one run of the pipeline and decides what comes
    /// next. A rejection reports its attempt count, `max_retries + 1`, as a
    /// `u8`, so with 255 retries a failure on the last run has no count to
    /// report and is left out; a pass on that run is still published.
    pub fn on_gate_result(&mut self, result: &GateResult) -> (r: ForgeDecision)
        requires
            old(self).attempts <= old(self).max_retries,
            *result is Fail && old(self).attempts == old(self).max_retries ==> old(self).max_retries < u8::MAX,
        ensures
            final(self).max_retries == old(self).max_retries,
            *result is Pass ==> (r is Publish && final(self).attempts == old(self).max_retries + 1),
            result matches GateResult::Fail(e) ==> {
                &&& final(self).attempts == old(self).attempts + 1
                &&& (old(self).attempts < old(self).max_retries ==> (r matches ForgeDecision::RunAgain { gate, message }
                    && gate == e.gate && message == e.message))
                &&& (old(self).attempts == old(self).max_retries ==> (r matches ForgeDecision::Reject {
                    error,
                    reason,
                    attempts,
                } && attempts == old(self).max_retries + 1 && reason@ == gate_failed_text(e.gate, e.message@)
                    && (error matches ForgeError::GateFailed { gate, message } && gate == e.gate && message
                    == e.message)))
            },
    {
        match result {
            GateResult::Pass => {
                self.attempts = self.max_retries as u16 + 1;
                ForgeDecision::Publish
            },
            GateResult::Fail(e) => {
                self.attempts = self.attempts + 1;
                if self.attempts <= self.max_retries as u16 {
                    ForgeDecision::RunAgain { gate: e.gate, message: e.message.clone() }
                } else {
                    let reason = gate_failed_reason(e.gate, &e.message);
                    ForgeDecision::Reject {
                        error: ForgeError::GateFailed { gate: e.gate, message: e.message.clone() },
                        reason,
                        attempts: self.max_retries + 1,
                    }
                }
            },
        }
    }
}

/// A run rejects only after `max_retries + 1` failed runs: each failure
/// before that asks for another run, and every decision ends the run or
/// leaves it unfinished with one more attempt recorded.
pub proof fn lemma_rejects_after_all_retries(max_retries: u8, attempts: u16)
    requires
        attempts <= max_retries,
    ensures
        attempts < max_retries ==> !((ForgeAttempts { max_retries, attempts: (attempts + 1) as u16 }).finished()),
        attempts == max_retries ==> (ForgeAttempts { max_retries, attempts: (attempts + 1) as u16 }).finished(),
{
}

/// The lowercase hexadecimal digit for `d` (below sixteen).
pub open spec fn hex_digit(d: nat) -> char {
    if d < 10 {
        ((d + 48) as u32) as char
    } else {
        ((d + 87) as u32) as char
    }
}

/// The last `count` hexadecimal digits of `n`, most significant first.
pub open spec fn hex_digits(n: nat, count: nat) -> Seq<char>
    decreases count,
{
    if count == 0 {
        Seq::empty()
    } else {
        hex_digits(n / 16, (count - 1) as nat).push(hex_digit(n % 16))
    }
}

/// Rendering `count` hexadecimal digits gives exactly `count` characters.
pub proof fn lemma_hex_digits_len(n: nat, count: nat)
    ensures
        hex_digits(n, count).len() == count,
    decreases count,
{
    if count > 0 {
        lemma_hex_digits_len(n / 16, (count - 1) as nat);
    }
}

fn hex_char(d: u128) -> (r: char)
    requires
        d < 16,
    ensures
        r == hex_digit(d as nat),
{
    let b: u8 = d as u8;
    if b < 10 {
        (b + 48) as char
    } else {
        (b + 87) as char
    }
}

pub fn push_hex_digits(out: &mut Vec<char>, n: u128, count: usize)
    ensures
        final(out)@ == old(out)@ + hex_digits(n as nat, count as nat),
    decreases count,
{
    if count == 0 {
        assert(hex_digits(n as nat, 0) =~= Seq::<char>::empty());
        assert(out@ =~= old(out)@ + Seq::<char>::empty());
    } else {
        push_hex_digits(out, n / 16, count - 1);
        out.push(hex_char(n % 16));
    }
}

/// The name under which the module for a gap is forged: `gap_` followed by
/// the gap id as 32 lowercase hexadecimal digits (a UUID's simple form).
pub open spec fn forge_module_name_spec(gap_id: u128) -> Seq<char> {
    "gap_"@ + hex_digits(gap_id as nat, 32)
}

pub fn forge_module_name(gap_id: u128) -> (r: String)
    ensures
        r@ == forge_module_name_spec(gap_id),
{
    let mut out = chars_of("gap_");
    push_hex_digits(&mut out, gap_id, 32);
    string_of(out.as_slice())
}

/// The manifest of the scratch project a module is built in.
pub open spec fn scaffold_manifest_spec(module_name: Seq<char>) -> Seq<char> {
    "[package]\nname = \""@ + module_name + "\"\nversion = \"0.1.0\"\nedition = \"2021\"\n\n[lib]\nname = \""@
        + module_name + "\"\n"@
}

pub fn scaffold_manifest(module_name: &str) -> (r: String)
    ensures
        r@ == scaffold_manifest_spec(module_name@),
{
    let name = chars_of(module_name);
    let mut out = chars_of("[package]\nname = \"");
    push_all(&mut out, &name);
    push_all(&mut out, &chars_of("\"\nversion = \"0.1.0\"\nedition = \"2021\"\n\n[lib]\nname = \""));
    push_all(&mut out, &name);
    push_all(&mut out, &chars_of("\"\n"));
    string_of(out.as_slice())
}

/// Where the validated source of a module is kept in the knowledge area:
/// `modules/<date>/<module_name>.rs`.
pub open spec fn module_document_path_spec(date: Seq<char>, module_name: Seq<char>) -> Seq<char> {
    "modules/"@ + date + "/"@ + module_name + ".rs"@
}

pub fn module_document_path(date: &str, module_name: &str) -> (r: String)
    ensures
        r@ == module_document_path_spec(date@, module_name@),
{
    let mut out = chars_of("modules/");
    push_all(&mut out, &chars_of(date));
    push_all(&mut out, &chars_of("/"));
    push_all(&mut out, &chars_of(module_name));
    push_all(&mut out, &chars_of(".rs"));
    string_of(out.as_slice())
}

} // verus!
