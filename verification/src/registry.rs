//! The module registry: module metadata, the in-memory store that enforces
//! the lifecycle state machine on every transition, and the audit record of
//! a transition.

use vstd::prelude::*;

use crate::error::ProjectEError;
use crate::forge_runner::hex_digits;
use crate::ids::{new_id, now_millis};
use crate::text::{chars_of, push_all, string_of};
use crate::types::{ModuleState, valid_transition};
use std::collections::HashMap;
use vstd::std_specs::hash::spec_keys_iter;
use vstd::std_specs::iter::IteratorSpec;

verus! {

broadcast use vstd::std_specs::hash::group_hash_axioms;

/// Metadata describing a module (ids are UUID values, times are
/// milliseconds since the Unix epoch).
#[derive(Debug, Clone)]
pub struct ModuleMetadata {
    pub id: u128,
    pub name: String,
    pub version: String,
    pub description: String,
    pub category: String,
    pub tags: Vec<String>,
    pub state: ModuleState,
    pub subscriptions: Vec<String>,
    pub created_at_ms: i64,
    pub updated_at_ms: i64,
}

/// What a module's metadata says, as plain values.
pub struct MetadataView {
    pub id: u128,
    pub name: Seq<char>,
    pub version: Seq<char>,
    pub description: Seq<char>,
    pub category: Seq<char>,
    pub tags: Seq<Seq<char>>,
    pub state: ModuleState,
    pub subscriptions: Seq<Seq<char>>,
    pub created_at_ms: i64,
    pub updated_at_ms: i64,
}

impl View for ModuleMetadata {
    type V = MetadataView;

    open spec fn view(&self) -> MetadataView {
        MetadataView {
            id: self.id,
            name: self.name@,
            version: self.version@,
            description: self.description@,
            category: self.category@,
            tags: self.tags@.map_values(|t: String| t@),
            state: self.state,
            subscriptions: self.subscriptions@.map_values(|t: String| t@),
            created_at_ms: self.created_at_ms,
            updated_at_ms: self.updated_at_ms,
        }
    }
}

fn copy_strings(v: &Vec<String>) -> (r: Vec<String>)
    ensures
        r@ == v@,
{
    let mut out: Vec<String> = Vec::new();
    let mut i: usize = 0;
    while i < v.len()
        invariant
            i <= v.len(),
            out@ == v@.take(i as int),
        decreases v.len() - i,
    {
        out.push(v[i].clone());
        i = i + 1;
        assert(out@ =~= v@.take(i as int));
    }
    assert(v@.take(v.len() as int) =~= v@);
    out
}

impl ModuleMetadata {
    /// An independent copy of the metadata, equal to it.
    pub fn copy(&self) -> (r: Self)
        ensures
            r@ == self@,
    {
        let r = ModuleMetadata {
            id: self.id,
            name: self.name.clone(),
            version: self.version.clone(),
            description: self.description.clone(),
            category: self.category.clone(),
            tags: copy_strings(&self.tags),
            state: self.state,
            subscriptions: copy_strings(&self.subscriptions),
            created_at_ms: self.created_at_ms,
            updated_at_ms: self.updated_at_ms,
        };
        assert(r.tags@.map_values(|t: String| t@) =~= self.tags@.map_values(|t: String| t@));
        assert(r.subscriptions@.map_values(|t: String| t@) =~= self.subscriptions@.map_values(|t: String| t@));
        r
    }
}

/// The views of a sequence of stored modules.
pub open spec fn views(s: Seq<ModuleMetadata>) -> Seq<MetadataView> {
    s.map_values(|m: ModuleMetadata| m@)
}

/// A walk of a store: each stored id once, in some order (the order in
/// which the store's map hands its entries out is not fixed).
pub open spec fn is_walk(m: Map<u128, MetadataView>, ks: Seq<u128>) -> bool {
    &&& ks.no_duplicates()
    &&& ks.to_set() == m.dom()
}

/// The modules of `s` that pass the optional state filter, in order.
pub open spec fn listed(s: Seq<MetadataView>, filter: Option<ModuleState>) -> Seq<MetadataView> {
    s.filter(|m: MetadataView| filter is None || filter == Some(m.state))
}

/// How many stored modules are in `state`.
pub open spec fn count_in_state(m: Map<u128, MetadataView>, state: ModuleState) -> nat {
    m.dom().filter(|k: u128| m[k].state == state).len()
}

pub open spec fn module_state_debug(s: ModuleState) -> Seq<char> {
    match s {
        ModuleState::Draft => "Draft"@,
        ModuleState::Compiling => "Compiling"@,
        ModuleState::Testing => "Testing"@,
        ModuleState::Active => "Active"@,
        ModuleState::Deprecated => "Deprecated"@,
        ModuleState::Removed => "Removed"@,
    }
}

fn module_state_debug_text(s: ModuleState) -> (r: &'static str)
    ensures
        r@ == module_state_debug(s),
{
    match s {
        ModuleState::Draft => "Draft",
        ModuleState::Compiling => "Compiling",
        ModuleState::Testing => "Testing",
        ModuleState::Active => "Active",
        ModuleState::Deprecated => "Deprecated",
        ModuleState::Removed => "Removed",
    }
}

/// An id in the hyphenated form of a UUID: 32 lowercase hexadecimal digits
/// grouped 8-4-4-4-12.
pub open spec fn hyphenated_id(id: u128) -> Seq<char> {
    let d = hex_digits(id as nat, 32);
    d.subrange(0, 8) + "-"@ + d.subrange(8, 12) + "-"@ + d.subrange(12, 16) + "-"@ + d.subrange(16, 20)
        + "-"@ + d.subrange(20, 32)
}

fn hyphenated_id_chars(id: u128) -> (r: Vec<char>)
    ensures
        r@ == hyphenated_id(id),
{
    let mut hex: Vec<char> = Vec::new();
    crate::forge_runner::push_hex_digits(&mut hex, id, 32);
    proof {
        crate::forge_runner::lemma_hex_digits_len(id as nat, 32);
    }
    assert(hex@ =~= hex_digits(id as nat, 32));
    let mut out: Vec<char> = Vec::new();
    let mut k: usize = 0;
    while k < 32
        invariant
            hex@ == hex_digits(id as nat, 32),
            hex@.len() == 32,
            k <= 32,
            out@ == hyphenated_prefix(hex@, k as int),
        decreases 32 - k,
    {
        if k == 8 || k == 12 || k == 16 || k == 20 {
            out.push('-');
        }
        out.push(hex[k]);
        k = k + 1;
    }
    proof {
        lemma_hyphenated_prefix_full(hex@);
    }
    out
}

/// The first `k` digits of `d` with the hyphens that come before them.
pub open spec fn hyphenated_prefix(d: Seq<char>, k: int) -> Seq<char>
    decreases k,
{
    if k <= 0 {
        Seq::empty()
    } else {
        let prev = hyphenated_prefix(d, k - 1);
        if k - 1 == 8 || k - 1 == 12 || k - 1 == 16 || k - 1 == 20 {
            prev.push('-').push(d[k - 1])
        } else {
            prev.push(d[k - 1])
        }
    }
}

proof fn lemma_hyphenated_prefix_full(d: Seq<char>)
    requires
        d.len() == 32,
    ensures
        hyphenated_prefix(d, 32) == d.subrange(0, 8) + "-"@ + d.subrange(8, 12) + "-"@ + d.subrange(12, 16)
            + "-"@ + d.subrange(16, 20) + "-"@ + d.subrange(20, 32),
{
    reveal_strlit("-");
    assert("-"@ =~= seq!['-']);
    assert forall|k: int| 0 <= k <= 8 implies #[trigger] hyphenated_prefix(d, k) == d.subrange(0, k) by {
        lemma_prefix_plain(d, 0, 0, k);
    }
    let a = d.subrange(0, 8) + "-"@;
    lemma_prefix_segment(d, a, 8, 12);
    let b = a + d.subrange(8, 12) + "-"@;
    lemma_prefix_segment(d, b, 12, 16);
    let c = b + d.subrange(12, 16) + "-"@;
    lemma_prefix_segment(d, c, 16, 20);
    let e = c + d.subrange(16, 20) + "-"@;
    lemma_prefix_segment(d, e, 20, 32);
    assert(e + d.subrange(20, 32) =~= d.subrange(0, 8) + "-"@ + d.subrange(8, 12) + "-"@ + d.subrange(12, 16)
        + "-"@ + d.subrange(16, 20) + "-"@ + d.subrange(20, 32));
}

proof fn lemma_prefix_plain(d: Seq<char>, lo: int, base: int, k: int)
    requires
        lo == 0,
        base == 0,
        0 <= k <= 8,
        d.len() == 32,
    ensures
        hyphenated_prefix(d, k) == d.subrange(0, k),
    decreases k,
{
    if k > 0 {
        lemma_prefix_plain(d, lo, base, k - 1);
        assert(d.subrange(0, k - 1).push(d[k - 1]) =~= d.subrange(0, k));
    } else {
        assert(d.subrange(0, 0) =~= Seq::<char>::empty());
    }
}

/// Within one group, digits follow one another after the group's hyphen.
proof fn lemma_prefix_segment(d: Seq<char>, before: Seq<char>, lo: int, hi: int)
    requires
        d.len() == 32,
        (lo == 8 && hi == 12) || (lo == 12 && hi == 16) || (lo == 16 && hi == 20) || (lo == 20 && hi == 32),
        hyphenated_prefix(d, lo) + "-"@ == before,
        "-"@ == seq!['-'],
    ensures
        hyphenated_prefix(d, hi) == before + d.subrange(lo, hi),
{
    assert forall|k: int| lo < k <= hi implies #[trigger] hyphenated_prefix(d, k) == before + d.subrange(lo, k) by {
        lemma_prefix_segment_step(d, before, lo, hi, k);
    }
}

proof fn lemma_prefix_segment_step(d: Seq<char>, before: Seq<char>, lo: int, hi: int, k: int)
    requires
        d.len() == 32,
        (lo == 8 && hi == 12) || (lo == 12 && hi == 16) || (lo == 16 && hi == 20) || (lo == 20 && hi == 32),
        hyphenated_prefix(d, lo) + "-"@ == before,
        "-"@ == seq!['-'],
        lo < k <= hi,
    ensures
        hyphenated_prefix(d, k) == before + d.subrange(lo, k),
    decreases k,
{
    if k == lo + 1 {
        assert(hyphenated_prefix(d, k) == hyphenated_prefix(d, lo).push('-').push(d[lo]));
        assert(hyphenated_prefix(d, lo).push('-') =~= before);
        assert(before.push(d[lo]) =~= before + d.subrange(lo, k));
    } else {
        lemma_prefix_segment_step(d, before, lo, hi, k - 1);
        assert((before + d.subrange(lo, k - 1)).push(d[k - 1]) =~= before + d.subrange(lo, k));
    }
}

/// `module <id> not found`.
pub open spec fn not_found_reason(id: u128) -> Seq<char> {
    "module "@ + hyphenated_id(id) + " not found"@
}

/// `invalid transition <From> → <To> for module <name>`.
pub open spec fn invalid_transition_reason(from: ModuleState, to: ModuleState, name: Seq<char>) -> Seq<char> {
    "invalid transition "@ + module_state_debug(from) + " → "@ + module_state_debug(to) + " for module "@ + name
}

/// In-memory module registry, keyed by module id.
pub struct ModuleStore {
    modules: HashMap<u128, ModuleMetadata>,
}

impl View for ModuleStore {
    type V = Map<u128, MetadataView>;

    closed spec fn view(&self) -> Map<u128, MetadataView> {
        self.modules@.map_values(|m: ModuleMetadata| m@)
    }
}

impl Default for ModuleStore {
    fn default() -> (r: Self)
        ensures
            r@ == Map::<u128, MetadataView>::empty(),
    {
        ModuleStore::new()
    }
}

proof fn lemma_count_walk(m: Map<u128, MetadataView>, ks: Seq<u128>, state: ModuleState)
    requires
        ks.no_duplicates(),
    ensures
        ks.filter(|k: u128| m[k].state == state).len() == ks.to_set().filter(|k: u128| m[k].state == state).len(),
    decreases ks.len(),
{
    let p = |k: u128| m[k].state == state;
    reveal(Seq::filter);
    if ks.len() == 0 {
        assert(ks.to_set() =~= Set::empty());
        assert(ks.to_set().filter(p) =~= Set::empty());
    } else {
        let init = ks.drop_last();
        let x = ks.last();
        assert(init.no_duplicates()) by {
            assert forall|i: int, j: int| 0 <= i < init.len() && 0 <= j < init.len() && i != j implies init[i]
                != init[j] by {
                assert(init[i] == ks[i] && init[j] == ks[j]);
            }
        }
        lemma_count_walk(m, init, state);
        assert(ks =~= init.push(x));
        assert(ks.to_set() =~= init.to_set().insert(x)) by {
            assert forall|y: u128| ks.to_set().contains(y) <==> init.to_set().insert(x).contains(y) by {
                if ks.contains(y) {
                    let i = choose|i: int| 0 <= i < ks.len() && ks[i] == y;
                    if i < init.len() {
                        assert(init[i] == y);
                    }
                }
                if init.contains(y) {
                    let i = choose|i: int| 0 <= i < init.len() && init[i] == y;
                    assert(ks[i] == y);
                }
                if y == x {
                    assert(ks[ks.len() - 1] == y);
                }
            }
        }
        assert(!init.to_set().contains(x)) by {
            if init.contains(x) {
                let i = choose|i: int| 0 <= i < init.len() && init[i] == x;
                assert(ks[i] == ks[ks.len() - 1]);
            }
        }
        vstd::seq_lib::seq_to_set_is_finite(init);
        if p(x) {
            assert(ks.to_set().filter(p) =~= init.to_set().filter(p).insert(x));
        } else {
            assert(ks.to_set().filter(p) =~= init.to_set().filter(p));
        }
    }
}

impl ModuleStore {
    /// Every module is stored under its own id.
    #[verifier::type_invariant]
    closed spec fn keyed_by_id(&self) -> bool {
        forall|k: u128| #[trigger] self.modules@.contains_key(k) ==> self.modules@[k].id == k
    }

    /// An empty registry.
    pub fn new() -> (r: Self)
        ensures
            r@ == Map::<u128, MetadataView>::empty(),
    {
        let r = ModuleStore { modules: HashMap::new() };
        assert(r@ =~= Map::<u128, MetadataView>::empty());
        r
    }

    /// Insert a module under its id; a module with the same id is replaced.
    pub fn insert(&mut self, module: ModuleMetadata) -> (r: Result<(), ProjectEError>)
        ensures
            r is Ok,
            final(self)@ == old(self)@.insert(module.id, module@),
    {
        proof {
            use_type_invariant(&*self);
        }
        let ghost m = module@;
        let mut modules: HashMap<u128, ModuleMetadata> = HashMap::new();
        std::mem::swap(&mut modules, &mut self.modules);
        let id = module.id;
        modules.insert(id, module);
        assert(modules@.map_values(|x: ModuleMetadata| x@) =~= old(self)@.insert(id, m));
        assert forall|k: u128| #[trigger] modules@.contains_key(k) implies modules@[k].id == k by {
            if k != id {
                assert(old(self).modules@.contains_key(k));
            }
        }
        self.modules = modules;
        Ok(())
    }

    /// Get a copy of the module with the given id.
    pub fn get(&self, id: u128) -> (r: Result<Option<ModuleMetadata>, ProjectEError>)
        ensures
            r is Ok,
            r matches Ok(o) ==> (o is Some <==> self@.contains_key(id)),
            r matches Ok(Some(m)) ==> m@ == self@[id] && m.id == id,
    {
        proof {
            use_type_invariant(self);
        }
        match self.modules.get(&id) {
            Some(m) => Ok(Some(m.copy())),
            None => Ok(None),
        }
    }

    /// List the modules, optionally only those in one state, in the order
    /// the store walks them.
    pub fn list(&self, state_filter: Option<ModuleState>) -> (r: Vec<ModuleMetadata>)
        ensures
            exists|ks: Seq<u128>|
                {
                    &&& is_walk(self@, ks)
                    &&& views(r@) == listed(ks.map_values(|k: u128| self@[k]), state_filter)
                },
    {
        broadcast use vstd::std_specs::hash::axiom_spec_keys_iter;
        let ghost pred = |m: MetadataView| state_filter is None || state_filter == Some(m.state);
        let ghost v = self@;
        let ghost walk = spec_keys_iter(&self.modules).remaining().unref();
        let mut out: Vec<ModuleMetadata> = Vec::new();
        for kr in it: self.modules.keys()
            invariant
                v == self@,
                it.seq().unref() == walk,
                pred == (|m: MetadataView| state_filter is None || state_filter == Some(m.state)),
                it.seq().unref().to_set() == self.modules@.dom(),
                it.seq().unref().no_duplicates(),
                views(out@) == it.seq().unref().take(it.index() as int).map_values(|k: u128| v[k]).filter(pred),
        {
            let ghost ks = it.seq().unref();
            let ghost i = it.index() as int;
            let k: u128 = *kr;
            assert(k == ks[i]);
            assert(ks.contains(k));
            assert(ks.to_set().contains(k));
            let ghost t1 = ks.take(i + 1).map_values(|k: u128| v[k]);
            assert(t1.drop_last() =~= ks.take(i).map_values(|k: u128| v[k]));
            assert(t1.last() == v[k]);
            assert(t1.filter(pred) == (if pred(t1.last()) {
                t1.drop_last().filter(pred).push(t1.last())
            } else {
                t1.drop_last().filter(pred)
            })) by {
                reveal(Seq::filter);
            }
            match self.modules.get(&k) {
                Some(m) => {
                    let keep = match state_filter {
                        None => true,
                        Some(s) => m.state == s,
                    };
                    if keep {
                        let c = m.copy();
                        let ghost before = out@;
                        out.push(c);
                        assert(views(out@) =~= views(before).push(c@));
                    }
                },
                None => {},
            }
        }
        proof {
            assert(walk.take(walk.len() as int) =~= walk);
            assert(self@.dom() =~= self.modules@.dom());
            assert(is_walk(self@, walk));
            assert(views(out@) == listed(walk.map_values(|k: u128| self@[k]), state_filter));
        }
        out
    }

    /// Transition a module's state, enforcing the lifecycle; the module's
    /// update time is set to the current time.
    pub fn transition(&mut self, id: u128, new_state: ModuleState, reason: &str) -> (r: Result<(), ProjectEError>)
        ensures
            !old(self)@.contains_key(id) ==> final(self)@ == old(self)@,
            !old(self)@.contains_key(id) ==> (r matches Err(ProjectEError::Registry { reason })
                && reason@ == not_found_reason(id)),
            old(self)@.contains_key(id) && !valid_transition(old(self)@[id].state, new_state)
                ==> final(self)@ == old(self)@,
            old(self)@.contains_key(id) && !valid_transition(old(self)@[id].state, new_state)
                ==> (r matches Err(ProjectEError::Registry { reason }) && reason@ == invalid_transition_reason(
                old(self)@[id].state,
                new_state,
                old(self)@[id].name,
            )),
            old(self)@.contains_key(id) && valid_transition(old(self)@[id].state, new_state) ==> {
                &&& r is Ok
                &&& final(self)@ == old(self)@.insert(id, MetadataView {
                    state: new_state,
                    updated_at_ms: final(self)@[id].updated_at_ms,
                    ..old(self)@[id]
                })
            },
    {
        let current = match self.modules.get(&id) {
            Some(m) => m.copy(),
            None => {
                let mut msg = chars_of("module ");
                push_all(&mut msg, &hyphenated_id_chars(id));
                push_all(&mut msg, &chars_of(" not found"));
                return Err(ProjectEError::Registry { reason: string_of(msg.as_slice()) });
            },
        };
        let from = current.state;
        if !from.can_transition_to(new_state) {
            let mut msg = chars_of("invalid transition ");
            push_all(&mut msg, &chars_of(module_state_debug_text(from)));
            push_all(&mut msg, &chars_of(" → "));
            push_all(&mut msg, &chars_of(module_state_debug_text(new_state)));
            push_all(&mut msg, &chars_of(" for module "));
            push_all(&mut msg, &chars_of(current.name.as_str()));
            return Err(ProjectEError::Registry { reason: string_of(msg.as_slice()) });
        }
        proof {
            use_type_invariant(&*self);
        }
        let mut m = current;
        m.state = new_state;
        m.updated_at_ms = now_millis();
        let ghost mv = m@;
        let mut modules: HashMap<u128, ModuleMetadata> = HashMap::new();
        std::mem::swap(&mut modules, &mut self.modules);
        modules.insert(id, m);
        assert(modules@.map_values(|x: ModuleMetadata| x@) =~= old(self)@.insert(id, mv));
        assert forall|k: u128| #[trigger] modules@.contains_key(k) implies modules@[k].id == k by {
            if k != id {
                assert(old(self).modules@.contains_key(k));
            }
        }
        self.modules = modules;
        Ok(())
    }

    /// Count of modules in a given state.
    pub fn count_by_state(&self, state: ModuleState) -> (r: usize)
        ensures
            r == count_in_state(self@, state),
    {
        broadcast use vstd::std_specs::hash::axiom_spec_keys_iter;
        let ghost v = self@;
        let ghost pk = |k: u128| v[k].state == state;
        let ghost walk = spec_keys_iter(&self.modules).remaining().unref();
        let total = self.modules.len();
        let mut n: usize = 0;
        for kr in it: self.modules.keys()
            invariant
                v == self@,
                it.seq().unref() == walk,
                walk.len() == total,
                pk == (|k: u128| v[k].state == state),
                it.seq().unref().to_set() == self.modules@.dom(),
                it.seq().unref().no_duplicates(),
                n == it.seq().unref().take(it.index() as int).filter(pk).len(),
                n <= it.index(),
        {
            let ghost ks = it.seq().unref();
            let ghost i = it.index() as int;
            let k: u128 = *kr;
            assert(k == ks[i]);
            let ghost t1 = ks.take(i + 1);
            assert(t1.drop_last() =~= ks.take(i));
            assert(t1.last() == k);
            assert(t1.filter(pk) == (if pk(t1.last()) {
                t1.drop_last().filter(pk).push(t1.last())
            } else {
                t1.drop_last().filter(pk)
            })) by {
                reveal(Seq::filter);
            }
            assert(ks.contains(k));
            assert(ks.to_set().contains(k));
            match self.modules.get(&k) {
                Some(m) => {
                    if m.state == state {
                        n = n + 1;
                    }
                },
                None => {},
            }
        }
        proof {
            assert(walk.take(walk.len() as int) =~= walk);
            lemma_count_walk(v, walk, state);
            assert(v.dom() =~= self.modules@.dom());
        }
        n
    }
}

/// What a store reports after an insert: the inserted module under its id,
/// every other id as it was.
pub proof fn lemma_insert_then_lookup(s: Map<u128, MetadataView>, m: MetadataView, other: u128)
    ensures
        s.insert(m.id, m).contains_key(m.id),
        s.insert(m.id, m)[m.id] == m,
        other != m.id ==> (s.insert(m.id, m).contains_key(other) <==> s.contains_key(other)),
        other != m.id && s.contains_key(other) ==> s.insert(m.id, m)[other] == s[other],
{
}

/// A transition is recorded only along a valid lifecycle edge: whenever a
/// transition succeeds, the module's old state may move to the new one.
pub proof fn lemma_transition_follows_lifecycle(from: ModuleState, to: ModuleState)
    ensures
        valid_transition(from, to) ==> from != to,
        valid_transition(from, to) ==> from != ModuleState::Removed,
{
}

/// A recorded state transition for the audit trail.
#[derive(Debug, Clone)]
pub struct StateTransition {
    pub id: u128,
    pub module_id: u128,
    pub from_state: ModuleState,
    pub to_state: ModuleState,
    pub reason: String,
    pub transitioned_at_ms: i64,
}

impl StateTransition {
    pub fn new(module_id: u128, from_state: ModuleState, to_state: ModuleState, reason: String) -> (r: Self)
        ensures
            r.module_id == module_id,
            r.from_state == from_state,
            r.to_state == to_state,
            r.reason == reason,
    {
        StateTransition {
            id: new_id(),
            module_id,
            from_state,
            to_state,
            reason,
            transitioned_at_ms: now_millis(),
        }
    }
}

} // verus!
