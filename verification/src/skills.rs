//! Skills: their definitions, the catalog that indexes them by name, the
//! keyword search over it, and the three-tier activation rule.

use vstd::prelude::*;

use crate::config::owned;
use crate::text::{chars_eq, chars_of, contains, lower_chars, lower_seq, seq_contains};

verus! {

/// Trust levels for skills.
#[derive(Debug, Clone, Copy, PartialEq, Eq, Structural)]
pub enum SkillTrust {
    /// User-placed skills with full tool access.
    Trusted,
    /// Registry-installed skills with restricted tool access.
    Installed,
}

impl Default for SkillTrust {
    fn default() -> (r: Self)
        ensures
            r == SkillTrust::Installed,
    {
        SkillTrust::Installed
    }
}

/// A discovered skill definition (`path` is the location of its SKILL.md).
#[derive(Debug, Clone)]
pub struct SkillDefinition {
    pub name: String,
    pub version: String,
    pub description: String,
    pub path: String,
    pub keywords: Vec<String>,
    pub patterns: Vec<String>,
    pub tags: Vec<String>,
    pub max_context_tokens: usize,
    pub trust: SkillTrust,
}

/// What a skill definition says, as plain values.
pub struct SkillView {
    pub name: Seq<char>,
    pub version: Seq<char>,
    pub description: Seq<char>,
    pub path: Seq<char>,
    pub keywords: Seq<Seq<char>>,
    pub patterns: Seq<Seq<char>>,
    pub tags: Seq<Seq<char>>,
    pub max_context_tokens: usize,
    pub trust: SkillTrust,
}

pub open spec fn texts(v: Seq<String>) -> Seq<Seq<char>> {
    v.map_values(|t: String| t@)
}

impl View for SkillDefinition {
    type V = SkillView;

    open spec fn view(&self) -> SkillView {
        SkillView {
            name: self.name@,
            version: self.version@,
            description: self.description@,
            path: self.path@,
            keywords: texts(self.keywords@),
            patterns: texts(self.patterns@),
            tags: texts(self.tags@),
            max_context_tokens: self.max_context_tokens,
            trust: self.trust,
        }
    }
}

impl Default for SkillDefinition {
    fn default() -> (r: Self)
        ensures
            r@.name == Seq::<char>::empty(),
            r@.version == "0.1.0"@,
            r@.description == Seq::<char>::empty(),
            r@.path == Seq::<char>::empty(),
            r@.keywords.len() == 0,
            r@.patterns.len() == 0,
            r@.tags.len() == 0,
            r@.max_context_tokens == 2000,
            r@.trust == SkillTrust::Installed,
    {
        SkillDefinition {
            name: String::new(),
            version: owned("0.1.0"),
            description: String::new(),
            path: String::new(),
            keywords: Vec::new(),
            patterns: Vec::new(),
            tags: Vec::new(),
            max_context_tokens: 2000,
            trust: SkillTrust::Installed,
        }
    }
}

// ---------------------------------------------------------------------------
// Activation
// ---------------------------------------------------------------------------

/// Activation tier for a skill.
#[derive(Debug, Clone, Copy, PartialEq, Eq, Structural)]
pub enum ActivationTier {
    /// Always injected as a brief catalog entry.
    Tier1,
    /// Activated by keyword/pattern matching.
    Tier2,
    /// Explicitly activated by the user or system.
    Tier3,
}

/// `term`, lowercased, occurs in the (already lowercased) text `ctx`.
pub open spec fn mentions(ctx: Seq<char>, term: Seq<char>) -> bool {
    seq_contains(ctx, lower_seq(term))
}

/// How many of `terms` the lowercased text `ctx` mentions.
pub open spec fn hits(ctx: Seq<char>, terms: Seq<Seq<char>>) -> nat
    decreases terms.len(),
{
    if terms.len() == 0 {
        0
    } else {
        hits(ctx, terms.drop_last()) + if mentions(ctx, terms.last()) {
            1nat
        } else {
            0nat
        }
    }
}

/// The tier a skill is activated at in `context`: a pattern mentioned by the
/// context, or two mentioned keywords, activate it at tier 2; otherwise it
/// stays at tier 1 (letters compared without regard to ASCII case).
pub open spec fn tier_for(skill: SkillView, context: Seq<char>) -> ActivationTier {
    let ctx = lower_seq(context);
    if exists|i: int| 0 <= i < skill.patterns.len() && mentions(ctx, #[trigger] skill.patterns[i]) {
        ActivationTier::Tier2
    } else if hits(ctx, skill.keywords) >= 2 {
        ActivationTier::Tier2
    } else {
        ActivationTier::Tier1
    }
}

/// Any pattern decides: a context that holds (letters compared without
/// regard to ASCII case) the text of any one of a skill's patterns, wherever
/// it stands in the list, activates the skill at tier 2.
pub proof fn lemma_any_pattern_activates(skill: SkillView, context: Seq<char>, i: int)
    requires
        0 <= i < skill.patterns.len(),
        seq_contains(lower_seq(context), lower_seq(skill.patterns[i])),
    ensures
        tier_for(skill, context) == ActivationTier::Tier2,
{
    assert(mentions(lower_seq(context), skill.patterns[i]));
}

proof fn lemma_hits_counts(ctx: Seq<char>, terms: Seq<Seq<char>>, i: int, j: int)
    requires
        0 <= i < terms.len(),
        0 <= j < terms.len(),
        i != j,
        seq_contains(ctx, lower_seq(terms[i])),
        seq_contains(ctx, lower_seq(terms[j])),
    ensures
        hits(ctx, terms) >= 2,
    decreases terms.len(),
{
    let init = terms.drop_last();
    let last = terms.len() - 1;
    if i == last || j == last {
        let other = if i == last { j } else { i };
        lemma_hits_at_least_one(ctx, init, other);
    } else {
        lemma_hits_counts(ctx, init, i, j);
    }
}

proof fn lemma_hits_at_least_one(ctx: Seq<char>, terms: Seq<Seq<char>>, i: int)
    requires
        0 <= i < terms.len(),
        seq_contains(ctx, lower_seq(terms[i])),
    ensures
        hits(ctx, terms) >= 1,
    decreases terms.len(),
{
    if i < terms.len() - 1 {
        lemma_hits_at_least_one(ctx, terms.drop_last(), i);
    }
}

/// Two keywords decide too: a context that holds (without regard to ASCII
/// case) two of a skill's keywords, at different places in the list,
/// activates it at tier 2.
pub proof fn lemma_two_keywords_activate(skill: SkillView, context: Seq<char>, i: int, j: int)
    requires
        0 <= i < skill.keywords.len(),
        0 <= j < skill.keywords.len(),
        i != j,
        seq_contains(lower_seq(context), lower_seq(skill.keywords[i])),
        seq_contains(lower_seq(context), lower_seq(skill.keywords[j])),
    ensures
        tier_for(skill, context) == ActivationTier::Tier2,
{
    lemma_hits_counts(lower_seq(context), skill.keywords, i, j);
}

/// Whether the lowercased text `ctx` mentions `term`.
fn mentions_term(ctx: &Vec<char>, term: &String) -> (r: bool)
    ensures
        r == mentions(ctx@, term@),
{
    let t = lower_chars(&chars_of(term.as_str()));
    contains(ctx, &t)
}

/// How many of `terms` the lowercased text `ctx` mentions.
fn count_mentions(ctx: &Vec<char>, terms: &Vec<String>) -> (r: usize)
    ensures
        r == hits(ctx@, texts(terms@)),
{
    let ghost ts = texts(terms@);
    let mut n: usize = 0;
    let mut i: usize = 0;
    while i < terms.len()
        invariant
            i <= terms.len(),
            ts == texts(terms@),
            n == hits(ctx@, ts.take(i as int)),
            n <= i,
        decreases terms.len() - i,
    {
        let m = mentions_term(ctx, &terms[i]);
        proof {
            assert(ts.take(i + 1).drop_last() =~= ts.take(i as int));
            assert(ts.take(i + 1).last() == terms@[i as int]@);
        }
        if m {
            n = n + 1;
        }
        i = i + 1;
    }
    assert(ts.take(terms.len() as int) =~= ts);
    n
}

/// Determines the activation tier for a skill based on context.
pub fn determine_tier(skill: &SkillDefinition, context: &str) -> (r: ActivationTier)
    ensures
        r == tier_for(skill@, context@),
{
    let ctx = lower_chars(&chars_of(context));
    let ghost ps = texts(skill.patterns@);
    let mut i: usize = 0;
    while i < skill.patterns.len()
        invariant
            i <= skill.patterns.len(),
            ps == texts(skill.patterns@),
            ctx@ == lower_seq(context@),
            forall|j: int| 0 <= j < i ==> !mentions(ctx@, #[trigger] ps[j]),
        decreases skill.patterns.len() - i,
    {
        if mentions_term(&ctx, &skill.patterns[i]) {
            assert(skill@.patterns[i as int] == ps[i as int]);
            assert(mentions(lower_seq(context@), skill@.patterns[i as int]));
            assert(exists|k: int|
                0 <= k < skill@.patterns.len() && mentions(
                    lower_seq(context@),
                    #[trigger] skill@.patterns[k],
                ));
            return ActivationTier::Tier2;
        }
        i = i + 1;
    }
    let keyword_hits = count_mentions(&ctx, &skill.keywords);
    if keyword_hits >= 2 {
        ActivationTier::Tier2
    } else {
        ActivationTier::Tier1
    }
}

// ---------------------------------------------------------------------------
// Catalog
// ---------------------------------------------------------------------------

/// No two skills share a name.
pub open spec fn names_unique(s: Seq<SkillView>) -> bool {
    forall|i: int, j: int|
        0 <= i < s.len() && 0 <= j < s.len() && #[trigger] s[i].name == #[trigger] s[j].name ==> i
            == j
}

/// Whether a skill named `name` is in `s`.
pub open spec fn has_name(s: Seq<SkillView>, name: Seq<char>) -> bool {
    exists|i: int| 0 <= i < s.len() && #[trigger] s[i].name == name
}

/// The position of the skill named `name` (meaningful when there is one).
pub open spec fn position_of_name(s: Seq<SkillView>, name: Seq<char>) -> int {
    choose|i: int| 0 <= i < s.len() && #[trigger] s[i].name == name
}

/// The skills of `s` with `skill` registered: it replaces the skill of the
/// same name, or joins the end.
pub open spec fn registered(s: Seq<SkillView>, skill: SkillView) -> Seq<SkillView> {
    if has_name(s, skill.name) {
        s.update(position_of_name(s, skill.name), skill)
    } else {
        s.push(skill)
    }
}

/// Registering a skill makes a lookup of its name give it back, keeps
/// names unique, leaves every other name's skill as it was, and grows the
/// catalog only for a new name.
pub proof fn lemma_register_then_get(s: Seq<SkillView>, skill: SkillView, other: Seq<char>)
    requires
        names_unique(s),
    ensures
        names_unique(registered(s, skill)),
        has_name(registered(s, skill), skill.name),
        registered(s, skill)[position_of_name(registered(s, skill), skill.name)] == skill,
        other != skill.name ==> has_name(registered(s, skill), other) == has_name(s, other),
        other != skill.name && has_name(s, other) ==> registered(s, skill)[position_of_name(
            registered(s, skill),
            other,
        )] == s[position_of_name(s, other)],
        registered(s, skill).len() == if has_name(s, skill.name) {
            s.len()
        } else {
            s.len() + 1
        },
{
    let r = registered(s, skill);
    let q = if has_name(s, skill.name) {
        position_of_name(s, skill.name)
    } else {
        s.len() as int
    };
    assert(r[q] == skill);
    assert(forall|i: int| 0 <= i < r.len() && i != q ==> #[trigger] r[i] == s[i]);
    assert(names_unique(r)) by {
        assert forall|i: int, j: int|
            0 <= i < r.len() && 0 <= j < r.len() && #[trigger] r[i].name == #[trigger] r[j].name
            implies i == j by {
            if i != q && j != q {
                assert(s[i].name == s[j].name);
            } else if i == q && j != q {
                assert(s[j].name == skill.name);
                assert(has_name(s, skill.name));
                assert(s[position_of_name(s, skill.name)].name == s[j].name);
            } else if j == q && i != q {
                assert(s[i].name == skill.name);
                assert(has_name(s, skill.name));
                assert(s[position_of_name(s, skill.name)].name == s[i].name);
            }
        }
    }
    assert(has_name(r, skill.name)) by {
        assert(r[q].name == skill.name);
    }
    let p = position_of_name(r, skill.name);
    assert(r[p].name == r[q].name);
    if other != skill.name {
        if has_name(s, other) {
            let ps = position_of_name(s, other);
            assert(r[ps] == s[ps]);
            assert(r[ps].name == other);
            assert(has_name(r, other));
            let pr = position_of_name(r, other);
            assert(r[pr].name == r[ps].name);
        }
        if has_name(r, other) {
            let pr = position_of_name(r, other);
            assert(pr != q);
            assert(s[pr].name == other);
        }
    }
}

/// The score of a skill for a lowercased query: 10 per keyword and 3 per
/// tag that the query mentions.
pub open spec fn skill_score(query: Seq<char>, skill: SkillView) -> nat {
    10 * hits(query, skill.keywords) + 3 * hits(query, skill.tags)
}

/// `pos` lists exactly the positions whose score is positive, by
/// decreasing score and, among equal scores, in catalog order.
pub open spec fn ranked(scores: Seq<nat>, pos: Seq<usize>) -> bool {
    &&& forall|k: int|
        0 <= k < pos.len() ==> #[trigger] pos[k] < scores.len() && scores[pos[k] as int] > 0
    &&& forall|j: int|
        0 <= j < scores.len() && #[trigger] scores[j] > 0 ==> exists|k: int|
            0 <= k < pos.len() && pos[k] == j
    &&& forall|a: int, b: int|
        0 <= a < b < pos.len() ==> scores[#[trigger] pos[a] as int] > scores[#[trigger] pos[b] as int]
            || (scores[pos[a] as int] == scores[pos[b] as int] && pos[a] < pos[b])
}

/// Catalog of available skills, one per name.
pub struct SkillCatalog {
    skills: Vec<SkillDefinition>,
}

impl View for SkillCatalog {
    type V = Seq<SkillView>;

    closed spec fn view(&self) -> Seq<SkillView> {
        self.skills@.map_values(|s: SkillDefinition| s@)
    }
}

impl Default for SkillCatalog {
    fn default() -> (c: Self)
        ensures
            c@ == Seq::<SkillView>::empty(),
    {
        SkillCatalog::new()
    }
}

impl SkillCatalog {
    /// No two skills share a name.
    #[verifier::type_invariant]
    closed spec fn unique_names(&self) -> bool {
        names_unique(self@)
    }

    /// An empty catalog.
    pub fn new() -> (c: Self)
        ensures
            c@ == Seq::<SkillView>::empty(),
    {
        let c = SkillCatalog { skills: Vec::new() };
        assert(c@ =~= Seq::<SkillView>::empty());
        c
    }

    /// The position of the skill whose name is `name`, if there is one.
    fn find(&self, name: &Vec<char>) -> (r: Option<usize>)
        requires
            names_unique(self@),
        ensures
            match r {
                Some(i) => i < self@.len() && self@[i as int].name == name@ && i
                    == position_of_name(self@, name@),
                None => !has_name(self@, name@),
            },
    {
        let mut i: usize = 0;
        while i < self.skills.len()
            invariant
                i <= self.skills.len(),
                self@.len() == self.skills@.len(),
                names_unique(self@),
                forall|j: int| 0 <= j < i ==> #[trigger] self@[j].name != name@,
            decreases self.skills.len() - i,
        {
            let n = chars_of(self.skills[i].name.as_str());
            assert(self@[i as int] == self.skills@[i as int]@);
            if chars_eq(&n, name) {
                proof {
                    assert(self@[i as int].name == name@);
                    assert(has_name(self@, name@));
                    let p = position_of_name(self@, name@);
                    assert(self@[p].name == self@[i as int].name);
                }
                return Some(i);
            }
            i = i + 1;
        }
        None
    }

    /// Register a skill: it replaces the skill of the same name, if any,
    /// else it is added after the others.
    pub fn register(&mut self, skill: SkillDefinition)
        ensures
            names_unique(final(self)@),
            final(self)@ == registered(old(self)@, skill@),
    {
        proof {
            use_type_invariant(&*self);
        }
        let name = chars_of(skill.name.as_str());
        let found = self.find(&name);
        let ghost s0 = self@;
        let ghost v = skill@;
        let mut skills: Vec<SkillDefinition> = Vec::new();
        std::mem::swap(&mut skills, &mut self.skills);
        assert(skills@.map_values(|s: SkillDefinition| s@) == s0);
        match found {
            Some(i) => {
                skills.set(i, skill);
                assert(skills@.map_values(|s: SkillDefinition| s@) =~= s0.update(i as int, v));
            },
            None => {
                skills.push(skill);
                assert(skills@.map_values(|s: SkillDefinition| s@) =~= s0.push(v));
            },
        }
        proof {
            lemma_register_then_get(s0, v, v.name);
        }
        self.skills = skills;
    }

    /// Look up a skill by name.
    pub fn get(&self, name: &str) -> (r: Option<&SkillDefinition>)
        ensures
            match r {
                Some(d) => has_name(self@, name@) && d@ == self@[position_of_name(self@, name@)],
                None => !has_name(self@, name@),
            },
    {
        proof {
            use_type_invariant(self);
        }
        let n = chars_of(name);
        match self.find(&n) {
            Some(i) => Some(&self.skills[i]),
            None => None,
        }
    }

    /// List all skills, in catalog order.
    pub fn list(&self) -> (r: Vec<&SkillDefinition>)
        ensures
            r@.len() == self@.len(),
            forall|i: int| 0 <= i < r@.len() ==> #[trigger] r@[i]@ == self@[i],
    {
        let mut out: Vec<&SkillDefinition> = Vec::new();
        let mut i: usize = 0;
        while i < self.skills.len()
            invariant
                i <= self.skills.len(),
                self@.len() == self.skills@.len(),
                out@.len() == i,
                forall|j: int| 0 <= j < i ==> #[trigger] out@[j]@ == self@[j],
            decreases self.skills.len() - i,
        {
            out.push(&self.skills[i]);
            i = i + 1;
        }
        out
    }

    /// The scores of the catalog's skills for `query`.
    pub closed spec fn scores(&self, query: Seq<char>) -> Seq<nat> {
        Seq::new(self@.len(), |i: int| skill_score(lower_seq(query), self@[i]))
    }

    /// Find skills relevant to a query by keyword scoring: each skill with a
    /// positive score, with its score, by decreasing score (ties in catalog
    /// order).
    pub fn search(&self, query: &str) -> (r: Vec<(&SkillDefinition, u128)>)
        ensures
            exists|pos: Seq<usize>|
                {
                    &&& ranked(self.scores(query@), pos)
                    &&& r@.len() == pos.len()
                    &&& forall|k: int|
                        0 <= k < pos.len() ==> {
                            &&& (#[trigger] r@[k]).0@ == self@[pos[k] as int]
                            &&& r@[k].1 == self.scores(query@)[pos[k] as int]
                        }
                },
    {
        let q = lower_chars(&chars_of(query));
        let ghost sc = self.scores(query@);
        let mut scores: Vec<u128> = Vec::new();
        let mut i: usize = 0;
        while i < self.skills.len()
            invariant
                i <= self.skills.len(),
                self@.len() == self.skills@.len(),
                q@ == lower_seq(query@),
                sc == self.scores(query@),
                scores@.len() == i,
                forall|j: int| 0 <= j < i ==> #[trigger] scores@[j] == sc[j],
            decreases self.skills.len() - i,
        {
            let skill = &self.skills[i];
            assert(self@[i as int] == skill@);
            let k = count_mentions(&q, &skill.keywords);
            let t = count_mentions(&q, &skill.tags);
            let s: u128 = 10 * (k as u128) + 3 * (t as u128);
            scores.push(s);
            i = i + 1;
        }
        let ghost sv: Seq<nat> = scores@.map_values(|x: u128| x as nat);
        assert(sv =~= sc);
        let pos = rank(&scores);
        let mut out: Vec<(&SkillDefinition, u128)> = Vec::new();
        let mut k: usize = 0;
        while k < pos.len()
            invariant
                k <= pos.len(),
                ranked(sc, pos@),
                sc.len() == self.skills@.len(),
                self@.len() == self.skills@.len(),
                scores@.len() == sc.len(),
                forall|j: int| 0 <= j < scores@.len() ==> #[trigger] scores@[j] == sc[j],
                out@.len() == k,
                forall|m: int|
                    0 <= m < k ==> {
                        &&& (#[trigger] out@[m]).0@ == self@[pos@[m] as int]
                        &&& out@[m].1 == sc[pos@[m] as int]
                    },
            decreases pos.len() - k,
        {
            let j = pos[k];
            assert(j < sc.len());
            out.push((&self.skills[j], scores[j]));
            k = k + 1;
        }
        out
    }
}

/// Inserting position `j` at `p` keeps `ranked`'s three properties when
/// every position before `p` scores at least `sc[j]` and `j` is new.
proof fn lemma_rank_insert(sc: Seq<nat>, old_out: Seq<usize>, new_out: Seq<usize>, p: int, j: int)
    requires
        0 <= j < sc.len(),
        j < usize::MAX,
        sc[j] > 0,
        0 <= p <= old_out.len(),
        new_out == old_out.insert(p, j as usize),
        forall|k: int| 0 <= k < old_out.len() ==> #[trigger] old_out[k] < j && sc[old_out[k] as int] > 0,
        forall|t: int|
            0 <= t < j && #[trigger] sc[t] > 0 ==> exists|k: int|
                0 <= k < old_out.len() && old_out[k] == t,
        forall|a: int, b: int|
            0 <= a < b < old_out.len() ==> sc[#[trigger] old_out[a] as int] > sc[#[trigger] old_out[b] as int]
                || (sc[old_out[a] as int] == sc[old_out[b] as int] && old_out[a] < old_out[b]),
        forall|k: int| 0 <= k < p ==> sc[#[trigger] old_out[k] as int] >= sc[j],
        p < old_out.len() ==> sc[old_out[p] as int] < sc[j],
    ensures
        forall|k: int| 0 <= k < new_out.len() ==> #[trigger] new_out[k] < j + 1 && sc[new_out[k] as int] > 0,
        forall|t: int|
            0 <= t < j + 1 && #[trigger] sc[t] > 0 ==> exists|k: int|
                0 <= k < new_out.len() && new_out[k] == t,
        forall|a: int, b: int|
            0 <= a < b < new_out.len() ==> sc[#[trigger] new_out[a] as int] > sc[#[trigger] new_out[b] as int]
                || (sc[new_out[a] as int] == sc[new_out[b] as int] && new_out[a] < new_out[b]),
{
    assert forall|k: int| p <= k < old_out.len() implies sc[#[trigger] old_out[k] as int] < sc[j] by {
        if k > p {
            assert(sc[old_out[p] as int] >= sc[old_out[k] as int]);
        }
    }
    assert forall|k: int| 0 <= k < new_out.len() implies #[trigger] new_out[k] < j + 1 && sc[
        new_out[k] as int] > 0 by {
        if k < p {
            assert(new_out[k] == old_out[k]);
        } else if k > p {
            assert(new_out[k] == old_out[k - 1]);
        }
    }
    assert forall|t: int| 0 <= t < j + 1 && #[trigger] sc[t] > 0 implies exists|k: int|
        0 <= k < new_out.len() && new_out[k] == t by {
        if t == j {
            assert(new_out[p] == t);
        } else {
            let k0 = choose|k: int| 0 <= k < old_out.len() && old_out[k] == t;
            if k0 < p {
                assert(new_out[k0] == t);
            } else {
                assert(new_out[k0 + 1] == t);
            }
        }
    }
    assert forall|a: int, b: int| 0 <= a < b < new_out.len() implies sc[#[trigger] new_out[a] as int]
        > sc[#[trigger] new_out[b] as int] || (sc[new_out[a] as int] == sc[new_out[b] as int]
        && new_out[a] < new_out[b]) by {
        if a < p && b < p {
            assert(new_out[a] == old_out[a] && new_out[b] == old_out[b]);
        } else if a < p && b == p {
            assert(new_out[a] == old_out[a]);
        } else if a < p {
            assert(new_out[a] == old_out[a] && new_out[b] == old_out[b - 1]);
        } else if a == p {
            assert(new_out[b] == old_out[b - 1]);
        } else {
            assert(new_out[a] == old_out[a - 1] && new_out[b] == old_out[b - 1]);
        }
    }
}

/// The positions of the positive scores, ranked as `ranked` says.
fn rank(scores: &Vec<u128>) -> (pos: Vec<usize>)
    ensures
        ranked(scores@.map_values(|x: u128| x as nat), pos@),
{
    let ghost sc: Seq<nat> = scores@.map_values(|x: u128| x as nat);
    let mut out: Vec<usize> = Vec::new();
    let mut j: usize = 0;
    while j < scores.len()
        invariant
            j <= scores.len(),
            sc == scores@.map_values(|x: u128| x as nat),
            sc.len() == scores@.len(),
            forall|k: int| 0 <= k < out@.len() ==> #[trigger] out@[k] < j && sc[out@[k] as int] > 0,
            forall|t: int|
                0 <= t < j && #[trigger] sc[t] > 0 ==> exists|k: int|
                    0 <= k < out@.len() && out@[k] == t,
            forall|a: int, b: int|
                0 <= a < b < out@.len() ==> sc[#[trigger] out@[a] as int] > sc[#[trigger] out@[b] as int]
                    || (sc[out@[a] as int] == sc[out@[b] as int] && out@[a] < out@[b]),
        decreases scores.len() - j,
    {
        if scores[j] > 0 {
            let s = scores[j];
            let mut p: usize = 0;
            while p < out.len() && scores[out[p]] >= s
                invariant
                    p <= out@.len(),
                    j < scores@.len(),
                    s == scores@[j as int],
                    sc == scores@.map_values(|x: u128| x as nat),
                    forall|k: int| 0 <= k < out@.len() ==> #[trigger] out@[k] < j,
                    forall|k: int| 0 <= k < p ==> sc[#[trigger] out@[k] as int] >= s,
                decreases out@.len() - p,
            {
                p = p + 1;
            }
            let ghost old_out = out@;
            out.insert(p, j);
            proof {
                lemma_rank_insert(sc, old_out, out@, p as int, j as int);
            }
        }
        j = j + 1;
    }
    out
}

} // verus!
