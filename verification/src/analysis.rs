//! Gap analysis: the gap report with its Cynefin/Wardley classification,
//! the tokenizer and document frequencies behind module discovery, and the
//! per-classification counts reported when a batch of gap reports is ready.
//!
//! Confidences are held in thousandths (850 stands for 0.85).

use vstd::prelude::*;

use crate::ids::{new_id, now_millis};
use crate::registry::{MetadataView, ModuleMetadata};
use crate::text::{chars_eq, chars_of, is_ws, is_whitespace, lower, push_all, starts_with, string_of, to_lower};
use crate::types::{
    CynefinDomain, GapClassification, LifecycleAction, Priority, WardleyStage,
    wardley_max_retries_spec,
};

verus! {

/// A gap report produced by the analysis engine (ids are UUID values).
#[derive(Debug, Clone)]
pub struct GapReport {
    pub id: u128,
    pub cycle_id: u128,
    pub classification: GapClassification,
    /// Confidence in thousandths, 0 to 1000; only gaps at or above the
    /// confidence threshold proceed.
    pub confidence_thousandths: u32,
    /// Cynefin domain determines forge strategy in the action phase.
    pub cynefin_domain: CynefinDomain,
    /// Wardley evolution stage determines fault tolerance.
    pub wardley_stage: WardleyStage,
    pub priority: Priority,
    pub suggested_action: LifecycleAction,
    pub justification: String,
    pub affected_modules: Vec<u128>,
    /// Source URLs / data item references.
    pub evidence: Vec<String>,
    /// Creation time, milliseconds since the Unix epoch.
    pub created_at_ms: i64,
}

/// Evidence that points at the web: it starts with `http://` or `https://`.
pub open spec fn is_web_reference(e: Seq<char>) -> bool {
    "http://"@.is_prefix_of(e) || "https://"@.is_prefix_of(e)
}

impl GapReport {
    /// Create a new gap report with a fresh id and the current time.
    pub fn new(
        cycle_id: u128,
        classification: GapClassification,
        confidence_thousandths: u32,
        cynefin_domain: CynefinDomain,
        wardley_stage: WardleyStage,
        priority: Priority,
        suggested_action: LifecycleAction,
        justification: String,
    ) -> (r: Self)
        ensures
            r.cycle_id == cycle_id,
            r.classification == classification,
            r.confidence_thousandths == confidence_thousandths,
            r.cynefin_domain == cynefin_domain,
            r.wardley_stage == wardley_stage,
            r.priority == priority,
            r.suggested_action == suggested_action,
            r.justification == justification,
            r.affected_modules@.len() == 0,
            r.evidence@.len() == 0,
    {
        GapReport {
            id: new_id(),
            cycle_id,
            classification,
            confidence_thousandths,
            cynefin_domain,
            wardley_stage,
            priority,
            suggested_action,
            justification,
            affected_modules: Vec::new(),
            evidence: Vec::new(),
            created_at_ms: now_millis(),
        }
    }

    /// Whether this gap requires web access for the resulting module: some
    /// piece of evidence is a URL.
    pub fn requires_web_access(&self) -> (r: bool)
        ensures
            r == exists|i: int| 0 <= i < self.evidence.len() && is_web_reference(#[trigger] self.evidence[i]@),
    {
        let http = chars_of("http://");
        let https = chars_of("https://");
        let mut i: usize = 0;
        while i < self.evidence.len()
            invariant
                i <= self.evidence.len(),
                http@ == "http://"@,
                https@ == "https://"@,
                forall|j: int| 0 <= j < i ==> !is_web_reference(#[trigger] self.evidence[j]@),
            decreases self.evidence.len() - i,
        {
            let e = chars_of(self.evidence[i].as_str());
            if starts_with(&e, &http) || starts_with(&e, &https) {
                return true;
            }
            i = i + 1;
        }
        false
    }

    /// Maximum retry attempts based on Wardley stage.
    pub fn max_retries(&self) -> (r: u8)
        ensures
            r == wardley_max_retries_spec(self.wardley_stage),
    {
        self.wardley_stage.max_retries()
    }
}

/// How many reports of a batch fall in each classification:
/// (gaps, conflicts, confirmations).
pub open spec fn count_class(reports: Seq<GapReport>, c: GapClassification) -> nat
    decreases reports.len(),
{
    if reports.len() == 0 {
        0
    } else {
        count_class(reports.drop_last(), c) + if reports.last().classification == c { 1nat } else { 0nat }
    }
}

/// Counts the gaps, conflicts and confirmations among `reports`.
pub fn classification_counts(reports: &Vec<GapReport>) -> (r: (usize, usize, usize))
    ensures
        r.0 == count_class(reports@, GapClassification::Gap),
        r.1 == count_class(reports@, GapClassification::Conflict),
        r.2 == count_class(reports@, GapClassification::Confirmation),
{
    let mut gaps: usize = 0;
    let mut conflicts: usize = 0;
    let mut confirmations: usize = 0;
    let mut i: usize = 0;
    while i < reports.len()
        invariant
            i <= reports.len(),
            gaps == count_class(reports@.take(i as int), GapClassification::Gap),
            conflicts == count_class(reports@.take(i as int), GapClassification::Conflict),
            confirmations == count_class(reports@.take(i as int), GapClassification::Confirmation),
            gaps + conflicts + confirmations <= i,
        decreases reports.len() - i,
    {
        assert(reports@.take(i + 1).drop_last() =~= reports@.take(i as int));
        match reports[i].classification {
            GapClassification::Gap => gaps = gaps + 1,
            GapClassification::Conflict => conflicts = conflicts + 1,
            GapClassification::Confirmation => confirmations = confirmations + 1,
        }
        i = i + 1;
    }
    assert(reports@.take(reports.len() as int) =~= reports@);
    (gaps, conflicts, confirmations)
}

/// Every report falls in exactly one classification.
pub proof fn lemma_counts_partition(reports: Seq<GapReport>)
    ensures
        count_class(reports, GapClassification::Gap) + count_class(reports, GapClassification::Conflict)
            + count_class(reports, GapClassification::Confirmation) == reports.len(),
    decreases reports.len(),
{
    if reports.len() > 0 {
        lemma_counts_partition(reports.drop_last());
    }
}

/// Token separators: whitespace, underscores, hyphens and dots.
pub open spec fn is_token_sep(c: char) -> bool {
    is_ws(c) || c == '_' || c == '-' || c == '.'
}

/// The maximal runs of non-separator characters of `s`, in order.
pub open spec fn runs(s: Seq<char>) -> Seq<Seq<char>>
    decreases s.len(),
{
    if s.len() == 0 {
        Seq::empty()
    } else {
        let prev = runs(s.drop_last());
        let c = s.last();
        if is_token_sep(c) {
            prev
        } else if s.len() >= 2 && !is_token_sep(s[s.len() - 2]) {
            prev.update(prev.len() - 1, prev.last().push(c))
        } else {
            prev.push(seq![c])
        }
    }
}

/// A piece is kept as a token when its UTF-8 encoding is longer than one
/// byte: two or more characters, or a single non-ASCII character.
pub open spec fn token_kept(p: Seq<char>) -> bool {
    p.len() >= 2 || (p.len() == 1 && (p[0] as u32) >= 0x80)
}

/// The tokens of `text`: its ASCII-lowercased runs between separators,
/// single ASCII characters dropped.
pub open spec fn tokens_spec(text: Seq<char>) -> Seq<Seq<char>> {
    runs(crate::text::lower_seq(text)).filter(|p: Seq<char>| token_kept(p))
}

fn is_sep(c: char) -> (r: bool)
    ensures
        r == is_token_sep(c),
{
    is_whitespace(c) || c == '_' || c == '-' || c == '.'
}

fn keep_token(p: &Vec<char>) -> (r: bool)
    ensures
        r == token_kept(p@),
{
    p.len() >= 2 || (p.len() == 1 && (p[0] as u32) >= 0x80)
}

/// Splits `s` into its runs between separators.
fn split_runs(s: &Vec<char>) -> (r: Vec<Vec<char>>)
    ensures
        r.len() == runs(s@).len(),
        forall|k: int| 0 <= k < r.len() ==> r[k]@ == runs(s@)[k],
{
    let mut done: Vec<Vec<char>> = Vec::new();
    let mut cur: Vec<char> = Vec::new();
    let mut in_run = false;
    let ghost mut dv: Seq<Seq<char>> = Seq::empty();
    let mut i: usize = 0;
    while i < s.len()
        invariant
            i <= s.len(),
            dv.len() == done.len(),
            forall|k: int| 0 <= k < done.len() ==> done[k]@ == dv[k],
            in_run <==> (i > 0 && !is_token_sep(s@[i - 1])),
            in_run ==> runs(s@.take(i as int)) == dv.push(cur@),
            !in_run ==> runs(s@.take(i as int)) == dv,
        decreases s.len() - i,
    {
        let c = s[i];
        assert(s@.take(i + 1).drop_last() =~= s@.take(i as int));
        assert(s@.take(i + 1).last() == c);
        if is_sep(c) {
            if in_run {
                done.push(cur);
                proof {
                    dv = dv.push(cur@);
                }
                cur = Vec::new();
                in_run = false;
            }
        } else if in_run {
            let ghost old_cur = cur@;
            cur.push(c);
            assert(s@.take(i + 1)[i - 1] == s@[i - 1]);
            assert(dv.push(old_cur).update(dv.len() as int, old_cur.push(c)) =~= dv.push(cur@));
        } else {
            cur = Vec::new();
            cur.push(c);
            in_run = true;
            assert(cur@ =~= seq![c]);
            if i > 0 {
                assert(s@.take(i + 1)[i - 1] == s@[i - 1]);
            }
        }
        i = i + 1;
    }
    assert(s@.take(s.len() as int) =~= s@);
    if in_run {
        done.push(cur);
        proof {
            dv = dv.push(cur@);
        }
    }
    done
}

/// Tokenize text by whitespace, underscores, hyphens and dots; lowercase.
pub fn tokenize_text(text: &str) -> (r: Vec<String>)
    ensures
        r.len() == tokens_spec(text@).len(),
        forall|k: int| 0 <= k < r.len() ==> r[k]@ == tokens_spec(text@)[k],
{
    let cs = chars_of(text);
    let low = crate::text::lower_chars(&cs);
    let pieces = split_runs(&low);
    let ghost all = runs(low@);
    let ghost pred = |p: Seq<char>| token_kept(p);
    let mut out: Vec<String> = Vec::new();
    let mut i: usize = 0;
    while i < pieces.len()
        invariant
            i <= pieces.len(),
            pieces.len() == all.len(),
            forall|k: int| 0 <= k < pieces.len() ==> pieces[k]@ == all[k],
            pred == (|p: Seq<char>| token_kept(p)),
            all == runs(low@),
            out.len() == all.take(i as int).filter(pred).len(),
            forall|k: int| 0 <= k < out.len() ==> out[k]@ == all.take(i as int).filter(pred)[k],
        decreases pieces.len() - i,
    {
        let ghost before = all.take(i as int).filter(pred);
        assert(all.take(i + 1).drop_last() =~= all.take(i as int));
        assert(all.take(i + 1).last() == all[i as int]);
        let ghost t1 = all.take(i + 1);
        assert(t1.filter(pred) == (if pred(t1.last()) {
            t1.drop_last().filter(pred).push(t1.last())
        } else {
            t1.drop_last().filter(pred)
        })) by {
            reveal(Seq::filter);
        }
        assert(pred(all[i as int]) == token_kept(pieces[i as int]@));
        if keep_token(&pieces[i]) {
            out.push(string_of(pieces[i].as_slice()));
            assert(all.take(i + 1).filter(pred) == before.push(all[i as int]));
        } else {
            assert(all.take(i + 1).filter(pred) == before);
        }
        i = i + 1;
    }
    assert(all.take(pieces.len() as int) =~= all);
    out
}

/// The tags of a module, each preceded by a space.
pub open spec fn tags_text(tags: Seq<Seq<char>>) -> Seq<char>
    decreases tags.len(),
{
    if tags.len() == 0 {
        Seq::empty()
    } else {
        tags_text(tags.drop_last()) + " "@ + tags.last()
    }
}

/// The text a module is indexed by: its name, description and category,
/// then its tags, separated by spaces.
pub open spec fn module_search_text(m: MetadataView) -> Seq<char> {
    m.name + " "@ + m.description + " "@ + m.category + tags_text(m.tags)
}

/// Tokenize a module's metadata into searchable terms.
pub fn tokenize_module(module: &ModuleMetadata) -> (r: Vec<String>)
    ensures
        r.len() == tokens_spec(module_search_text(module@)).len(),
        forall|k: int| 0 <= k < r.len() ==> r[k]@ == tokens_spec(module_search_text(module@))[k],
{
    proof {
        reveal_strlit(" ");
    }
    let mut text = chars_of(module.name.as_str());
    text.push(' ');
    push_all(&mut text, &chars_of(module.description.as_str()));
    text.push(' ');
    push_all(&mut text, &chars_of(module.category.as_str()));
    let ghost head = text@;
    assert(head =~= module@.name + " "@ + module@.description + " "@ + module@.category);
    let ghost tv = module@.tags;
    let mut i: usize = 0;
    while i < module.tags.len()
        invariant
            i <= module.tags@.len(),
            tv == module@.tags,
            tv == module.tags@.map_values(|t: String| t@),
            " "@ == seq![' '],
            text@ == head + tags_text(tv.take(i as int)),
        decreases module.tags@.len() - i,
    {
        let ghost before = text@;
        assert(tv.take(i + 1).drop_last() =~= tv.take(i as int));
        assert(tv.take(i + 1).last() == module.tags@[i as int]@);
        assert(tags_text(tv.take(i + 1)) == tags_text(tv.take(i as int)) + " "@ + module.tags@[i as int]@);
        text.push(' ');
        push_all(&mut text, &chars_of(module.tags[i].as_str()));
        assert(text@ =~= before + " "@ + module.tags@[i as int]@);
        i = i + 1;
        assert(text@ =~= head + tags_text(tv.take(i as int)));
    }
    assert(tv.take(module.tags@.len() as int) =~= tv);
    let s = string_of(text.as_slice());
    tokenize_text(s.as_str())
}

/// The reports that pass the analysis phase: those at or above the
/// confidence threshold (thousandths), in order, at most `max_reports`.
pub open spec fn passing(reports: Seq<GapReport>, threshold: u32, max_reports: nat) -> Seq<GapReport> {
    let f = reports.filter(|r: GapReport| r.confidence_thousandths >= threshold);
    if f.len() > max_reports {
        f.take(max_reports as int)
    } else {
        f
    }
}

/// Keep the reports at or above the confidence threshold, at most
/// `max_reports` of them, in order.
pub fn filter_by_confidence(reports: Vec<GapReport>, threshold: u32, max_reports: usize) -> (r: Vec<GapReport>)
    ensures
        r@ == passing(reports@, threshold, max_reports as nat),
{
    let ghost r0 = reports@;
    let ghost pred = |r: GapReport| r.confidence_thousandths >= threshold;
    let mut rest = reports;
    let n: usize = rest.len();
    let mut out: Vec<GapReport> = Vec::new();
    let mut i: usize = 0;
    while rest.len() > 0 && out.len() < max_reports
        invariant
            n == r0.len(),
            i <= r0.len(),
            rest@ == r0.skip(i as int),
            pred == (|r: GapReport| r.confidence_thousandths >= threshold),
            out@ == r0.take(i as int).filter(pred),
            out@.len() <= max_reports,
        decreases rest@.len(),
    {
        let g = rest.remove(0);
        proof {
            assert(r0[i as int] == g);
            let t1 = r0.take(i + 1);
            assert(t1.drop_last() =~= r0.take(i as int));
            assert(t1.last() == g);
            assert(t1.filter(pred) == (if pred(t1.last()) {
                t1.drop_last().filter(pred).push(t1.last())
            } else {
                t1.drop_last().filter(pred)
            })) by {
                reveal(Seq::filter);
            }
            assert(rest@ =~= r0.skip(i + 1));
        }
        if g.confidence_thousandths >= threshold {
            out.push(g);
        }
        i = i + 1;
    }
    proof {
        let f = r0.filter(pred);
        assert(r0 =~= r0.take(i as int) + r0.skip(i as int));
        r0.take(i as int).lemma_filter_len(pred);
        Seq::filter_distributes_over_add(r0.take(i as int), r0.skip(i as int), pred);
        assert(f == out@ + r0.skip(i as int).filter(pred));
        if rest@.len() == 0 {
            assert(r0.skip(i as int).filter(pred) =~= Seq::<GapReport>::empty()) by {
                reveal(Seq::filter);
            }
            assert(f =~= out@);
        } else {
            assert(out@.len() == max_reports);
            assert(f.take(max_reports as int) =~= out@);
        }
    }
    out
}

/// What the analysis phase passes on: the kept reports and how many of them
/// are gaps, conflicts and confirmations.
pub struct AnalysisOutcome {
    pub reports: Vec<GapReport>,
    pub gap_count: usize,
    pub conflict_count: usize,
    pub confirmation_count: usize,
}

/// The analysis phase on a cycle's gap reports: filter by confidence, then
/// count the kept reports by classification.
pub fn analyze_reports(reports: Vec<GapReport>, threshold: u32, max_reports: usize) -> (r: AnalysisOutcome)
    ensures
        r.reports@ == passing(reports@, threshold, max_reports as nat),
        r.gap_count == count_class(r.reports@, GapClassification::Gap),
        r.conflict_count == count_class(r.reports@, GapClassification::Conflict),
        r.confirmation_count == count_class(r.reports@, GapClassification::Confirmation),
{
    let kept = filter_by_confidence(reports, threshold, max_reports);
    let (g, c, f) = classification_counts(&kept);
    AnalysisOutcome { reports: kept, gap_count: g, conflict_count: c, confirmation_count: f }
}


// ---------------------------------------------------------------------------
// Document frequencies for module discovery
// ---------------------------------------------------------------------------

/// The token views of a collection of tokenized documents.
pub open spec fn doc_views(docs: Seq<Vec<String>>) -> Seq<Seq<Seq<char>>> {
    docs.map_values(|d: Vec<String>| d@.map_values(|s: String| s@))
}

/// In how many documents `term` occurs (a document counts once however
/// often it holds the term).
pub open spec fn doc_freq(docs: Seq<Seq<Seq<char>>>, term: Seq<char>) -> nat
    decreases docs.len(),
{
    if docs.len() == 0 {
        0
    } else {
        doc_freq(docs.drop_last(), term) + if docs.last().contains(term) {
            1nat
        } else {
            0nat
        }
    }
}

/// Whether `term` occurs in some document.
pub open spec fn occurs(docs: Seq<Seq<Seq<char>>>, term: Seq<char>) -> bool {
    exists|i: int| 0 <= i < docs.len() && #[trigger] docs[i].contains(term)
}

fn same_text(a: &String, b: &String) -> (r: bool)
    ensures
        r == (a@ == b@),
{
    chars_eq(&chars_of(a.as_str()), &chars_of(b.as_str()))
}

/// Whether a document holds `term`.
fn holds_term(doc: &Vec<String>, term: &String) -> (r: bool)
    ensures
        r == doc@.map_values(|s: String| s@).contains(term@),
{
    let ghost dv = doc@.map_values(|s: String| s@);
    let mut k: usize = 0;
    while k < doc.len()
        invariant
            k <= doc.len(),
            dv == doc@.map_values(|s: String| s@),
            forall|j: int| 0 <= j < k ==> dv[j] != term@,
        decreases doc.len() - k,
    {
        if same_text(&doc[k], term) {
            assert(dv[k as int] == term@);
            return true;
        }
        k = k + 1;
    }
    false
}

/// The position of `term` among `terms`, if it is there.
fn term_position(terms: &Vec<String>, term: &String) -> (r: Option<usize>)
    ensures
        r matches Some(i) ==> i < terms.len() && terms@[i as int]@ == term@,
        r is None ==> forall|i: int| 0 <= i < terms.len() ==> #[trigger] terms@[i]@ != term@,
{
    let mut k: usize = 0;
    while k < terms.len()
        invariant
            k <= terms.len(),
            forall|i: int| 0 <= i < k ==> #[trigger] terms@[i]@ != term@,
        decreases terms.len() - k,
    {
        if same_text(&terms[k], term) {
            return Some(k);
        }
        k = k + 1;
    }
    None
}

/// How many documents hold each term of `docs`: every term that occurs in
/// some document, once, with the number of documents holding it.
pub fn document_frequencies(docs: &Vec<Vec<String>>) -> (r: Vec<(String, usize)>)
    ensures
        forall|i: int, j: int| 0 <= i < j < r@.len() ==> (#[trigger] r@[i]).0@ != (#[trigger] r@[j]).0@,
        forall|i: int| 0 <= i < r@.len() ==> (#[trigger] r@[i]).1 == doc_freq(doc_views(docs@), r@[i].0@),
        forall|t: Seq<char>|
            #[trigger] occurs(doc_views(docs@), t) <==> exists|i: int| 0 <= i < r@.len() && (#[trigger] r@[i]).0@ == t,
{
    let ghost dv = doc_views(docs@);
    // The distinct terms, in order of first appearance.
    let mut terms: Vec<String> = Vec::new();
    let mut d: usize = 0;
    while d < docs.len()
        invariant
            d <= docs.len(),
            dv == doc_views(docs@),
            forall|i: int, j: int| 0 <= i < j < terms@.len() ==> (#[trigger] terms@[i])@ != (#[trigger] terms@[j])@,
            forall|i: int| 0 <= i < terms@.len() ==> occurs(dv, (#[trigger] terms@[i])@),
            forall|e: int, t: Seq<char>|
                0 <= e < d && #[trigger] dv[e].contains(t) ==> exists|i: int|
                    0 <= i < terms@.len() && (#[trigger] terms@[i])@ == t,
        decreases docs.len() - d,
    {
        let doc = &docs[d];
        assert(dv[d as int] == doc@.map_values(|s: String| s@));
        let mut k: usize = 0;
        while k < doc.len()
            invariant
                d < docs.len(),
                k <= doc.len(),
                dv == doc_views(docs@),
                dv[d as int] == doc@.map_values(|s: String| s@),
                forall|i: int, j: int| 0 <= i < j < terms@.len() ==> (#[trigger] terms@[i])@ != (#[trigger] terms@[j])@,
                forall|i: int| 0 <= i < terms@.len() ==> occurs(dv, (#[trigger] terms@[i])@),
                forall|e: int, t: Seq<char>|
                    0 <= e < d && #[trigger] dv[e].contains(t) ==> exists|i: int|
                        0 <= i < terms@.len() && (#[trigger] terms@[i])@ == t,
                forall|j: int|
                    #![trigger dv[d as int][j]]
                    0 <= j < k ==> exists|i: int| 0 <= i < terms@.len() && (#[trigger] terms@[i])@ == dv[d as int][j],
            decreases doc.len() - k,
        {
            let tok = &doc[k];
            assert(dv[d as int][k as int] == tok@);
            match term_position(&terms, tok) {
                Some(p) => {
                    assert(terms@[p as int]@ == dv[d as int][k as int]);
                },
                None => {
                    proof {
                        assert(dv[d as int].contains(tok@));
                        assert(occurs(dv, tok@));
                    }
                    let ghost before = terms@;
                    terms.push(tok.clone());
                    proof {
                        assert(terms@[before.len() as int]@ == tok@);
                        assert forall|e: int, t: Seq<char>|
                            0 <= e < d && #[trigger] dv[e].contains(t) implies exists|i: int|
                                0 <= i < terms@.len() && (#[trigger] terms@[i])@ == t by {
                            let i = choose|i: int| 0 <= i < before.len() && (#[trigger] before[i])@ == t;
                            assert(terms@[i] == before[i]);
                        }
                        assert forall|j: int| #![trigger dv[d as int][j]] 0 <= j < k + 1 implies exists|i: int|
                            0 <= i < terms@.len() && (#[trigger] terms@[i])@ == dv[d as int][j] by {
                            if j < k {
                                let i = choose|i: int| 0 <= i < before.len() && (#[trigger] before[i])@ == dv[d as int][j];
                                assert(terms@[i] == before[i]);
                            } else {
                                assert(terms@[before.len() as int]@ == dv[d as int][j]);
                            }
                        }
                    }
                },
            }
            k = k + 1;
        }
        proof {
            assert forall|e: int, t: Seq<char>|
                0 <= e < d + 1 && #[trigger] dv[e].contains(t) implies exists|i: int|
                    0 <= i < terms@.len() && (#[trigger] terms@[i])@ == t by {
                if e == d {
                    let j = choose|j: int| 0 <= j < dv[e].len() && dv[e][j] == t;
                    assert(dv[d as int][j] == t);
                }
            }
        }
        d = d + 1;
    }
    // Each term with the number of documents holding it.
    let mut out: Vec<(String, usize)> = Vec::new();
    let mut k: usize = 0;
    while k < terms.len()
        invariant
            k <= terms.len(),
            dv == doc_views(docs@),
            out@.len() == k,
            forall|i: int| 0 <= i < k ==> (#[trigger] out@[i]).0@ == terms@[i]@,
            forall|i: int| 0 <= i < k ==> (#[trigger] out@[i]).1 == doc_freq(dv, terms@[i]@),
        decreases terms.len() - k,
    {
        let term = &terms[k];
        let mut n: usize = 0;
        let mut e: usize = 0;
        while e < docs.len()
            invariant
                e <= docs.len(),
                dv == doc_views(docs@),
                n <= e,
                n == doc_freq(dv.take(e as int), term@),
            decreases docs.len() - e,
        {
            assert(dv.take(e + 1).drop_last() =~= dv.take(e as int));
            assert(dv.take(e + 1).last() == docs@[e as int]@.map_values(|s: String| s@));
            if holds_term(&docs[e], term) {
                n = n + 1;
            }
            e = e + 1;
        }
        assert(dv.take(docs.len() as int) =~= dv);
        out.push((term.clone(), n));
        k = k + 1;
    }
    proof {
        assert forall|t: Seq<char>| #[trigger] occurs(dv, t) <==> exists|i: int|
            0 <= i < out@.len() && (#[trigger] out@[i]).0@ == t by {
            if occurs(dv, t) {
                let e = choose|e: int| 0 <= e < dv.len() && #[trigger] dv[e].contains(t);
                let i = choose|i: int| 0 <= i < terms@.len() && (#[trigger] terms@[i])@ == t;
                assert(out@[i].0@ == t);
            }
            if exists|i: int| 0 <= i < out@.len() && (#[trigger] out@[i]).0@ == t {
                let i = choose|i: int| 0 <= i < out@.len() && (#[trigger] out@[i]).0@ == t;
                assert(occurs(dv, terms@[i]@));
            }
        }
    }
    out
}

} // verus!
