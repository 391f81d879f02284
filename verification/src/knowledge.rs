//! Knowledge ingestion and the workspace bridge: splitting text into
//! overlapping word chunks, and the path scheme under which the cognitive
//! layer's documents live in the shared workspace.

use vstd::prelude::*;

use crate::text::{
    chars_of, join, join_range, occurs_at, push_all, split_whitespace, string_of, words,
};

verus! {

/// Default chunk size for text splitting.
pub const DEFAULT_CHUNK_SIZE: usize = 512;

/// Default overlap between consecutive chunks.
pub const DEFAULT_CHUNK_OVERLAP: usize = 64;

/// A text chunk ready for embedding and storage; ids are the 128-bit values
/// of UUIDs.
#[derive(Debug, Clone)]
pub struct TextChunk {
    pub id: u128,
    pub content: String,
    pub source_id: u128,
    pub chunk_index: usize,
    pub source_type: String,
}

/// The chunks of the word list `w` from word `start` on: each takes up to
/// `size` words, and the next starts `step` words later; the last chunk is
/// the one that reaches the final word, or after which no start is left.
pub open spec fn chunks_from(w: Seq<Seq<char>>, size: nat, step: nat, start: nat) -> Seq<Seq<char>>
    decreases w.len() - start,
{
    if step == 0 || start >= w.len() {
        Seq::empty()
    } else {
        let end = if start + size < w.len() { start + size } else { w.len() as nat };
        let c = join(w.subrange(start as int, end as int), seq![' ']);
        if end >= w.len() || start + step >= w.len() {
            seq![c]
        } else {
            seq![c] + chunks_from(w, size, step, start + step)
        }
    }
}

/// The words `size` at a time from word `start` (fewer at the end), joined
/// by single spaces.
pub open spec fn window(w: Seq<Seq<char>>, size: nat, start: nat) -> Seq<char> {
    let end = if start + size < w.len() { start + size } else { w.len() as nat };
    join(w.subrange(start as int, end as int), seq![' '])
}

/// Chunk `k` is the window of words starting `k * step` words in; every
/// chunk but the last is full (`size` words); and the last one ends with the
/// final word, so every word is in some chunk. Consecutive chunks thus share
/// `size - step` words, the configured overlap.
pub proof fn lemma_chunk_windows(w: Seq<Seq<char>>, size: nat, step: nat, start: nat)
    requires
        1 <= step <= size,
        start < w.len(),
    ensures
        chunks_from(w, size, step, start).len() >= 1,
        forall|k: int|
            0 <= k < chunks_from(w, size, step, start).len() ==> {
                &&& #[trigger] chunks_from(w, size, step, start)[k] == window(w, size, (start + k * step) as nat)
                &&& k < chunks_from(w, size, step, start).len() - 1 ==> start + k * step + size < w.len()
            },
        start + (chunks_from(w, size, step, start).len() - 1) * step + size >= w.len(),
    decreases w.len() - start,
{
    let cs = chunks_from(w, size, step, start);
    let end = if start + size < w.len() { start + size } else { w.len() as nat };
    if end >= w.len() || start + step >= w.len() {
        assert(cs.len() == 1);
        assert(cs[0] == window(w, size, start));
    } else {
        let rest = chunks_from(w, size, step, start + step);
        lemma_chunk_windows(w, size, step, start + step);
        assert(cs == seq![window(w, size, start)] + rest);
        assert forall|k: int| 0 <= k < cs.len() implies #[trigger] cs[k] == window(w, size, (start + k * step) as nat)
            && (k < cs.len() - 1 ==> start + k * step + size < w.len()) by {
            if k > 0 {
                assert(cs[k] == rest[k - 1]);
                assert((start + step) + (k - 1) * step == start + k * step) by (nonlinear_arith);
            }
        }
        assert((start + step) + (rest.len() - 1) * step == start + (cs.len() - 1) * step) by (nonlinear_arith)
            requires
                cs.len() == rest.len() + 1;
    }
}

/// The distance between the starts of consecutive chunks:
/// `chunk_size - overlap`, and at least one word.
pub open spec fn chunk_step(chunk_size: nat, overlap: nat) -> nat {
    if chunk_size > overlap { (chunk_size - overlap) as nat } else { 1 }
}

/// The chunks of `text`: its words, taken `chunk_size` at a time with
/// `overlap` words shared between consecutive chunks, each joined by single
/// spaces. No chunks for an empty text or a zero chunk size.
pub open spec fn chunk_text_spec(text: Seq<char>, chunk_size: nat, overlap: nat) -> Seq<Seq<char>> {
    if chunk_size == 0 {
        Seq::empty()
    } else {
        chunks_from(words(text), chunk_size, chunk_step(chunk_size, overlap), 0)
    }
}

/// Split text into overlapping chunks.
pub fn chunk_text(text: &str, chunk_size: usize, overlap: usize) -> (r: Vec<String>)
    ensures
        r.len() == chunk_text_spec(text@, chunk_size as nat, overlap as nat).len(),
        forall|k: int|
            0 <= k < r.len() ==> r[k]@ == chunk_text_spec(text@, chunk_size as nat, overlap as nat)[k],
{
    let mut out: Vec<String> = Vec::new();
    if chunk_size == 0 {
        return out;
    }
    let chars = chars_of(text);
    let ws = split_whitespace(&chars);
    let ghost w = words(text@);
    assert(ws@.map_values(|p: Vec<char>| p@) =~= w);
    let n = ws.len();
    if n == 0 {
        return out;
    }
    let step: usize = if chunk_size > overlap { chunk_size - overlap } else { 1 };
    let ghost spec_all = chunks_from(w, chunk_size as nat, step as nat, 0);
    let mut sep: Vec<char> = Vec::new();
    sep.push(' ');
    let mut start: usize = 0;
    loop
        invariant
            n == ws.len(),
            n == w.len(),
            ws@.map_values(|p: Vec<char>| p@) == w,
            step >= 1,
            step == chunk_step(chunk_size as nat, overlap as nat),
            chunk_size > 0,
            start < n,
            sep@ == seq![' '],
            spec_all == chunks_from(w, chunk_size as nat, step as nat, 0),
            spec_all == chunk_text_spec(text@, chunk_size as nat, overlap as nat),
            out.len() + chunks_from(w, chunk_size as nat, step as nat, start as nat).len()
                == spec_all.len(),
            forall|k: int| 0 <= k < out.len() ==> out[k]@ == spec_all[k],
            forall|k: int|
                0 <= k < chunks_from(w, chunk_size as nat, step as nat, start as nat).len()
                    ==> chunks_from(w, chunk_size as nat, step as nat, start as nat)[k]
                    == spec_all[out.len() + k],
        decreases n - start,
    {
        let end: usize = if chunk_size >= n - start { n } else { start + chunk_size };
        let chunk = join_range(&ws, start, end, &sep);
        assert(ws@.subrange(start as int, end as int).map_values(|p: Vec<char>| p@)
            =~= w.subrange(start as int, end as int));
        let ghost rest = chunks_from(w, chunk_size as nat, step as nat, start as nat);
        assert(rest[0] == chunk@);
        let ghost k0 = out.len();
        out.push(string_of(chunk.as_slice()));
        assert(out[k0 as int]@ == spec_all[k0 as int]);
        if end >= n || step >= n - start {
            assert(rest =~= seq![chunk@]);
            return out;
        }
        let ghost next = chunks_from(w, chunk_size as nat, step as nat, (start + step) as nat);
        assert(rest =~= seq![chunk@] + next);
        start = start + step;
        assert forall|k: int| 0 <= k < next.len() implies next[k] == spec_all[out.len() + k] by {
            assert(next[k] == rest[k + 1]);
        }
    }
}

/// Prefix applied to all knowledge paths inside the workspace.
pub const PATH_PREFIX: &'static str = "project_e/knowledge";

pub open spec fn path_prefix_spec() -> Seq<char> {
    "project_e/knowledge"@
}

/// The workspace path of a knowledge document: the prefix, a slash, the
/// document's own path.
pub open spec fn knowledge_path_spec(path: Seq<char>) -> Seq<char> {
    path_prefix_spec() + seq!['/'] + path
}

/// The path of a search hit relative to the knowledge area: hits outside the
/// prefix are dropped; a hit under `prefix/` loses that part; a hit that
/// starts with the prefix but not with `prefix/` keeps its whole path.
pub open spec fn relative_knowledge_path_spec(document_path: Seq<char>) -> Option<Seq<char>> {
    if !path_prefix_spec().is_prefix_of(document_path) {
        None
    } else if (path_prefix_spec() + seq!['/']).is_prefix_of(document_path) {
        Some(document_path.skip(path_prefix_spec().len() as int + 1))
    } else {
        Some(document_path)
    }
}

fn prefix_chars() -> (r: Vec<char>)
    ensures
        r@ == path_prefix_spec(),
{
    chars_of(PATH_PREFIX)
}

/// The full workspace path for a knowledge document.
pub fn knowledge_path(path: &str) -> (r: String)
    ensures
        r@ == knowledge_path_spec(path@),
{
    let mut out = prefix_chars();
    out.push('/');
    let p = chars_of(path);
    push_all(&mut out, &p);
    string_of(out.as_slice())
}

/// The path of a workspace document relative to the knowledge area, or
/// `None` for documents that do not live there.
pub fn relative_knowledge_path(document_path: &str) -> (r: Option<String>)
    ensures
        r matches Some(s) ==> relative_knowledge_path_spec(document_path@) == Some(s@),
        r is None <==> relative_knowledge_path_spec(document_path@) is None,
{
    let d = chars_of(document_path);
    let mut pre = prefix_chars();
    if pre.len() > d.len() || !crate::text::matches_at(&d, &pre, 0) {
        return None;
    }
    pre.push('/');
    let ghost pl = pre.len();
    if pre.len() > d.len() || !crate::text::matches_at(&d, &pre, 0) {
        assert(!(path_prefix_spec() + seq!['/']).is_prefix_of(d@)) by {
            assert(pre@ =~= path_prefix_spec() + seq!['/']);
        }
        return Some(string_of(d.as_slice()));
    }
    assert(pre@ =~= path_prefix_spec() + seq!['/']);
    let mut rest: Vec<char> = Vec::new();
    let mut k: usize = pre.len();
    while k < d.len()
        invariant
            pre.len() <= k <= d.len(),
            rest@ == d@.subrange(pre.len() as int, k as int),
        decreases d.len() - k,
    {
        rest.push(d[k]);
        k = k + 1;
        assert(rest@ =~= d@.subrange(pre.len() as int, k as int));
    }
    assert(rest@ =~= d@.skip(path_prefix_spec().len() as int + 1));
    Some(string_of(rest.as_slice()))
}

/// Routes knowledge operations through a workspace; the workspace itself
/// (its storage and search) lies outside the library.
#[derive(Clone)]
pub struct WorkspaceKnowledgeStore<W> {
    pub workspace: W,
}

impl<W> WorkspaceKnowledgeStore<W> {
    /// Construct a store backed by the given workspace.
    pub fn new(workspace: W) -> (r: Self)
        ensures
            r.workspace == workspace,
    {
        WorkspaceKnowledgeStore { workspace }
    }

    /// The workspace path under which `path` is written or appended to.
    pub fn document_path(&self, path: &str) -> (r: String)
        ensures
            r@ == knowledge_path_spec(path@),
    {
        knowledge_path(path)
    }
}

/// A relative path survives the round trip through the workspace: the path
/// written for `p` is reported back as `p`.
pub proof fn lemma_knowledge_path_round_trip(p: Seq<char>)
    ensures
        relative_knowledge_path_spec(knowledge_path_spec(p)) == Some(p),
{
    let full = knowledge_path_spec(p);
    let pre = path_prefix_spec();
    assert(full.subrange(0, pre.len() as int) =~= pre);
    assert(full.subrange(0, pre.len() as int + 1) =~= pre + seq!['/']);
    assert(full.skip(pre.len() as int + 1) =~= p);
}

} // verus!
