//! Layered configuration: each layer (defaults, then the instance's file,
//! then the learned adaptive values) is overlaid on what the earlier layers
//! gave.
//!
//! A layer is held flat, as its settings: the key path of each value that is
//! not a table (`["forge", "max_retries"]`) with that value. Overlaying a
//! layer keeps every earlier setting the layer does not touch and adds the
//! layer's own: a setting is touched when the layer sets the same path, a
//! path above it (replacing a whole table by a value) or a path below it
//! (replacing a value by a table).

use vstd::prelude::*;

use crate::text::{chars_eq, chars_of};

verus! {

/// A key path: the table names leading to a value, then the value's key.
pub open spec fn path_view(p: Vec<String>) -> Seq<Seq<char>> {
    p@.map_values(|k: String| k@)
}

/// One path is a prefix of the other (they lie on one branch of the tree).
pub open spec fn related(p: Seq<Seq<char>>, q: Seq<Seq<char>>) -> bool {
    p.is_prefix_of(q) || q.is_prefix_of(p)
}

/// A setting at `p` is touched by a layer with these paths.
pub open spec fn touched(p: Seq<Seq<char>>, layer: Seq<Seq<Seq<char>>>) -> bool {
    exists|j: int| 0 <= j < layer.len() && related(p, #[trigger] layer[j])
}

pub open spec fn layer_paths<V>(s: Seq<(Vec<String>, V)>) -> Seq<Seq<Seq<char>>> {
    s.map_values(|e: (Vec<String>, V)| path_view(e.0))
}

/// The settings of `base` that the layer `over` leaves alone, in order.
pub open spec fn kept<V>(base: Seq<(Vec<String>, V)>, over: Seq<Seq<Seq<char>>>) -> Seq<(Vec<String>, V)> {
    base.filter(|e: (Vec<String>, V)| !touched(path_view(e.0), over))
}

/// The settings of a well-formed layer: no path lies below another.
pub open spec fn is_layer(paths: Seq<Seq<Seq<char>>>) -> bool {
    forall|i: int, j: int|
        0 <= i < paths.len() && 0 <= j < paths.len() && i != j ==> !related(
            #[trigger] paths[i],
            #[trigger] paths[j],
        )
}

fn same_key(a: &String, b: &String) -> (r: bool)
    ensures
        r == (a@ == b@),
{
    chars_eq(&chars_of(a.as_str()), &chars_of(b.as_str()))
}

/// Whether `p` is a prefix of `q`.
fn path_prefix(p: &Vec<String>, q: &Vec<String>) -> (r: bool)
    ensures
        r == path_view(*p).is_prefix_of(path_view(*q)),
{
    if p.len() > q.len() {
        return false;
    }
    let ghost pv = path_view(*p);
    let ghost qv = path_view(*q);
    let mut i: usize = 0;
    while i < p.len()
        invariant
            i <= p@.len() <= q@.len(),
            pv == path_view(*p),
            qv == path_view(*q),
            forall|k: int| 0 <= k < i ==> pv[k] == qv[k],
        decreases p@.len() - i,
    {
        if !same_key(&p[i], &q[i]) {
            assert(qv.subrange(0, pv.len() as int)[i as int] != pv[i as int]);
            return false;
        }
        i = i + 1;
    }
    assert(qv.subrange(0, pv.len() as int) =~= pv);
    true
}

/// Whether a setting at `p` is touched by the layer `over`.
fn is_touched<V>(p: &Vec<String>, over: &Vec<(Vec<String>, V)>) -> (r: bool)
    ensures
        r == touched(path_view(*p), layer_paths(over@)),
{
    let ghost lp = layer_paths(over@);
    let mut j: usize = 0;
    while j < over.len()
        invariant
            j <= over@.len(),
            lp == layer_paths(over@),
            forall|k: int| 0 <= k < j ==> !related(path_view(*p), #[trigger] lp[k]),
        decreases over@.len() - j,
    {
        let q = &over[j].0;
        assert(lp[j as int] == path_view(*q));
        if path_prefix(p, q) || path_prefix(q, p) {
            assert(related(path_view(*p), lp[j as int]));
            return true;
        }
        j = j + 1;
    }
    false
}

/// Overlay a layer on the settings so far: the settings it leaves alone,
/// in their order, then all of its own.
pub fn overlay_layer<V>(base: Vec<(Vec<String>, V)>, over: Vec<(Vec<String>, V)>) -> (r: Vec<(Vec<String>, V)>)
    ensures
        r@ == kept(base@, layer_paths(over@)) + over@,
{
    let ghost b0 = base@;
    let ghost lp = layer_paths(over@);
    let ghost pred = |e: (Vec<String>, V)| !touched(path_view(e.0), lp);
    let mut base = base;
    let n: usize = base.len();
    let mut out: Vec<(Vec<String>, V)> = Vec::new();
    let mut i: usize = 0;
    while base.len() > 0
        invariant
            n == b0.len(),
            i <= b0.len(),
            base@ == b0.skip(i as int),
            lp == layer_paths(over@),
            pred == (|e: (Vec<String>, V)| !touched(path_view(e.0), lp)),
            out@ == b0.take(i as int).filter(pred),
        decreases base@.len(),
    {
        let e = base.remove(0);
        proof {
            assert(b0[i as int] == e);
            let t1 = b0.take(i + 1);
            assert(t1.drop_last() =~= b0.take(i as int));
            assert(t1.last() == e);
            assert(t1.filter(pred) == (if pred(t1.last()) {
                t1.drop_last().filter(pred).push(t1.last())
            } else {
                t1.drop_last().filter(pred)
            })) by {
                reveal(Seq::filter);
            }
            assert(base@ =~= b0.skip(i + 1));
        }
        if !is_touched(&e.0, &over) {
            out.push(e);
        }
        i = i + 1;
    }
    assert(b0.take(i as int) =~= b0);
    let mut over = over;
    out.append(&mut over);
    out
}

/// Overlaying never loses a layer's own setting, keeps every earlier
/// setting it does not touch, and drops the ones it touches.
pub proof fn lemma_overlay_keeps_untouched<V>(base: Seq<(Vec<String>, V)>, over: Seq<(Vec<String>, V)>, e: (Vec<String>, V))
    ensures
        over.contains(e) ==> (kept(base, layer_paths(over)) + over).contains(e),
        base.contains(e) && !touched(path_view(e.0), layer_paths(over)) ==> (kept(base, layer_paths(over))
            + over).contains(e),
        kept(base, layer_paths(over)).contains(e) ==> base.contains(e) && !touched(
            path_view(e.0),
            layer_paths(over),
        ),
{
    let lp = layer_paths(over);
    let pred = |x: (Vec<String>, V)| !touched(path_view(x.0), lp);
    let k = base.filter(pred);
    let r = k + over;
    if over.contains(e) {
        let j = choose|j: int| 0 <= j < over.len() && over[j] == e;
        assert(r[k.len() + j] == e);
    }
    if base.contains(e) && pred(e) {
        let t = choose|t: int| 0 <= t < base.len() && base[t] == e;
        base.lemma_filter_contains(pred, t);
        let j = choose|j: int| 0 <= j < k.len() && k[j] == e;
        assert(r[j] == e);
    }
    if k.contains(e) {
        base.lemma_filter_contains_rev(pred, e);
        let j = choose|j: int| 0 <= j < k.len() && k[j] == e;
        base.lemma_filter_pred(pred, j);
    }
}

/// Overlaying a well-formed layer on well-formed settings gives well-formed
/// settings: no path ends up below another.
pub proof fn lemma_overlay_is_layer<V>(base: Seq<(Vec<String>, V)>, over: Seq<(Vec<String>, V)>)
    requires
        is_layer(layer_paths(base)),
        is_layer(layer_paths(over)),
    ensures
        is_layer(layer_paths(kept(base, layer_paths(over)) + over)),
{
    let lp = layer_paths(over);
    let pred = |x: (Vec<String>, V)| !touched(path_view(x.0), lp);
    let k = base.filter(pred);
    lemma_filter_is_layer(base, pred);
    let r = k + over;
    let rp = layer_paths(r);
    assert forall|i: int, j: int| 0 <= i < rp.len() && 0 <= j < rp.len() && i != j implies !related(
        #[trigger] rp[i],
        #[trigger] rp[j],
    ) by {
        assert(rp[i] == path_view(r[i].0) && rp[j] == path_view(r[j].0));
        if i < k.len() && j < k.len() {
            assert(layer_paths(k)[i] == rp[i] && layer_paths(k)[j] == rp[j]);
        } else if i >= k.len() && j >= k.len() {
            assert(lp[i - k.len()] == rp[i] && lp[j - k.len()] == rp[j]);
        } else if i < k.len() {
            base.lemma_filter_pred(pred, i);
            assert(!touched(path_view(k[i].0), lp));
            assert(lp[j - k.len()] == rp[j]);
            assert(!related(rp[i], lp[j - k.len()]));
        } else {
            base.lemma_filter_pred(pred, j);
            assert(!touched(path_view(k[j].0), lp));
            assert(lp[i - k.len()] == rp[i]);
            assert(!related(rp[j], lp[i - k.len()]));
        }
    }
}

/// Keeping some of the settings of a well-formed layer keeps it well-formed.
proof fn lemma_filter_is_layer<V>(base: Seq<(Vec<String>, V)>, pred: spec_fn((Vec<String>, V)) -> bool)
    requires
        is_layer(layer_paths(base)),
    ensures
        is_layer(layer_paths(base.filter(pred))),
    decreases base.len(),
{
    reveal(Seq::filter);
    if base.len() > 0 {
        let b1 = base.drop_last();
        let bp = layer_paths(base);
        assert(is_layer(layer_paths(b1))) by {
            assert forall|i: int, j: int| 0 <= i < b1.len() && 0 <= j < b1.len() && i != j implies !related(
                #[trigger] layer_paths(b1)[i],
                #[trigger] layer_paths(b1)[j],
            ) by {
                assert(layer_paths(b1)[i] == bp[i] && layer_paths(b1)[j] == bp[j]);
            }
        }
        lemma_filter_is_layer(b1, pred);
        let f1 = b1.filter(pred);
        if pred(base.last()) {
            let f = f1.push(base.last());
            assert(base.filter(pred) == f);
            let fp = layer_paths(f);
            let last = base.len() - 1;
            assert forall|i: int, j: int| 0 <= i < fp.len() && 0 <= j < fp.len() && i != j implies !related(
                #[trigger] fp[i],
                #[trigger] fp[j],
            ) by {
                if i < f1.len() && j < f1.len() {
                    assert(layer_paths(f1)[i] == fp[i] && layer_paths(f1)[j] == fp[j]);
                } else {
                    let m = if i < f1.len() { i } else { j };
                    assert(f1.contains(f1[m]));
                    b1.lemma_filter_contains_rev(pred, f1[m]);
                    let t = choose|t: int| 0 <= t < b1.len() && b1[t] == f1[m];
                    assert(bp[t] == path_view(f1[m].0));
                    assert(bp[last] == path_view(base.last().0));
                    assert(fp[m] == path_view(f1[m].0));
                    assert(fp[f1.len() as int] == path_view(base.last().0));
                    assert(!related(bp[t], bp[last]));
                }
            }
        } else {
            assert(base.filter(pred) == f1);
        }
    }
}

} // verus!
