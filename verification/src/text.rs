//! Character-level text handling shared by the library: whitespace
//! splitting, ASCII lowercasing, substring search, trimming, line splitting,
//! joining and decimal rendering, each with a specification over `Seq<char>`.

use vstd::prelude::*;

verus! {

/// The characters of `s`, in order.
pub(crate) fn chars_of(s: &str) -> (r: Vec<char>)
    ensures
        r@ == s@,
{
    broadcast use vstd::string::axiom_spec_iter;
    let mut out: Vec<char> = Vec::new();
    for c in it: s.chars()
        invariant
            out@ == it.seq().take(it.index() as int),
    {
        out.push(c);
    }
    out
}

/// Builds a `String` from characters (std's `String: FromIterator<char>`).
#[verifier::external_body]
pub(crate) fn string_of(cs: &[char]) -> (r: String)
    ensures
        r@ == cs@,
{
    cs.iter().collect()
}

/// Unicode `White_Space`, the property std's `char::is_whitespace` tests.
pub open spec fn is_ws(c: char) -> bool {
    ||| ('\u{9}' <= c && c <= '\u{d}')
    ||| c == ' '
    ||| c == '\u{85}'
    ||| c == '\u{a0}'
    ||| c == '\u{1680}'
    ||| ('\u{2000}' <= c && c <= '\u{200a}')
    ||| c == '\u{2028}'
    ||| c == '\u{2029}'
    ||| c == '\u{202f}'
    ||| c == '\u{205f}'
    ||| c == '\u{3000}'
}

pub fn is_whitespace(c: char) -> (r: bool)
    ensures
        r == is_ws(c),
{
    ('\u{9}' <= c && c <= '\u{d}') || c == ' ' || c == '\u{85}' || c == '\u{a0}' || c
        == '\u{1680}' || ('\u{2000}' <= c && c <= '\u{200a}') || c == '\u{2028}' || c
        == '\u{2029}' || c == '\u{202f}' || c == '\u{205f}' || c == '\u{3000}'
}

/// ASCII lowercasing of one character: `A`..=`Z` map to `a`..=`z`, every
/// other character is kept.
pub open spec fn lower(c: char) -> char {
    if 'A' <= c && c <= 'Z' {
        ((c as u32) + 32) as char
    } else {
        c
    }
}

pub open spec fn lower_seq(s: Seq<char>) -> Seq<char> {
    Seq::new(s.len(), |i: int| lower(s[i]))
}

pub fn to_lower(c: char) -> (r: char)
    ensures
        r == lower(c),
{
    if 'A' <= c && c <= 'Z' {
        let u: u8 = c as u8;
        let l: u8 = u + 32;
        l as char
    } else {
        c
    }
}

/// ASCII lowercasing of a character sequence.
pub fn lower_chars(s: &Vec<char>) -> (r: Vec<char>)
    ensures
        r@ == lower_seq(s@),
{
    let mut r: Vec<char> = Vec::new();
    let mut i: usize = 0;
    while i < s.len()
        invariant
            i <= s.len(),
            r@ == lower_seq(s@.take(i as int)),
        decreases s.len() - i,
    {
        r.push(to_lower(s[i]));
        i = i + 1;
        assert(r@ =~= lower_seq(s@.take(i as int)));
    }
    assert(s@.take(s.len() as int) =~= s@);
    r
}

/// `p` occurs in `s` starting at index `i`.
pub open spec fn occurs_at(s: Seq<char>, p: Seq<char>, i: int) -> bool {
    0 <= i && i + p.len() <= s.len() && s.subrange(i, i + p.len()) == p
}

/// `p` occurs somewhere in `s` (the empty sequence occurs everywhere).
pub open spec fn seq_contains(s: Seq<char>, p: Seq<char>) -> bool {
    exists|i: int| occurs_at(s, p, i)
}

/// Whether `p` occurs in `s` at index `i`.
pub fn matches_at(s: &Vec<char>, p: &Vec<char>, i: usize) -> (r: bool)
    requires
        i + p.len() <= s.len(),
    ensures
        r == occurs_at(s@, p@, i as int),
{
    let mut k: usize = 0;
    while k < p.len()
        invariant
            i + p.len() <= s.len(),
            k <= p.len(),
            forall|j: int| 0 <= j < k ==> s@[i + j] == p@[j],
        decreases p.len() - k,
    {
        if s[i + k] != p[k] {
            assert(s@.subrange(i as int, i + p.len())[k as int] != p@[k as int]);
            return false;
        }
        k = k + 1;
    }
    assert(s@.subrange(i as int, i + p.len()) =~= p@);
    true
}

/// Substring search.
pub fn contains(s: &Vec<char>, p: &Vec<char>) -> (r: bool)
    ensures
        r == seq_contains(s@, p@),
{
    if p.len() > s.len() {
        return false;
    }
    let last: usize = s.len() - p.len();
    let mut i: usize = 0;
    loop
        invariant
            last == s.len() - p.len(),
            p.len() <= s.len(),
            i <= last,
            forall|j: int| 0 <= j < i ==> !occurs_at(s@, p@, j),
        decreases last - i,
    {
        if matches_at(s, p, i) {
            return true;
        }
        if i == last {
            return false;
        }
        i = i + 1;
    }
}

/// Prefix test.
pub fn starts_with(s: &Vec<char>, p: &Vec<char>) -> (r: bool)
    ensures
        r == p@.is_prefix_of(s@),
{
    if p.len() > s.len() {
        return false;
    }
    let r = matches_at(s, p, 0);
    assert(r == (s@.subrange(0, p@.len() as int) == p@));
    r
}

/// Equality of character sequences.
pub fn chars_eq(a: &Vec<char>, b: &Vec<char>) -> (r: bool)
    ensures
        r == (a@ == b@),
{
    if a.len() != b.len() {
        return false;
    }
    let r = matches_at(a, b, 0);
    assert(a@.subrange(0, b@.len() as int) =~= a@);
    r
}

/// The words of `s`: its maximal runs of non-whitespace characters, in order
/// (what std's `str::split_whitespace` yields).
pub open spec fn words(s: Seq<char>) -> Seq<Seq<char>>
    decreases s.len(),
{
    if s.len() == 0 {
        Seq::empty()
    } else {
        let prev = words(s.drop_last());
        let c = s.last();
        if is_ws(c) {
            prev
        } else if s.len() >= 2 && !is_ws(s[s.len() - 2]) {
            prev.update(prev.len() - 1, prev.last().push(c))
        } else {
            prev.push(seq![c])
        }
    }
}

/// Splits `s` into its words.
pub fn split_whitespace(s: &Vec<char>) -> (r: Vec<Vec<char>>)
    ensures
        r.len() == words(s@).len(),
        forall|k: int| 0 <= k < r.len() ==> r[k]@ == words(s@)[k],
{
    let mut done: Vec<Vec<char>> = Vec::new();
    let mut cur: Vec<char> = Vec::new();
    let mut in_word = false;
    let ghost mut dv: Seq<Seq<char>> = Seq::empty();
    let mut i: usize = 0;
    while i < s.len()
        invariant
            i <= s.len(),
            dv.len() == done.len(),
            forall|k: int| 0 <= k < done.len() ==> done[k]@ == dv[k],
            in_word <==> (i > 0 && !is_ws(s@[i - 1])),
            in_word ==> words(s@.take(i as int)) == dv.push(cur@),
            !in_word ==> words(s@.take(i as int)) == dv,
        decreases s.len() - i,
    {
        let c = s[i];
        let ghost pre = s@.take(i as int);
        assert(s@.take(i + 1).drop_last() =~= pre);
        assert(s@.take(i + 1).last() == c);
        if is_whitespace(c) {
            if in_word {
                done.push(cur);
                proof {
                    dv = dv.push(cur@);
                }
                cur = Vec::new();
                in_word = false;
            }
        } else if in_word {
            let ghost old_cur = cur@;
            cur.push(c);
            assert(s@.take(i + 1)[i - 1] == s@[i - 1]);
            assert(dv.push(old_cur).update(dv.len() as int, old_cur.push(c)) =~= dv.push(cur@));
        } else {
            cur = Vec::new();
            cur.push(c);
            in_word = true;
            assert(cur@ =~= seq![c]);
            if i > 0 {
                assert(s@.take(i + 1)[i - 1] == s@[i - 1]);
            }
        }
        i = i + 1;
    }
    assert(s@.take(s.len() as int) =~= s@);
    if in_word {
        done.push(cur);
        proof {
            dv = dv.push(cur@);
        }
    }
    done
}

/// `s` without its leading whitespace.
pub open spec fn trim_start(s: Seq<char>) -> Seq<char>
    decreases s.len(),
{
    if s.len() > 0 && is_ws(s[0]) {
        trim_start(s.drop_first())
    } else {
        s
    }
}

/// `s` without its trailing whitespace.
pub open spec fn trim_end(s: Seq<char>) -> Seq<char>
    decreases s.len(),
{
    if s.len() > 0 && is_ws(s.last()) {
        trim_end(s.drop_last())
    } else {
        s
    }
}

/// `s` without leading and trailing whitespace (std's `str::trim`).
pub open spec fn trim(s: Seq<char>) -> Seq<char> {
    trim_end(trim_start(s))
}

proof fn lemma_trim_start_skip(s: Seq<char>, i: int)
    requires
        0 <= i <= s.len(),
        forall|j: int| 0 <= j < i ==> is_ws(s[j]),
    ensures
        trim_start(s) == trim_start(s.skip(i)),
    decreases i,
{
    if i > 0 {
        assert(s.drop_first().skip(i - 1) =~= s.skip(i));
        lemma_trim_start_skip(s.drop_first(), i - 1);
    } else {
        assert(s.skip(0) =~= s);
    }
}

proof fn lemma_trim_end_take(s: Seq<char>, e: int)
    requires
        0 <= e <= s.len(),
        forall|j: int| e <= j < s.len() ==> is_ws(s[j]),
    ensures
        trim_end(s) == trim_end(s.take(e)),
    decreases s.len() - e,
{
    if e < s.len() {
        assert(s.drop_last().take(e) =~= s.take(e));
        lemma_trim_end_take(s.drop_last(), e);
    } else {
        assert(s.take(e) =~= s);
    }
}

/// Removes leading and trailing whitespace.
pub fn trim_chars(s: &Vec<char>) -> (r: Vec<char>)
    ensures
        r@ == trim(s@),
{
    let n = s.len();
    let mut b: usize = 0;
    while b < n && is_whitespace(s[b])
        invariant
            n == s.len(),
            b <= n,
            forall|j: int| 0 <= j < b ==> is_ws(s@[j]),
        decreases n - b,
    {
        b = b + 1;
    }
    proof {
        lemma_trim_start_skip(s@, b as int);
    }
    let ghost t = s@.skip(b as int);
    assert(b < n ==> !is_ws(t[0]));
    assert(trim_start(s@) == t);
    let mut e: usize = n;
    while e > b && is_whitespace(s[e - 1])
        invariant
            n == s.len(),
            b <= e <= n,
            forall|j: int| e <= j < n ==> is_ws(s@[j]),
        decreases e - b,
    {
        e = e - 1;
    }
    proof {
        lemma_trim_end_take(t, e - b);
        assert(t.take(e - b) =~= s@.subrange(b as int, e as int));
    }
    let mut r: Vec<char> = Vec::new();
    let mut k: usize = b;
    while k < e
        invariant
            b <= k <= e <= n,
            n == s.len(),
            r@ == s@.subrange(b as int, k as int),
        decreases e - k,
    {
        r.push(s[k]);
        k = k + 1;
        assert(r@ =~= s@.subrange(b as int, k as int));
    }
    assert(e > b ==> !is_ws(s@.subrange(b as int, e as int).last()));
    r
}

/// The pieces of `s` when it is cut after every newline; each piece but the
/// last ends with its newline (std's `str::split_inclusive('\n')`).
pub open spec fn split_inclusive_nl(s: Seq<char>) -> Seq<Seq<char>>
    decreases s.len(),
{
    if s.len() == 0 {
        Seq::empty()
    } else {
        let prev = split_inclusive_nl(s.drop_last());
        let c = s.last();
        if prev.len() > 0 && prev.last().last() != '\n' {
            prev.update(prev.len() - 1, prev.last().push(c))
        } else {
            prev.push(seq![c])
        }
    }
}

/// One line without its line ending: a final `\n` is removed, and then a
/// `\r` just before it.
pub open spec fn strip_line_ending(piece: Seq<char>) -> Seq<char> {
    if piece.len() > 0 && piece.last() == '\n' {
        let p = piece.drop_last();
        if p.len() > 0 && p.last() == '\r' {
            p.drop_last()
        } else {
            p
        }
    } else {
        piece
    }
}

/// The lines of `s`, as std's `str::lines` yields them.
pub open spec fn lines(s: Seq<char>) -> Seq<Seq<char>> {
    split_inclusive_nl(s).map_values(|piece: Seq<char>| strip_line_ending(piece))
}

proof fn lemma_split_pieces_nonempty(s: Seq<char>)
    ensures
        forall|k: int| 0 <= k < split_inclusive_nl(s).len() ==> split_inclusive_nl(s)[k].len() > 0,
    decreases s.len(),
{
    if s.len() > 0 {
        let prev = split_inclusive_nl(s.drop_last());
        lemma_split_pieces_nonempty(s.drop_last());
        let r = split_inclusive_nl(s);
        assert forall|k: int| 0 <= k < r.len() implies r[k].len() > 0 by {
            if k < prev.len() {
                assert(prev[k].len() > 0);
            }
        }
    }
}

/// Splits `s` into its lines.
pub fn split_lines(s: &Vec<char>) -> (r: Vec<Vec<char>>)
    ensures
        r.len() == lines(s@).len(),
        forall|k: int| 0 <= k < r.len() ==> r[k]@ == lines(s@)[k],
{
    let mut done: Vec<Vec<char>> = Vec::new();
    let mut cur: Vec<char> = Vec::new();
    let ghost mut dv: Seq<Seq<char>> = Seq::empty();
    let mut i: usize = 0;
    while i < s.len()
        invariant
            i <= s.len(),
            dv.len() == done.len(),
            forall|k: int| 0 <= k < done.len() ==> done[k]@ == strip_line_ending(dv[k]),
            forall|k: int| 0 <= k < dv.len() ==> dv[k].len() > 0 && dv[k].last() == '\n',
            cur.len() > 0 ==> split_inclusive_nl(s@.take(i as int)) == dv.push(cur@),
            cur.len() == 0 ==> split_inclusive_nl(s@.take(i as int)) == dv,
            cur.len() > 0 ==> cur@.last() != '\n',
        decreases s.len() - i,
    {
        let c = s[i];
        let ghost pre = s@.take(i as int);
        assert(s@.take(i + 1).drop_last() =~= pre);
        assert(s@.take(i + 1).last() == c);
        let ghost old_cur = cur@;
        cur.push(c);
        if cur.len() > 1 {
            assert(dv.push(old_cur).update(dv.len() as int, old_cur.push(c)) =~= dv.push(cur@));
        } else {
            assert(cur@ =~= seq![c]);
        }
        if c == '\n' {
            let mut line: Vec<char> = Vec::new();
            let mut end: usize = cur.len() - 1;
            if end > 0 && cur[end - 1] == '\r' {
                end = end - 1;
            }
            let mut k: usize = 0;
            while k < end
                invariant
                    k <= end < cur.len(),
                    line@ == cur@.take(k as int),
                decreases end - k,
            {
                line.push(cur[k]);
                k = k + 1;
                assert(line@ =~= cur@.take(k as int));
            }
            proof {
                assert(cur@.drop_last() =~= cur@.take(cur.len() - 1));
                if cur.len() >= 2 {
                    assert(cur@.drop_last().drop_last() =~= cur@.take(cur.len() - 2));
                }
                dv = dv.push(cur@);
            }
            done.push(line);
            cur = Vec::new();
        }
        i = i + 1;
    }
    assert(s@.take(s.len() as int) =~= s@);
    if cur.len() > 0 {
        proof {
            dv = dv.push(cur@);
        }
        done.push(cur);
    }
    proof {
        lemma_split_pieces_nonempty(s@);
    }
    done
}

/// The decimal digit for `d` (below ten).
pub open spec fn digit(d: nat) -> char {
    if d == 0 { '0' } else if d == 1 { '1' } else if d == 2 { '2' } else if d == 3 { '3' }
    else if d == 4 { '4' } else if d == 5 { '5' } else if d == 6 { '6' } else if d == 7 { '7' }
    else if d == 8 { '8' } else { '9' }
}

/// The decimal rendering of `n`, without leading zeros.
pub open spec fn decimal(n: nat) -> Seq<char>
    decreases n,
{
    if n < 10 {
        seq![digit(n)]
    } else {
        decimal(n / 10).push(digit(n % 10))
    }
}

fn digit_char(d: u64) -> (r: char)
    requires
        d < 10,
    ensures
        r == digit(d as nat),
{
    if d == 0 { '0' } else if d == 1 { '1' } else if d == 2 { '2' } else if d == 3 { '3' }
    else if d == 4 { '4' } else if d == 5 { '5' } else if d == 6 { '6' } else if d == 7 { '7' }
    else if d == 8 { '8' } else { '9' }
}

/// Appends the decimal rendering of `n`.
pub fn push_decimal(out: &mut Vec<char>, n: u64)
    ensures
        final(out)@ == old(out)@ + decimal(n as nat),
    decreases n,
{
    if n < 10 {
        out.push(digit_char(n));
        assert(decimal(n as nat) =~= seq![digit(n as nat)]);
    } else {
        push_decimal(out, n / 10);
        out.push(digit_char(n % 10));
    }
}

/// Appends `p` to `out`.
pub fn push_all(out: &mut Vec<char>, p: &Vec<char>)
    ensures
        final(out)@ == old(out)@ + p@,
{
    let ghost start = out@;
    let mut k: usize = 0;
    while k < p.len()
        invariant
            k <= p.len(),
            out@ == start + p@.take(k as int),
        decreases p.len() - k,
    {
        out.push(p[k]);
        k = k + 1;
        assert(out@ =~= start + p@.take(k as int));
    }
    assert(p@.take(p.len() as int) =~= p@);
}

/// `parts` joined with `sep` between consecutive parts.
pub open spec fn join(parts: Seq<Seq<char>>, sep: Seq<char>) -> Seq<char>
    decreases parts.len(),
{
    if parts.len() == 0 {
        Seq::empty()
    } else if parts.len() == 1 {
        parts[0]
    } else {
        join(parts.drop_last(), sep) + sep + parts.last()
    }
}

/// Joins `parts[from..to]` with `sep`.
pub fn join_range(parts: &Vec<Vec<char>>, from: usize, to: usize, sep: &Vec<char>) -> (r: Vec<char>)
    requires
        from <= to <= parts.len(),
    ensures
        r@ == join(parts@.subrange(from as int, to as int).map_values(|p: Vec<char>| p@), sep@),
{
    let mut out: Vec<char> = Vec::new();
    let mut k: usize = from;
    while k < to
        invariant
            from <= k <= to <= parts.len(),
            out@ == join(parts@.subrange(from as int, k as int).map_values(|p: Vec<char>| p@), sep@),
        decreases to - k,
    {
        let ghost prev = parts@.subrange(from as int, k as int).map_values(|p: Vec<char>| p@);
        let ghost next = parts@.subrange(from as int, k + 1).map_values(|p: Vec<char>| p@);
        assert(next.drop_last() =~= prev);
        assert(next.last() == parts[k as int]@);
        if k > from {
            push_all(&mut out, sep);
        } else {
            assert(next.len() == 1);
        }
        push_all(&mut out, &parts[k]);
        k = k + 1;
        assert(out@ =~= join(next, sep@));
    }
    out
}

} // verus!
