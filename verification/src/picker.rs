//! Which windows the picker offers, and in what order.

use vstd::prelude::*;
use crate::group::TrackedWindow;
use crate::text::{chars_of, contains_seq, text_lower, str_contains, to_lowercase};

verus! {

broadcast use vstd::seq_lib::group_seq_properties;

/// `a` comes before `b` in the lexicographic order of character codes
/// (the order of `str::cmp`).
pub open spec fn lex_lt(a: Seq<char>, b: Seq<char>) -> bool
    decreases a.len(),
{
    if a.len() == 0 {
        b.len() > 0
    } else if b.len() == 0 {
        false
    } else if a[0] != b[0] {
        (a[0] as u32) < (b[0] as u32)
    } else {
        lex_lt(a.drop_first(), b.drop_first())
    }
}

/// The sort key of a window: its process name, then its title, both lower-cased.
pub open spec fn sort_key(w: TrackedWindow) -> (Seq<char>, Seq<char>) {
    (text_lower(w.process_name@), text_lower(w.title@))
}

/// `a` sorts before `b`.
pub open spec fn window_lt(a: TrackedWindow, b: TrackedWindow) -> bool {
    lex_lt(sort_key(a).0, sort_key(b).0) || (sort_key(a).0 == sort_key(b).0 && lex_lt(sort_key(a).1, sort_key(b).1))
}

/// The picker offers the window: its process, lower-cased, is neither this
/// program nor the Windows shell, and it has a title.
pub open spec fn is_pickable(w: TrackedWindow) -> bool {
    &&& !contains_seq(text_lower(w.process_name@), "always-bind-window"@)
    &&& !contains_seq(text_lower(w.process_name@), "explorer.exe"@)
    &&& w.title@.len() > 0
}

/// No window sorts before one that precedes it.
pub open spec fn is_sorted(s: Seq<TrackedWindow>) -> bool {
    forall|i: int, j: int| 0 <= i < j < s.len() ==> !window_lt(#[trigger] s[j], #[trigger] s[i])
}

/// The windows with a given sort key, in order.
pub open spec fn with_key(s: Seq<TrackedWindow>, k: (Seq<char>, Seq<char>)) -> Seq<TrackedWindow> {
    s.filter(has_key(k))
}

/// The window has this sort key.
pub open spec fn has_key(k: (Seq<char>, Seq<char>)) -> spec_fn(TrackedWindow) -> bool {
    |w: TrackedWindow| sort_key(w) == k
}

proof fn lemma_lex_irreflexive(a: Seq<char>)
    ensures
        !lex_lt(a, a),
    decreases a.len(),
{
    if a.len() > 0 {
        lemma_lex_irreflexive(a.drop_first());
    }
}

proof fn lemma_lex_transitive(a: Seq<char>, b: Seq<char>, c: Seq<char>)
    requires
        lex_lt(a, b),
        lex_lt(b, c),
    ensures
        lex_lt(a, c),
    decreases a.len(),
{
    if a.len() > 0 && b.len() > 0 && c.len() > 0 && a[0] == b[0] && b[0] == c[0] {
        lemma_lex_transitive(a.drop_first(), b.drop_first(), c.drop_first());
    }
}

proof fn lemma_window_lt_transitive(a: TrackedWindow, b: TrackedWindow, c: TrackedWindow)
    requires
        window_lt(a, b),
        window_lt(b, c),
    ensures
        window_lt(a, c),
{
    let (ka, kb, kc) = (sort_key(a), sort_key(b), sort_key(c));
    if lex_lt(ka.0, kb.0) && lex_lt(kb.0, kc.0) {
        lemma_lex_transitive(ka.0, kb.0, kc.0);
    } else if ka.0 == kb.0 && lex_lt(ka.1, kb.1) && kb.0 == kc.0 && lex_lt(kb.1, kc.1) {
        lemma_lex_transitive(ka.1, kb.1, kc.1);
    }
}

proof fn lemma_lex_total(a: Seq<char>, b: Seq<char>)
    requires
        a != b,
    ensures
        lex_lt(a, b) || lex_lt(b, a),
    decreases a.len(),
{
    if a.len() > 0 && b.len() > 0 && a[0] == b[0] {
        if a.drop_first() == b.drop_first() {
            assert(a =~= seq![a[0]] + a.drop_first());
            assert(b =~= seq![b[0]] + b.drop_first());
        }
        lemma_lex_total(a.drop_first(), b.drop_first());
    } else if a.len() > 0 && b.len() > 0 {
        vstd::utf8::char_u32_cast(a[0], a[0] as u32);
        vstd::utf8::char_u32_cast(b[0], b[0] as u32);
        assert((a[0] as u32) != (b[0] as u32));
    } else if a.len() == 0 && b.len() == 0 {
        assert(a =~= b);
    }
}

/// Of two windows, one sorts before the other unless they sort alike.
proof fn lemma_window_lt_total(a: TrackedWindow, b: TrackedWindow)
    ensures
        window_lt(a, b) || window_lt(b, a) || sort_key(a) == sort_key(b),
{
    if sort_key(a).0 != sort_key(b).0 {
        lemma_lex_total(sort_key(a).0, sort_key(b).0);
    } else if sort_key(a).1 != sort_key(b).1 {
        lemma_lex_total(sort_key(a).1, sort_key(b).1);
    }
}

proof fn lemma_window_lt_irreflexive(a: TrackedWindow, b: TrackedWindow)
    requires
        sort_key(a) == sort_key(b),
    ensures
        !window_lt(a, b),
{
    lemma_lex_irreflexive(sort_key(a).0);
    lemma_lex_irreflexive(sort_key(a).1);
}

/// Whether `a` comes before `b` lexicographically.
fn lex_less(a: &str, b: &str) -> (r: bool)
    ensures
        r == lex_lt(a@, b@),
{
    let x = chars_of(a);
    let y = chars_of(b);
    let mut i: usize = 0;
    while i < x.len() && i < y.len()
        invariant
            x@ == a@,
            y@ == b@,
            i <= x@.len(),
            i <= y@.len(),
            forall|k: int| 0 <= k < i ==> x@[k] == y@[k],
            lex_lt(a@, b@) == lex_lt(a@.skip(i as int), b@.skip(i as int)),
        decreases x@.len() - i,
    {
        assert(a@.skip(i as int).drop_first() =~= a@.skip(i + 1));
        assert(b@.skip(i as int).drop_first() =~= b@.skip(i + 1));
        if x[i] != y[i] {
            return (x[i] as u32) < (y[i] as u32);
        }
        i += 1;
    }
    i < y.len()
}

/// Whether `a` sorts before `b`.
fn window_less(a: &TrackedWindow, b: &TrackedWindow) -> (r: bool)
    ensures
        r == window_lt(*a, *b),
{
    let pa = to_lowercase(a.process_name.as_str());
    let pb = to_lowercase(b.process_name.as_str());
    if lex_less(pa.as_str(), pb.as_str()) {
        return true;
    }
    if pa != pb {
        return false;
    }
    let ta = to_lowercase(a.title.as_str());
    let tb = to_lowercase(b.title.as_str());
    lex_less(ta.as_str(), tb.as_str())
}

/// Whether the picker offers the window.
fn pickable(w: &TrackedWindow) -> (r: bool)
    ensures
        r == is_pickable(*w),
{
    let p = to_lowercase(w.process_name.as_str());
    !str_contains(p.as_str(), "always-bind-window") && !str_contains(p.as_str(), "explorer.exe")
        && w.title.as_str().unicode_len() > 0
}

/// The pickable windows among those enumerated, sorted by process name then
/// title (ignoring case); windows that sort alike keep their order.
pub fn get_pickable_windows(windows: Vec<TrackedWindow>) -> (r: Vec<TrackedWindow>)
    ensures
        is_sorted(r@),
        forall|k: (Seq<char>, Seq<char>)| #[trigger] with_key(r@, k) == with_key(windows@.filter(|w: TrackedWindow| is_pickable(w)), k),
{
    let ghost input = windows@;
    let ghost keep = |w: TrackedWindow| is_pickable(w);
    let mut kept: Vec<TrackedWindow> = Vec::new();
    for w in it: windows.into_iter()
        invariant
            it.seq() == input,
            keep == |w: TrackedWindow| is_pickable(w),
            kept@ == input.take(it.index()).filter(keep),
    {
        proof {
            let i = it.index();
            assert(input.take(i + 1) =~= input.take(i).push(input[i]));
            input.take(i).lemma_filter_push(input[i], keep);
        }
        if pickable(&w) {
            kept.push(w);
        }
    }
    assert(input.take(input.len() as int) =~= input);
    let ghost src = kept@;
    let mut out: Vec<TrackedWindow> = Vec::new();
    for w in it: kept.into_iter()
        invariant
            it.seq() == src,
            is_sorted(out@),
            forall|k: (Seq<char>, Seq<char>)| #[trigger] with_key(out@, k) == with_key(src.take(it.index()), k),
    {
        let ghost i = it.index();
        let ghost before = out@;
        // The place of `w`: after every window it does not sort before.
        let mut p: usize = 0;
        while p < out.len() && !window_less(&w, &out[p])
            invariant
                p <= out@.len(),
                out@ == before,
                forall|q: int| 0 <= q < p ==> !window_lt(w, #[trigger] out@[q]),
            decreases out@.len() - p,
        {
            p += 1;
        }
        assert(p == before.len() || window_lt(w, before[p as int]));
        proof {
            assert forall|q: int| p <= q < before.len() implies window_lt(w, #[trigger] before[q]) by {
                // `before` is sorted, so everything from `p` on is not before `before[p]`.
                if q > p && !window_lt(w, before[q]) {
                    assert(!window_lt(before[q], before[p as int]));
                    lemma_window_lt_total(w, before[q]);
                    if window_lt(before[q], w) {
                        lemma_window_lt_transitive(before[q], w, before[p as int]);
                    }
                }
            }
        }
        out.insert(p, w);
        proof {
            let a = before.subrange(0, p as int);
            let b = before.subrange(p as int, before.len() as int);
            assert(before =~= a + b);
            assert(out@ =~= a + seq![w] + b);
            assert forall|x: int, y: int| 0 <= x < y < out@.len() implies !window_lt(#[trigger] out@[y], #[trigger] out@[x]) by {
                if x < p && y == p {
                } else if x == p && y > p {
                    if window_lt(out@[y], w) {
                        lemma_window_lt_transitive(out@[y], w, before[p as int]);
                        if y - 1 == p {
                            lemma_window_lt_irreflexive(before[p as int], before[p as int]);
                        } else {
                            assert(!window_lt(before[y - 1], before[p as int]));
                        }
                    }
                } else if x < p && y > p {
                    assert(!window_lt(before[y - 1], before[x]));
                } else if y < p {
                    assert(!window_lt(before[y], before[x]));
                } else {
                    assert(!window_lt(before[y - 1], before[x - 1]));
                }
            }
            assert(src.take(i + 1) =~= src.take(i).push(w));
            assert forall|k: (Seq<char>, Seq<char>)| #[trigger] with_key(out@, k) == with_key(src.take(i + 1), k) by {
                let f = has_key(k);
                let am = a + seq![w];
                assert(out@ == am + b);
                Seq::filter_distributes_over_add(am, b, f);
                assert(am =~= a.push(w));
                a.lemma_filter_push(w, f);
                Seq::filter_distributes_over_add(a, b, f);
                src.take(i).lemma_filter_push(w, f);
                assert(with_key(before, k) == with_key(src.take(i), k));
                assert(before.filter(f) == a.filter(f) + b.filter(f));
                if sort_key(w) == k {
                    assert(b.filter(f) =~= Seq::<TrackedWindow>::empty()) by {
                        if b.filter(f).len() > 0 {
                            b.lemma_filter_pred(f, 0);
                            let v = b.filter(f)[0];
                            assert(b.filter(f).contains(v));
                            b.lemma_filter_contains_rev(f, v);
                            let z = choose|z: int| 0 <= z < b.len() && b[z] == v;
                            assert(window_lt(w, before[p + z]));
                            lemma_window_lt_irreflexive(w, v);
                        }
                    }
                    assert(out@.filter(f) =~= a.filter(f).push(w));
                    assert(src.take(i + 1).filter(f) =~= src.take(i).filter(f).push(w));
                } else {
                    assert(out@.filter(f) =~= a.filter(f) + b.filter(f));
                    assert(src.take(i + 1).filter(f) =~= src.take(i).filter(f));
                }
            }
        }
    }
    assert(src.take(src.len() as int) =~= src);
    out
}

} // verus!
