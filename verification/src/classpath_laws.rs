//! Laws of classpath assembly.
use vstd::prelude::*;

use crate::classpath::{
    bootstrap_score, dedup_spec, entry_key, final_entries, non_blank, prioritized, with_score,
};
use crate::platform::HostOs;
use crate::text::trim_spec;

verus! {

/// No text occurs twice.
pub open spec fn distinct_texts(s: Seq<Seq<char>>) -> bool {
    forall|i: int, j: int| 0 <= i < j < s.len() ==> s[i] != s[j]
}

proof fn lemma_dedup_elements(s: Seq<Seq<char>>, os: HostOs)
    ensures
        forall|i: int, j: int|
            0 <= i < j < dedup_spec(s, os).len() ==> entry_key(dedup_spec(s, os)[i], os) != entry_key(
                dedup_spec(s, os)[j],
                os,
            ),
        forall|x: Seq<char>| #[trigger] dedup_spec(s, os).contains(x) ==> s.contains(x),
    decreases s.len(),
{
    if s.len() > 0 {
        let d = s.drop_last();
        lemma_dedup_elements(d, os);
        let r = dedup_spec(d, os);
        let full = dedup_spec(s, os);
        if !(exists|i: int|
            0 <= i < s.len() - 1 && entry_key(#[trigger] s[i], os) == entry_key(s.last(), os)) {
            assert forall|i: int, j: int|
                0 <= i < j < full.len() implies entry_key(full[i], os) != entry_key(full[j], os) by {
                if j == full.len() - 1 {
                    assert(full[j] == s.last());
                    assert(full[i] == r[i]);
                    assert(r.contains(r[i]));
                    assert(d.contains(r[i]));
                    let k = choose|k: int| 0 <= k < d.len() && d[k] == r[i];
                    assert(s[k] == d[k]);
                } else {
                    assert(full[i] == r[i] && full[j] == r[j]);
                }
            }
            assert forall|x: Seq<char>| full.contains(x) implies s.contains(x) by {
                let q = choose|q: int| 0 <= q < full.len() && full[q] == x;
                if q < r.len() {
                    assert(r[q] == x);
                    assert(r.contains(x));
                    let k = choose|k: int| 0 <= k < d.len() && d[k] == x;
                    assert(s[k] == x);
                } else {
                    assert(s[s.len() - 1] == x);
                }
            }
        } else {
            assert forall|x: Seq<char>| full.contains(x) implies s.contains(x) by {
                assert(r.contains(x));
                let k = choose|k: int| 0 <= k < d.len() && d[k] == x;
                assert(s[k] == x);
            }
        }
    }
}

proof fn lemma_with_score_elements(d: Seq<Seq<char>>, k: int)
    requires
        distinct_texts(d),
    ensures
        distinct_texts(with_score(d, k)),
        forall|x: Seq<char>| #[trigger] with_score(d, k).contains(x) <==> (d.contains(x) && bootstrap_score(x) == k),
    decreases d.len(),
{
    if d.len() > 0 {
        let p = d.drop_last();
        assert(distinct_texts(p)) by {
            assert forall|i: int, j: int| 0 <= i < j < p.len() implies p[i] != p[j] by {
                assert(p[i] == d[i] && p[j] == d[j]);
            }
        }
        lemma_with_score_elements(p, k);
        let r = with_score(p, k);
        let w = with_score(d, k);
        assert forall|x: Seq<char>| #[trigger] with_score(d, k).contains(x) <==> (d.contains(x)
            && bootstrap_score(x) == k) by {
            if d.contains(x) {
                let q = choose|q: int| 0 <= q < d.len() && d[q] == x;
                if q < d.len() - 1 {
                    assert(p[q] == x);
                    if bootstrap_score(x) == k {
                        assert(r.contains(x));
                        let m = choose|m: int| 0 <= m < r.len() && r[m] == x;
                        assert(w[m] == x);
                    }
                } else if bootstrap_score(x) == k {
                    assert(w[r.len() as int] == x);
                }
            }
            if w.contains(x) {
                let m = choose|m: int| 0 <= m < w.len() && w[m] == x;
                if m < r.len() {
                    assert(r[m] == x);
                    assert(r.contains(x));
                    let q = choose|q: int| 0 <= q < p.len() && p[q] == x;
                    assert(d[q] == x);
                } else {
                    assert(d[d.len() - 1] == x);
                }
            }
        }
        if bootstrap_score(d.last()) == k {
            assert forall|i: int, j: int| 0 <= i < j < w.len() implies w[i] != w[j] by {
                if j == w.len() - 1 {
                    assert(w[i] == r[i]);
                    assert(r.contains(r[i]));
                    let q = choose|q: int| 0 <= q < p.len() && p[q] == r[i];
                    assert(d[q] == p[q]);
                    assert(w[j] == d[d.len() - 1]);
                } else {
                    assert(w[i] == r[i] && w[j] == r[j]);
                }
            }
        }
    } else {
        assert forall|x: Seq<char>| #[trigger] with_score(d, k).contains(x) <==> (d.contains(x)
            && bootstrap_score(x) == k) by {
            if d.contains(x) {
                let q = choose|q: int| 0 <= q < d.len() && d[q] == x;
            }
            if with_score(d, k).contains(x) {
                let q = choose|q: int| 0 <= q < with_score(d, k).len() && with_score(d, k)[q] == x;
            }
        }
    }
}

proof fn lemma_score_values(x: Seq<char>)
    ensures
        bootstrap_score(x) == 0 || bootstrap_score(x) == 1 || bootstrap_score(x) == 2
            || bootstrap_score(x) == 10,
{
}

proof fn lemma_concat_distinct(a: Seq<Seq<char>>, b: Seq<Seq<char>>)
    requires
        distinct_texts(a),
        distinct_texts(b),
        forall|x: Seq<char>| a.contains(x) ==> !b.contains(x),
    ensures
        distinct_texts(a + b),
{
    let c = a + b;
    assert forall|i: int, j: int| 0 <= i < j < c.len() implies c[i] != c[j] by {
        if j < a.len() {
            assert(c[i] == a[i] && c[j] == a[j]);
        } else if i >= a.len() {
            assert(c[i] == b[i - a.len()] && c[j] == b[j - a.len()]);
        } else {
            assert(c[i] == a[i]);
            assert(c[j] == b[j - a.len()]);
            assert(a.contains(a[i]));
            assert(b.contains(b[j - a.len()]));
        }
    }
}

proof fn lemma_concat_contains(a: Seq<Seq<char>>, b: Seq<Seq<char>>, x: Seq<char>)
    ensures
        (a + b).contains(x) <==> (a.contains(x) || b.contains(x)),
{
    let c = a + b;
    if c.contains(x) {
        let q = choose|q: int| 0 <= q < c.len() && c[q] == x;
        if q < a.len() {
            assert(a[q] == x);
        } else {
            assert(b[q - a.len()] == x);
        }
    }
    if a.contains(x) {
        let q = choose|q: int| 0 <= q < a.len() && a[q] == x;
        assert(c[q] == x);
    }
    if b.contains(x) {
        let q = choose|q: int| 0 <= q < b.len() && b[q] == x;
        assert(c[q + a.len()] == x);
    }
}

/// Putting bootstrap jars first only reorders: the same entries, each once
/// when they were once.
pub proof fn prioritizing_only_reorders(d: Seq<Seq<char>>)
    requires
        distinct_texts(d),
    ensures
        distinct_texts(prioritized(d)),
        forall|x: Seq<char>| #[trigger] prioritized(d).contains(x) <==> d.contains(x),
{
    let g0 = with_score(d, 0);
    let g1 = with_score(d, 1);
    let g2 = with_score(d, 2);
    let g3 = with_score(d, 10);
    lemma_with_score_elements(d, 0);
    lemma_with_score_elements(d, 1);
    lemma_with_score_elements(d, 2);
    lemma_with_score_elements(d, 10);
    assert forall|x: Seq<char>| g0.contains(x) implies !g1.contains(x) by {
        assert(with_score(d, 0).contains(x));
    }
    lemma_concat_distinct(g0, g1);
    assert forall|x: Seq<char>| (g0 + g1).contains(x) implies !g2.contains(x) by {
        lemma_concat_contains(g0, g1, x);
        if g0.contains(x) {
            assert(with_score(d, 0).contains(x));
        } else {
            assert(with_score(d, 1).contains(x));
        }
    }
    lemma_concat_distinct(g0 + g1, g2);
    assert forall|x: Seq<char>| (g0 + g1 + g2).contains(x) implies !g3.contains(x) by {
        lemma_concat_contains(g0 + g1, g2, x);
        lemma_concat_contains(g0, g1, x);
        if g0.contains(x) {
            assert(with_score(d, 0).contains(x));
        } else if g1.contains(x) {
            assert(with_score(d, 1).contains(x));
        } else {
            assert(with_score(d, 2).contains(x));
        }
    }
    lemma_concat_distinct(g0 + g1 + g2, g3);
    assert forall|x: Seq<char>| #[trigger] prioritized(d).contains(x) <==> d.contains(x) by {
        lemma_concat_contains(g0 + g1 + g2, g3, x);
        lemma_concat_contains(g0 + g1, g2, x);
        lemma_concat_contains(g0, g1, x);
        lemma_score_values(x);
        if d.contains(x) {
            if bootstrap_score(x) == 0 {
                assert(with_score(d, 0).contains(x));
            } else if bootstrap_score(x) == 1 {
                assert(with_score(d, 1).contains(x));
            } else if bootstrap_score(x) == 2 {
                assert(with_score(d, 2).contains(x));
            } else {
                assert(with_score(d, 10).contains(x));
            }
        }
        if g0.contains(x) {
            assert(with_score(d, 0).contains(x));
        }
        if g1.contains(x) {
            assert(with_score(d, 1).contains(x));
        }
        if g2.contains(x) {
            assert(with_score(d, 2).contains(x));
        }
        if g3.contains(x) {
            assert(with_score(d, 10).contains(x));
        }
    }
}

/// The classpath lists every entry once: blank entries are gone, no two
/// entries share a key (the path, compared without case on Windows), every
/// entry comes from the gathered ones, and every non-blank gathered entry is
/// represented by one of the same key.
pub proof fn classpath_lists_each_entry_once(entries: Seq<Seq<char>>, os: HostOs)
    ensures
        distinct_texts(final_entries(entries, os)),
        forall|x: Seq<char>|
            #[trigger] final_entries(entries, os).contains(x) ==> entries.contains(x) && trim_spec(
                x,
            ).len() != 0,
        forall|x: Seq<char>|
            #[trigger] entries.contains(x) && trim_spec(x).len() != 0 ==> exists|y: Seq<char>|
                final_entries(entries, os).contains(y) && entry_key(y, os) == entry_key(x, os),
{
    let nb = non_blank(entries);
    let d = dedup_spec(nb, os);
    lemma_dedup_elements(nb, os);
    lemma_non_blank_elements(entries);
    assert(distinct_texts(d)) by {
        assert forall|i: int, j: int| 0 <= i < j < d.len() implies d[i] != d[j] by {
            assert(entry_key(d[i], os) != entry_key(d[j], os));
        }
    }
    prioritizing_only_reorders(d);
    assert forall|x: Seq<char>| #[trigger] entries.contains(x) && trim_spec(x).len() != 0 implies exists|
        y: Seq<char>,
    | final_entries(entries, os).contains(y) && entry_key(y, os) == entry_key(x, os) by {
        assert(nb.contains(x));
        crate::classpath::lemma_dedup_keys(nb, os, entry_key(x, os));
        let q = choose|q: int| 0 <= q < nb.len() && nb[q] == x;
        assert(entry_key(nb[q], os) == entry_key(x, os));
        let j = choose|j: int|
            0 <= j < d.len() && entry_key(#[trigger] d[j], os) == entry_key(x, os);
        assert(d.contains(d[j]));
        assert(final_entries(entries, os).contains(d[j]));
    }
}

proof fn lemma_non_blank_elements(s: Seq<Seq<char>>)
    ensures
        forall|x: Seq<char>| #[trigger] non_blank(s).contains(x) <==> (s.contains(x) && trim_spec(x).len() != 0),
    decreases s.len(),
{
    if s.len() > 0 {
        let p = s.drop_last();
        lemma_non_blank_elements(p);
        let r = non_blank(p);
        let w = non_blank(s);
        assert forall|x: Seq<char>| #[trigger] w.contains(x) <==> (s.contains(x) && trim_spec(x).len() != 0) by {
            if s.contains(x) && trim_spec(x).len() != 0 {
                let q = choose|q: int| 0 <= q < s.len() && s[q] == x;
                if q < s.len() - 1 {
                    assert(p[q] == x);
                    assert(r.contains(x));
                    let m = choose|m: int| 0 <= m < r.len() && r[m] == x;
                    assert(w[m] == x);
                } else {
                    assert(w[r.len() as int] == x);
                }
            }
            if w.contains(x) {
                let m = choose|m: int| 0 <= m < w.len() && w[m] == x;
                if m < r.len() {
                    assert(r[m] == x);
                    assert(r.contains(x));
                    let q = choose|q: int| 0 <= q < p.len() && p[q] == x;
                    assert(s[q] == x);
                } else {
                    assert(s[s.len() - 1] == x);
                }
            }
        }
    }
}

} // verus!
