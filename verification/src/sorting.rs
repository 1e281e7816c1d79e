//! Sorting lists of texts without repetitions: `sort` followed by `dedup`.
use vstd::prelude::*;

use crate::order::{lemma_list_then_text, lemma_text_order_eq, list_order, text_order, text_order_str, then_order};
use crate::text::string_views;
use crate::version_parts::sort_key;

verus! {

/// The order a list is sorted by.
#[derive(Clone, Copy, PartialEq, Eq, Structural)]
pub enum Rank {
    /// Code-point order of the texts (`str::cmp`).
    Text,
    /// Loader versions: numerically by their alphanumeric parts, then by text.
    LoaderVersion,
}

pub open spec fn rank_order(k: Rank, a: Seq<char>, b: Seq<char>) -> int {
    match k {
        Rank::Text => text_order(a, b),
        Rank::LoaderVersion => then_order(list_order(sort_key(a), sort_key(b)), text_order(a, b)),
    }
}

/// Each rank is a total order on texts.
pub proof fn rank_is_total(k: Rank, a: Seq<char>, b: Seq<char>, c: Seq<char>)
    ensures
        -1 <= rank_order(k, a, b) <= 1,
        rank_order(k, a, b) == -rank_order(k, b, a),
        rank_order(k, a, b) == 0 <==> a == b,
        rank_order(k, a, b) <= 0 && rank_order(k, b, c) <= 0 ==> rank_order(k, a, c) <= 0,
        rank_order(k, a, b) < 0 && rank_order(k, b, c) <= 0 ==> rank_order(k, a, c) < 0,
        rank_order(k, a, b) <= 0 && rank_order(k, b, c) < 0 ==> rank_order(k, a, c) < 0,
{
    crate::version_order::text_order_is_total(a, b, c);
    crate::version_order::text_order_is_total(b, c, a);
    lemma_text_order_eq(a, b);
    crate::order::lemma_text_order_antisym(a, b);
    lemma_list_then_text(sort_key(a), sort_key(b), sort_key(c), a, b, c);
    lemma_list_then_text(sort_key(b), sort_key(c), sort_key(a), b, c, a);
    lemma_list_then_text(sort_key(c), sort_key(a), sort_key(b), c, a, b);
    if a == b {
        assert(sort_key(a) == sort_key(b));
        lemma_list_then_text(sort_key(a), sort_key(a), sort_key(a), a, a, a);
    }
}

fn list_order_exec(x: &Vec<u64>, y: &Vec<u64>) -> (r: i8)
    ensures
        r == list_order(x@, y@),
{
    let mut i: usize = 0;
    assert(x@.skip(0) =~= x@);
    assert(y@.skip(0) =~= y@);
    while i < x.len() && i < y.len() && x[i] == y[i]
        invariant
            i <= x.len(),
            i <= y.len(),
            list_order(x@, y@) == list_order(x@.skip(i as int), y@.skip(i as int)),
        decreases x.len() - i,
    {
        assert(x@.skip(i as int).skip(1) =~= x@.skip(i + 1));
        assert(y@.skip(i as int).skip(1) =~= y@.skip(i + 1));
        i += 1;
    }
    if i == x.len() && i == y.len() {
        0
    } else if i == x.len() {
        -1
    } else if i == y.len() {
        1
    } else if x[i] < y[i] {
        -1
    } else {
        1
    }
}

fn rank_order_exec(k: Rank, a: &str, b: &str) -> (r: i8)
    ensures
        r == rank_order(k, a@, b@),
{
    match k {
        Rank::Text => text_order_str(a, b),
        Rank::LoaderVersion => {
            let ka = crate::version_parts::version_sort_key(a);
            let kb = crate::version_parts::version_sort_key(b);
            let o = list_order_exec(&ka, &kb);
            if o != 0 {
                o
            } else {
                text_order_str(a, b)
            }
        },
    }
}

/// Every text comes before the next, strictly.
pub open spec fn strictly_ascending(s: Seq<Seq<char>>, k: Rank) -> bool {
    forall|i: int, j: int| 0 <= i < j < s.len() ==> rank_order(k, s[i], s[j]) < 0
}

/// The two lists hold the same texts.
pub open spec fn same_texts(a: Seq<Seq<char>>, b: Seq<Seq<char>>) -> bool {
    forall|x: Seq<char>| a.contains(x) <==> b.contains(x)
}

/// The texts of `items`, each once, in ascending order: what sorting by `k`
/// and removing repeats gives.
pub fn sorted_unique(items: &Vec<String>, k: Rank) -> (r: Vec<String>)
    ensures
        strictly_ascending(string_views(r@), k),
        same_texts(string_views(r@), string_views(items@)),
{
    let ghost iv = string_views(items@);
    let mut out: Vec<String> = Vec::new();
    let mut i: usize = 0;
    while i < items.len()
        invariant
            i <= items.len(),
            iv == string_views(items@),
            strictly_ascending(string_views(out@), k),
            same_texts(string_views(out@), iv.take(i as int)),
        decreases items.len() - i,
    {
        let x = items[i].as_str();
        let ghost ov = string_views(out@);
        let mut j: usize = 0;
        while j < out.len() && rank_order_exec(k, out[j].as_str(), x) < 0
            invariant
                j <= out.len(),
                ov == string_views(out@),
                forall|m: int| 0 <= m < j ==> rank_order(k, #[trigger] ov[m], x@) < 0,
            decreases out.len() - j,
        {
            j += 1;
        }
        let ghost t = iv.take(i + 1);
        assert(t =~= iv.take(i as int).push(x@));
        if j < out.len() && rank_order_exec(k, out[j].as_str(), x) == 0 {
            proof {
                rank_is_total(k, ov[j as int], x@, x@);
                assert(ov[j as int] == x@);
                assert forall|y: Seq<char>| ov.contains(y) <==> t.contains(y) by {
                    if t.contains(y) {
                        let n = choose|n: int| 0 <= n < t.len() && t[n] == y;
                        if n < i {
                            assert(iv.take(i as int)[n] == y);
                        } else {
                            assert(ov[j as int] == y);
                        }
                    }
                    if ov.contains(y) {
                        assert(iv.take(i as int).contains(y));
                        let n = choose|n: int| 0 <= n < i && iv.take(i as int)[n] == y;
                        assert(t[n] == y);
                    }
                }
            }
        } else {
            proof {
                if j < out.len() {
                    rank_is_total(k, ov[j as int], x@, x@);
                }
                assert forall|m: int| j <= m < ov.len() implies rank_order(k, x@, #[trigger] ov[m]) < 0 by {
                    rank_is_total(k, x@, ov[j as int], ov[m]);
                    rank_is_total(k, ov[j as int], x@, ov[m]);
                }
            }
            out.insert(j, items[i].clone());
            proof {
                let nv = string_views(out@);
                assert(nv =~= ov.insert(j as int, x@));
                assert forall|a: int, b: int| 0 <= a < b < nv.len() implies rank_order(
                    k,
                    nv[a],
                    nv[b],
                ) < 0 by {
                    if b < j {
                        assert(nv[a] == ov[a] && nv[b] == ov[b]);
                    } else if b == j {
                        assert(nv[a] == ov[a] && nv[b] == x@);
                    } else if a < j {
                        assert(nv[a] == ov[a] && nv[b] == ov[b - 1]);
                        rank_is_total(k, ov[a], x@, ov[b - 1]);
                    } else if a == j {
                        assert(nv[a] == x@ && nv[b] == ov[b - 1]);
                    } else {
                        assert(nv[a] == ov[a - 1] && nv[b] == ov[b - 1]);
                    }
                }
                assert forall|y: Seq<char>| nv.contains(y) <==> t.contains(y) by {
                    if t.contains(y) {
                        let n = choose|n: int| 0 <= n < t.len() && t[n] == y;
                        if n < i {
                            assert(iv.take(i as int)[n] == y);
                            assert(iv.take(i as int).contains(y));
                            let q = choose|q: int| 0 <= q < ov.len() && ov[q] == y;
                            if q < j {
                                assert(nv[q] == y);
                            } else {
                                assert(nv[q + 1] == y);
                            }
                        } else {
                            assert(nv[j as int] == y);
                        }
                    }
                    if nv.contains(y) {
                        let q = choose|q: int| 0 <= q < nv.len() && nv[q] == y;
                        if q == j {
                            assert(t[i as int] == y);
                        } else {
                            let p = if q < j {
                                q
                            } else {
                                q - 1
                            };
                            assert(ov[p] == y);
                            assert(iv.take(i as int).contains(y));
                            let n = choose|n: int| 0 <= n < i && iv.take(i as int)[n] == y;
                            assert(t[n] == y);
                        }
                    }
                }
            }
        }
        i += 1;
    }
    assert(iv.take(items.len() as int) =~= iv);
    out
}

/// Every text comes after the next, strictly.
pub open spec fn strictly_descending(s: Seq<Seq<char>>, k: Rank) -> bool {
    forall|i: int, j: int| 0 <= i < j < s.len() ==> rank_order(k, s[i], s[j]) > 0
}

/// The texts of `items`, each once, in descending order.
pub fn sorted_unique_descending(items: &Vec<String>, k: Rank) -> (r: Vec<String>)
    ensures
        strictly_descending(string_views(r@), k),
        same_texts(string_views(r@), string_views(items@)),
{
    let asc = sorted_unique(items, k);
    let ghost av = string_views(asc@);
    let mut out: Vec<String> = Vec::new();
    let mut i: usize = asc.len();
    while i > 0
        invariant
            i <= asc.len(),
            av == string_views(asc@),
            out@.len() == asc.len() - i,
            forall|m: int| 0 <= m < out@.len() ==> #[trigger] out@[m]@ == av[asc.len() - 1 - m],
        decreases i,
    {
        i -= 1;
        out.push(asc[i].clone());
    }
    proof {
        let ov = string_views(out@);
        assert forall|a: int, b: int| 0 <= a < b < ov.len() implies rank_order(k, ov[a], ov[b]) > 0 by {
            assert(ov[a] == av[av.len() - 1 - a]);
            assert(ov[b] == av[av.len() - 1 - b]);
            rank_is_total(k, av[av.len() - 1 - b], av[av.len() - 1 - a], av[0]);
        }
        assert forall|y: Seq<char>| ov.contains(y) <==> av.contains(y) by {
            if ov.contains(y) {
                let q = choose|q: int| 0 <= q < ov.len() && ov[q] == y;
                assert(av[av.len() - 1 - q] == y);
            }
            if av.contains(y) {
                let q = choose|q: int| 0 <= q < av.len() && av[q] == y;
                assert(ov[av.len() - 1 - q] == y);
            }
        }
    }
    out
}

/// A strictly ascending list is determined by its texts: two such lists with
/// the same texts are equal, so `sorted_unique` has exactly one possible result.
pub proof fn ascending_lists_are_determined(a: Seq<Seq<char>>, b: Seq<Seq<char>>, k: Rank)
    requires
        strictly_ascending(a, k),
        strictly_ascending(b, k),
        same_texts(a, b),
    ensures
        a == b,
    decreases a.len() + b.len(),
{
    if a.len() == 0 || b.len() == 0 {
        if a.len() > 0 {
            assert(a.contains(a[0]));
        }
        if b.len() > 0 {
            assert(b.contains(b[0]));
        }
        assert(a =~= b);
    } else {
        assert(a.contains(a[0]));
        assert(b.contains(b[0]));
        let i = choose|i: int| 0 <= i < b.len() && b[i] == a[0];
        let j = choose|j: int| 0 <= j < a.len() && a[j] == b[0];
        if i > 0 {
            rank_is_total(k, b[0], b[i], b[0]);
            if j > 0 {
                rank_is_total(k, a[0], a[j], a[0]);
                rank_is_total(k, b[0], a[0], b[0]);
            }
        }
        if j > 0 && i == 0 {
            rank_is_total(k, a[0], a[j], a[0]);
        }
        assert(a[0] == b[0]);
        let a1 = a.skip(1);
        let b1 = b.skip(1);
        assert forall|x: Seq<char>| a1.contains(x) <==> b1.contains(x) by {
            if a1.contains(x) {
                let q = choose|q: int| 0 <= q < a1.len() && a1[q] == x;
                assert(a[q + 1] == x);
                assert(a.contains(x));
                let r = choose|r: int| 0 <= r < b.len() && b[r] == x;
                if r == 0 {
                    rank_is_total(k, a[0], a[q + 1], a[0]);
                }
                assert(b1[r - 1] == x);
            }
            if b1.contains(x) {
                let q = choose|q: int| 0 <= q < b1.len() && b1[q] == x;
                assert(b[q + 1] == x);
                assert(b.contains(x));
                let r = choose|r: int| 0 <= r < a.len() && a[r] == x;
                if r == 0 {
                    rank_is_total(k, b[0], b[q + 1], b[0]);
                }
                assert(a1[r - 1] == x);
            }
        }
        assert forall|p: int, q: int| 0 <= p < q < a1.len() implies rank_order(k, a1[p], a1[q]) < 0 by {
            assert(a1[p] == a[p + 1] && a1[q] == a[q + 1]);
        }
        assert forall|p: int, q: int| 0 <= p < q < b1.len() implies rank_order(k, b1[p], b1[q]) < 0 by {
            assert(b1[p] == b[p + 1] && b1[q] == b[q + 1]);
        }
        ascending_lists_are_determined(a1, b1, k);
        assert(a =~= seq![a[0]] + a1);
        assert(b =~= seq![b[0]] + b1);
    }
}

} // verus!
