//! A version file that inherits from a parent: its top-level entries are laid
//! over the parent's, key by key.
use vstd::prelude::*;

use crate::text::str_eq;

verus! {

/// No key occurs twice (as in a JSON object).
pub open spec fn unique_keys<V>(es: Seq<(String, V)>) -> bool {
    forall|i: int, j: int| 0 <= i < j < es.len() ==> #[trigger] es[i].0@ != #[trigger] es[j].0@
}

/// Some entry has the key `k`.
pub open spec fn has_key<V>(es: Seq<(String, V)>, k: Seq<char>) -> bool {
    exists|i: int| 0 <= i < es.len() && #[trigger] es[i].0@ == k
}

/// What laying `child` over `parent` gives: each of the child's entries, each
/// of the parent's entries whose key the child does not have, and nothing else.
pub open spec fn overlays<V>(r: Seq<(String, V)>, parent: Seq<(String, V)>, child: Seq<(String, V)>) -> bool {
    &&& unique_keys(r)
    &&& forall|i: int| 0 <= i < child.len() ==> r.contains(#[trigger] child[i])
    &&& forall|i: int|
        0 <= i < parent.len() && !has_key(child, parent[i].0@) ==> r.contains(#[trigger] parent[i])
    &&& forall|j: int|
        0 <= j < r.len() ==> child.contains(#[trigger] r[j]) || (parent.contains(r[j]) && !has_key(
            child,
            r[j].0@,
        ))
}

/// The position of key `k` in `es`, if it is there.
fn find_key<V>(es: &Vec<(String, V)>, k: &str) -> (r: Option<usize>)
    ensures
        match r {
            Some(i) => i < es@.len() && es@[i as int].0@ == k@,
            None => !has_key(es@, k@),
        },
{
    let mut i: usize = 0;
    while i < es.len()
        invariant
            i <= es@.len(),
            forall|j: int| 0 <= j < i ==> es@[j].0@ != k@,
        decreases es@.len() - i,
    {
        if str_eq(es[i].0.as_str(), k) {
            return Some(i);
        }
        i += 1;
    }
    None
}

/// Lays the entries of a version file over those of its parent: a key of
/// the child replaces the parent's entry, the parent's other entries stay.
pub fn overlay_entries<V>(parent: Vec<(String, V)>, child: Vec<(String, V)>) -> (r: Vec<(String, V)>)
    requires
        unique_keys(parent@),
        unique_keys(child@),
    ensures
        overlays(r@, parent@, child@),
{
    let ghost p = parent@;
    let ghost c = child@;
    let mut r = parent;
    let mut rest = child;
    while rest.len() > 0
        invariant
            p == parent@,
            c == child@,
            unique_keys(p),
            unique_keys(c),
            rest@.len() <= c.len(),
            rest@ == c.take(rest@.len() as int),
            unique_keys(r@),
            forall|i: int| rest@.len() <= i < c.len() ==> r@.contains(#[trigger] c[i]),
            forall|i: int|
                0 <= i < p.len() && !has_key(c.skip(rest@.len() as int), p[i].0@) ==> r@.contains(
                    #[trigger] p[i],
                ),
            forall|j: int|
                0 <= j < r@.len() ==> c.skip(rest@.len() as int).contains(#[trigger] r@[j]) || (
                p.contains(r@[j]) && !has_key(c.skip(rest@.len() as int), r@[j].0@)),
        decreases rest@.len(),
    {
        let ghost m = rest@.len();
        let ghost d = c.skip(m as int);
        let ghost d2 = c.skip(m - 1);
        let ghost r0 = r@;
        let entry = rest.pop().unwrap();
        assert(entry == c[m - 1]);
        assert(d2 =~= seq![entry] + d);
        assert(rest@ =~= c.take(m - 1));
        assert forall|key: Seq<char>| has_key(d2, key) <==> (has_key(d, key) || key == entry.0@) by {
            if has_key(d2, key) {
                let t = choose|t: int| 0 <= t < d2.len() && #[trigger] d2[t].0@ == key;
                if t > 0 {
                    assert(d[t - 1].0@ == key);
                }
            }
            if has_key(d, key) {
                let t = choose|t: int| 0 <= t < d.len() && #[trigger] d[t].0@ == key;
                assert(d2[t + 1].0@ == key);
            }
            if key == entry.0@ {
                assert(d2[0].0@ == key);
            }
        }
        assert forall|e: (String, V)| #[trigger] d2.contains(e) <==> (d.contains(e) || e == entry) by {
            if d2.contains(e) {
                let t = choose|t: int| 0 <= t < d2.len() && d2[t] == e;
                if t > 0 {
                    assert(d[t - 1] == e);
                }
            }
            if d.contains(e) {
                let t = choose|t: int| 0 <= t < d.len() && d[t] == e;
                assert(d2[t + 1] == e);
            }
            if e == entry {
                assert(d2[0] == e);
            }
        }
        match find_key(&r, entry.0.as_str()) {
            Some(f) => {
                let ghost key = entry.0@;
                r.set(f, entry);
                assert(r@ == r0.update(f as int, entry));
                assert forall|i: int| m - 1 <= i < c.len() implies r@.contains(#[trigger] c[i]) by {
                    if i == m - 1 {
                        assert(r@[f as int] == c[i]);
                    } else {
                        let g = choose|g: int| 0 <= g < r0.len() && r0[g] == c[i];
                        assert(c[i].0@ != c[m - 1].0@);
                        assert(g != f);
                        assert(r@[g] == c[i]);
                    }
                }
                assert forall|i: int|
                    0 <= i < p.len() && !has_key(d2, p[i].0@) implies r@.contains(#[trigger] p[i]) by {
                    assert(!has_key(d, p[i].0@));
                    assert(r0.contains(p[i]));
                    let g = choose|g: int| 0 <= g < r0.len() && r0[g] == p[i];
                    assert(g != f);
                    assert(r@[g] == p[i]);
                }
                assert forall|j: int| 0 <= j < r@.len() implies d2.contains(#[trigger] r@[j]) || (
                p.contains(r@[j]) && !has_key(d2, r@[j].0@)) by {
                    if j != f {
                        assert(r@[j] == r0[j]);
                        assert(r0[j].0@ != r0[f as int].0@);
                    }
                }
                assert forall|a: int, b: int| 0 <= a < b < r@.len() implies #[trigger] r@[a].0@
                    != #[trigger] r@[b].0@ by {
                    assert(r0[a].0@ != r0[b].0@);
                }
            },
            None => {
                r.push(entry);
                assert(r@ == r0.push(entry));
                assert forall|i: int| m - 1 <= i < c.len() implies r@.contains(#[trigger] c[i]) by {
                    if i == m - 1 {
                        assert(r@[r0.len() as int] == c[i]);
                    } else {
                        let g = choose|g: int| 0 <= g < r0.len() && r0[g] == c[i];
                        assert(r@[g] == c[i]);
                    }
                }
                assert forall|i: int|
                    0 <= i < p.len() && !has_key(d2, p[i].0@) implies r@.contains(#[trigger] p[i]) by {
                    assert(!has_key(d, p[i].0@));
                    assert(r0.contains(p[i]));
                    let g = choose|g: int| 0 <= g < r0.len() && r0[g] == p[i];
                    assert(r@[g] == p[i]);
                }
                assert forall|j: int| 0 <= j < r@.len() implies d2.contains(#[trigger] r@[j]) || (
                p.contains(r@[j]) && !has_key(d2, r@[j].0@)) by {
                    if j < r0.len() {
                        assert(r@[j] == r0[j]);
                        assert(r0[j].0@ != entry.0@);
                    }
                }
                assert forall|a: int, b: int| 0 <= a < b < r@.len() implies #[trigger] r@[a].0@
                    != #[trigger] r@[b].0@ by {
                    if b < r0.len() {
                        assert(r0[a].0@ != r0[b].0@);
                    } else {
                        assert(r0[a].0@ != entry.0@);
                    }
                }
            },
        }
    }
    assert(c.skip(0) =~= c);
    r
}

} // verus!
