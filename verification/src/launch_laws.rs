//! Laws of the launch-argument functions.
use vstd::prelude::*;

use crate::launch_args::{
    has_arg, has_pair, modern_forge_pairs, property_prefix, with_arg,
    with_pair, with_pairs, with_property, without_prefix, workarounds_of,
};
use crate::model::{Instance, LoaderType};
use crate::text::seq_starts_with;

verus! {

/// Appending keeps every argument and every adjacent pair.
proof fn lemma_extend_keeps_pair(a: Seq<Seq<char>>, t: Seq<Seq<char>>, flag: Seq<char>, value: Seq<char>)
    requires
        has_pair(a, flag, value),
    ensures
        has_pair(a + t, flag, value),
{
    let b = a + t;
    if has_arg(a, flag + "="@ + value) {
        let i = choose|i: int| 0 <= i < a.len() && a[i] == flag + "="@ + value;
        assert(b[i] == a[i]);
    } else {
        let i = choose|i: int| 0 <= i && i + 1 < a.len() && #[trigger] a[i] == flag && a[i + 1] == value;
        assert(b[i] == a[i] && b[i + 1] == a[i + 1]);
    }
}

proof fn lemma_extend_keeps_arg(a: Seq<Seq<char>>, t: Seq<Seq<char>>, x: Seq<char>)
    requires
        has_arg(a, x),
    ensures
        has_arg(a + t, x),
{
    let i = choose|i: int| 0 <= i < a.len() && a[i] == x;
    assert((a + t)[i] == a[i]);
}

/// `with_pair` only ever appends.
proof fn lemma_with_pair_extends(a: Seq<Seq<char>>, flag: Seq<char>, value: Seq<char>)
    ensures
        has_pair(with_pair(a, flag, value), flag, value),
        exists|t: Seq<Seq<char>>| with_pair(a, flag, value) == a + t,
{
    if has_pair(a, flag, value) {
        assert(a == a + Seq::<Seq<char>>::empty());
    } else {
        let b = a + seq![flag, value];
        assert(b[a.len() as int] == flag && b[a.len() as int + 1] == value);
    }
}

/// After `with_pairs`, every pair of the list is present, and the input is a prefix.
proof fn lemma_with_pairs_present(a: Seq<Seq<char>>, ps: Seq<(Seq<char>, Seq<char>)>)
    ensures
        forall|k: int| 0 <= k < ps.len() ==> has_pair(with_pairs(a, ps), #[trigger] ps[k].0, ps[k].1),
    decreases ps.len(),
{
    if ps.len() > 0 {
        let prev = with_pairs(a, ps.drop_last());
        lemma_with_pairs_present(a, ps.drop_last());
        lemma_with_pair_extends(prev, ps.last().0, ps.last().1);
        let t = choose|t: Seq<Seq<char>>| with_pair(prev, ps.last().0, ps.last().1) == prev + t;
        assert forall|k: int| 0 <= k < ps.len() implies has_pair(
            with_pairs(a, ps),
            #[trigger] ps[k].0,
            ps[k].1,
        ) by {
            if k < ps.len() - 1 {
                assert(ps.drop_last()[k] == ps[k]);
                lemma_extend_keeps_pair(prev, t, ps[k].0, ps[k].1);
            }
        }
    }
}

/// `with_pairs` changes nothing when every pair is present.
proof fn lemma_with_pairs_noop(a: Seq<Seq<char>>, ps: Seq<(Seq<char>, Seq<char>)>)
    requires
        forall|k: int| 0 <= k < ps.len() ==> has_pair(a, #[trigger] ps[k].0, ps[k].1),
    ensures
        with_pairs(a, ps) == a,
    decreases ps.len(),
{
    if ps.len() > 0 {
        assert forall|k: int| 0 <= k < ps.drop_last().len() implies has_pair(
            a,
            #[trigger] ps.drop_last()[k].0,
            ps.drop_last()[k].1,
        ) by {
            assert(ps.drop_last()[k] == ps[k]);
        }
        lemma_with_pairs_noop(a, ps.drop_last());
        assert(has_pair(a, ps[ps.len() - 1].0, ps[ps.len() - 1].1));
    }
}

/// Filtering distributes over concatenation.
proof fn lemma_without_prefix_concat(s: Seq<Seq<char>>, t: Seq<Seq<char>>, p: Seq<char>)
    ensures
        without_prefix(s + t, p) == without_prefix(s, p) + without_prefix(t, p),
    decreases t.len(),
{
    if t.len() == 0 {
        assert(s + t =~= s);
        assert(without_prefix(s, p) + without_prefix(t, p) =~= without_prefix(s, p));
    } else {
        assert((s + t).drop_last() =~= s + t.drop_last());
        assert((s + t).last() == t.last());
        lemma_without_prefix_concat(s, t.drop_last(), p);
        let a = without_prefix(s, p);
        let b = without_prefix(t.drop_last(), p);
        if !seq_starts_with(t.last(), p) {
            assert((a + b).push(t.last()) =~= a + b.push(t.last()));
        }
    }
}

/// Filtering keeps only elements of the input, and none that start with `p`.
proof fn lemma_without_prefix_elements(s: Seq<Seq<char>>, p: Seq<char>)
    ensures
        forall|j: int|
            0 <= j < without_prefix(s, p).len() ==> !seq_starts_with(
                #[trigger] without_prefix(s, p)[j],
                p,
            ) && exists|i: int| 0 <= i < s.len() && s[i] == without_prefix(s, p)[j],
    decreases s.len(),
{
    if s.len() > 0 {
        lemma_without_prefix_elements(s.drop_last(), p);
        let r = without_prefix(s.drop_last(), p);
        assert forall|j: int| 0 <= j < without_prefix(s, p).len() implies !seq_starts_with(
            #[trigger] without_prefix(s, p)[j],
            p,
        ) && exists|i: int| 0 <= i < s.len() && s[i] == without_prefix(s, p)[j] by {
            if j < r.len() {
                assert(without_prefix(s, p)[j] == r[j]);
                let i = choose|i: int| 0 <= i < s.drop_last().len() && s.drop_last()[i] == r[j];
                assert(s[i] == s.drop_last()[i]);
            } else {
                assert(s[s.len() - 1] == without_prefix(s, p)[j]);
            }
        }
    }
}

/// Filtering a list none of whose elements starts with `p` changes nothing.
proof fn lemma_without_prefix_noop(s: Seq<Seq<char>>, p: Seq<char>)
    requires
        forall|i: int| 0 <= i < s.len() ==> !seq_starts_with(#[trigger] s[i], p),
    ensures
        without_prefix(s, p) == s,
    decreases s.len(),
{
    if s.len() > 0 {
        lemma_without_prefix_noop(s.drop_last(), p);
        assert(s.drop_last().push(s.last()) =~= s);
    } else {
        assert(s =~= Seq::<Seq<char>>::empty());
    }
}

/// Filtering keeps an argument that does not start with `p`, and keeps two
/// such adjacent arguments adjacent.
proof fn lemma_without_prefix_keeps(s: Seq<Seq<char>>, p: Seq<char>, flag: Seq<char>, value: Seq<char>)
    requires
        has_pair(s, flag, value),
        !seq_starts_with(flag, p),
        !seq_starts_with(value, p),
        !seq_starts_with(flag + "="@ + value, p),
    ensures
        has_pair(without_prefix(s, p), flag, value),
    decreases s.len(),
{
    let r = without_prefix(s, p);
    if has_arg(s, flag + "="@ + value) {
        lemma_keeps_arg(s, p, flag + "="@ + value);
    } else {
        let i = choose|i: int| 0 <= i && i + 1 < s.len() && #[trigger] s[i] == flag && s[i + 1] == value;
        if i + 2 == s.len() {
            let d = s.drop_last();
            assert(d.last() == flag);
            assert(d.drop_last().push(d.last()) =~= d);
            let q = without_prefix(d.drop_last(), p);
            assert(without_prefix(d, p) == q.push(flag));
            assert(r == q.push(flag).push(value));
            assert(r[q.len() as int] == flag && r[q.len() as int + 1] == value);
        } else {
            let d = s.drop_last();
            assert(d[i] == flag && d[i + 1] == value);
            lemma_without_prefix_keeps(d, p, flag, value);
            let t = if seq_starts_with(s.last(), p) {
                Seq::<Seq<char>>::empty()
            } else {
                seq![s.last()]
            };
            assert(r =~= without_prefix(d, p) + t);
            lemma_extend_keeps_pair(without_prefix(d, p), t, flag, value);
        }
    }
}

proof fn lemma_keeps_arg(s: Seq<Seq<char>>, p: Seq<char>, x: Seq<char>)
    requires
        has_arg(s, x),
        !seq_starts_with(x, p),
    ensures
        has_arg(without_prefix(s, p), x),
    decreases s.len(),
{
    let r = without_prefix(s, p);
    if s.last() == x {
        let q = without_prefix(s.drop_last(), p);
        assert(r == q.push(x));
        assert(r[q.len() as int] == x);
    } else {
        let i = choose|i: int| 0 <= i < s.len() && s[i] == x;
        assert(s.drop_last()[i] == x);
        lemma_keeps_arg(s.drop_last(), p, x);
        let t = if seq_starts_with(s.last(), p) {
            Seq::<Seq<char>>::empty()
        } else {
            seq![s.last()]
        };
        assert(r =~= without_prefix(s.drop_last(), p) + t);
        lemma_extend_keeps_arg(without_prefix(s.drop_last(), p), t, x);
    }
}

/// Filtering `g + qs` with none of `qs` starting with `p`, then adding `q`.
proof fn lemma_filter_then_push(g: Seq<Seq<char>>, qs: Seq<Seq<char>>, p: Seq<char>, q: Seq<char>)
    requires
        forall|i: int| 0 <= i < qs.len() ==> !seq_starts_with(#[trigger] qs[i], p),
    ensures
        without_prefix(g + qs, p).push(q) == without_prefix(g, p) + qs + seq![q],
{
    lemma_without_prefix_concat(g, qs, p);
    lemma_without_prefix_noop(qs, p);
    assert(without_prefix(g, p) + qs + seq![q] =~= (without_prefix(g, p) + qs).push(q));
}

/// Setting a property once more moves its setting to the end.
proof fn lemma_rotate(f: Seq<Seq<char>>, q: Seq<char>, qs: Seq<Seq<char>>, p: Seq<char>)
    requires
        forall|i: int| 0 <= i < f.len() ==> !seq_starts_with(#[trigger] f[i], p),
        forall|i: int| 0 <= i < qs.len() ==> !seq_starts_with(#[trigger] qs[i], p),
        seq_starts_with(q, p),
    ensures
        without_prefix(f + seq![q] + qs, p).push(q) == f + qs + seq![q],
{
    lemma_without_prefix_concat(f + seq![q], qs, p);
    lemma_without_prefix_concat(f, seq![q], p);
    lemma_without_prefix_noop(f, p);
    lemma_without_prefix_noop(qs, p);
    assert(seq![q].drop_last() =~= Seq::<Seq<char>>::empty());
    assert(seq![q].last() == q);
    assert(without_prefix(Seq::<Seq<char>>::empty(), p) =~= Seq::<Seq<char>>::empty());
    assert(without_prefix(seq![q], p) =~= Seq::<Seq<char>>::empty());
    assert(f + qs + seq![q] =~= (f + Seq::<Seq<char>>::empty() + qs).push(q));
}

/// A text that differs from `p` at a position inside both does not start with `p`.
proof fn lemma_differs_at(a: Seq<char>, p: Seq<char>, k: int)
    requires
        0 <= k < p.len(),
        k < a.len(),
        a[k] != p[k],
    ensures
        !seq_starts_with(a, p),
{
    if seq_starts_with(a, p) {
        assert(a.subrange(0, p.len() as int)[k] == a[k]);
    }
}

/// What starts with `p` itself.
proof fn lemma_starts_with_self(p: Seq<char>, v: Seq<char>)
    ensures
        seq_starts_with(p + v, p),
{
    assert((p + v).subrange(0, p.len() as int) =~= p);
}

/// Texts that do not begin with `-D` set no property.
proof fn lemma_not_property(a: Seq<char>, prop: Seq<char>)
    requires
        a.len() >= 2,
        a[0] != '-' || a[1] != 'D',
    ensures
        !seq_starts_with(a, property_prefix(prop)),
{
    reveal_strlit("-D");
    let p = property_prefix(prop);
    assert(p[0] == '-' && p[1] == 'D');
    if a[0] != '-' {
        lemma_differs_at(a, p, 0);
    } else {
        lemma_differs_at(a, p, 1);
    }
}

/// Filtering keeps a list clear of texts starting with `r`.
proof fn lemma_filter_keeps_clear(s: Seq<Seq<char>>, p: Seq<char>, r: Seq<char>)
    requires
        forall|i: int| 0 <= i < s.len() ==> !seq_starts_with(#[trigger] s[i], r),
    ensures
        forall|j: int|
            0 <= j < without_prefix(s, p).len() ==> !seq_starts_with(
                #[trigger] without_prefix(s, p)[j],
                r,
            ),
{
    lemma_without_prefix_elements(s, p);
    assert forall|j: int| 0 <= j < without_prefix(s, p).len() implies !seq_starts_with(
        #[trigger] without_prefix(s, p)[j],
        r,
    ) by {
        let i = choose|i: int| 0 <= i < s.len() && s[i] == without_prefix(s, p)[j];
        assert(!seq_starts_with(s[i], r));
    }
}

/// The flags and values of the modern Forge pairs start with `--` and with
/// a letter.
proof fn lemma_forge_pairs_shape()
    ensures
        forall|k: int|
            0 <= k < modern_forge_pairs().len() ==> {
                let (f, v) = #[trigger] modern_forge_pairs()[k];
                &&& f.len() >= 2
                &&& f[0] == '-'
                &&& f[1] == '-'
                &&& v.len() >= 2
                &&& v[0] != '-'
            },
{
    reveal_strlit("--add-modules");
    reveal_strlit("--add-opens");
    reveal_strlit("--add-exports");
    reveal_strlit("ALL-SYSTEM");
    reveal_strlit("java.base/java.util.jar=ALL-UNNAMED");
    reveal_strlit("java.base/java.lang=ALL-UNNAMED");
    reveal_strlit("java.base/java.util=ALL-UNNAMED");
    reveal_strlit("java.base/java.lang.invoke=ALL-UNNAMED");
    reveal_strlit("java.base/java.lang.reflect=ALL-UNNAMED");
    reveal_strlit("java.base/java.nio.file=ALL-UNNAMED");
    reveal_strlit("java.base/sun.security.util=ALL-UNNAMED");
    reveal_strlit("java.base/sun.security.action=ALL-UNNAMED");
    reveal_strlit("java.base/java.io=ALL-UNNAMED");
    reveal_strlit("java.base/java.net=ALL-UNNAMED");
    reveal_strlit("java.base/sun.nio.ch=ALL-UNNAMED");
}

/// What the NeoForge workarounds rely on being present: the module flags
/// (when `with_pairs_needed`) and the two NeoForge module options.
pub open spec fn neo_present(x: Seq<Seq<char>>, pairs_needed: bool) -> bool {
    &&& pairs_needed ==> forall|k: int|
        0 <= k < modern_forge_pairs().len() ==> has_pair(
            x,
            #[trigger] modern_forge_pairs()[k].0,
            modern_forge_pairs()[k].1,
        )
    &&& has_arg(x, "--add-modules=jdk.naming.dns"@)
    &&& has_arg(x, "--add-opens=java.base/java.util.jar=ALL-UNNAMED"@)
}

/// Setting a property keeps what the workarounds rely on.
proof fn lemma_property_keeps(x: Seq<Seq<char>>, prop: Seq<char>, val: Seq<char>, pairs_needed: bool)
    requires
        neo_present(x, pairs_needed),
    ensures
        neo_present(with_property(x, prop, val), pairs_needed),
{
    let p = property_prefix(prop);
    let w = without_prefix(x, p);
    let q = p + val;
    lemma_forge_pairs_shape();
    if pairs_needed {
        assert forall|k: int| 0 <= k < modern_forge_pairs().len() implies has_pair(
            with_property(x, prop, val),
            #[trigger] modern_forge_pairs()[k].0,
            modern_forge_pairs()[k].1,
        ) by {
            let (f, v) = modern_forge_pairs()[k];
            lemma_not_property(f, prop);
            lemma_not_property(v, prop);
            let fv = f + "="@ + v;
            assert(fv[0] == f[0] && fv[1] == f[1]);
            lemma_not_property(fv, prop);
            lemma_without_prefix_keeps(x, p, f, v);
            lemma_extend_keeps_pair(w, seq![q], f, v);
            assert(w + seq![q] =~= w.push(q));
        }
    }
    reveal_strlit("--add-modules=jdk.naming.dns");
    reveal_strlit("--add-opens=java.base/java.util.jar=ALL-UNNAMED");
    lemma_not_property("--add-modules=jdk.naming.dns"@, prop);
    lemma_not_property("--add-opens=java.base/java.util.jar=ALL-UNNAMED"@, prop);
    lemma_keeps_arg(x, p, "--add-modules=jdk.naming.dns"@);
    lemma_keeps_arg(x, p, "--add-opens=java.base/java.util.jar=ALL-UNNAMED"@);
    assert(w + seq![q] =~= w.push(q));
    lemma_extend_keeps_arg(w, seq![q], "--add-modules=jdk.naming.dns"@);
    lemma_extend_keeps_arg(w, seq![q], "--add-opens=java.base/java.util.jar=ALL-UNNAMED"@);
}

/// The four property prefixes the NeoForge workarounds set, and their settings.
spec fn neo_prefix(k: int) -> Seq<char> {
    if k == 0 {
        property_prefix("ignoreList"@)
    } else if k == 1 {
        property_prefix("fml.earlyprogresswindow"@)
    } else if k == 2 {
        property_prefix("forge.earlywindow"@)
    } else {
        property_prefix("neoforge.earlydisplay"@)
    }
}

spec fn neo_setting(k: int) -> Seq<char> {
    if k == 0 {
        neo_prefix(0) + "bootstraplauncher,neon-fml"@
    } else {
        neo_prefix(k) + "false"@
    }
}

/// No setting of one property starts with the prefix of another.
proof fn lemma_settings_distinct()
    ensures
        forall|j: int, k: int|
            0 <= j < 4 && 0 <= k < 4 && j != k ==> !seq_starts_with(
                #[trigger] neo_setting(j),
                #[trigger] neo_prefix(k),
            ),
        forall|k: int| 0 <= k < 4 ==> seq_starts_with(#[trigger] neo_setting(k), neo_prefix(k)),
{
    reveal_strlit("-D");
    reveal_strlit("=");
    reveal_strlit("ignoreList");
    reveal_strlit("fml.earlyprogresswindow");
    reveal_strlit("forge.earlywindow");
    reveal_strlit("neoforge.earlydisplay");
    assert forall|j: int, k: int|
        0 <= j < 4 && 0 <= k < 4 && j != k implies !seq_starts_with(
            #[trigger] neo_setting(j),
            #[trigger] neo_prefix(k),
        ) by {
        let a = neo_setting(j);
        let p = neo_prefix(k);
        assert(a[2] == neo_prefix(j)[2] && a[3] == neo_prefix(j)[3]);
        if (j == 1 && k == 2) || (j == 2 && k == 1) {
            lemma_differs_at(a, p, 3);
        } else {
            lemma_differs_at(a, p, 2);
        }
    }
    assert forall|k: int| 0 <= k < 4 implies seq_starts_with(#[trigger] neo_setting(k), neo_prefix(k)) by {
        if k == 0 {
            lemma_starts_with_self(neo_prefix(0), "bootstraplauncher,neon-fml"@);
        } else {
            lemma_starts_with_self(neo_prefix(k), "false"@);
        }
    }
}

proof fn lemma_clear_of_others(qs: Seq<Seq<char>>, idx: Seq<int>, k: int)
    requires
        qs.len() == idx.len(),
        forall|i: int| 0 <= i < qs.len() ==> qs[i] == neo_setting(#[trigger] idx[i]) && 0 <= idx[i] < 4
            && idx[i] != k,
        0 <= k < 4,
    ensures
        forall|i: int| 0 <= i < qs.len() ==> !seq_starts_with(#[trigger] qs[i], neo_prefix(k)),
{
    lemma_settings_distinct();
    assert forall|i: int| 0 <= i < qs.len() implies !seq_starts_with(#[trigger] qs[i], neo_prefix(k)) by {
        assert(qs[i] == neo_setting(idx[i]));
    }
}

/// Applying the four property settings to a list twice gives what applying
/// them once gives.
proof fn lemma_properties_idempotent(c: Seq<Seq<char>>)
    ensures
        ({
            let x = with_property(
                with_property(
                    with_property(
                        with_property(c, "ignoreList"@, "bootstraplauncher,neon-fml"@),
                        "fml.earlyprogresswindow"@,
                        "false"@,
                    ),
                    "forge.earlywindow"@,
                    "false"@,
                ),
                "neoforge.earlydisplay"@,
                "false"@,
            );
            with_property(
                with_property(
                    with_property(
                        with_property(x, "ignoreList"@, "bootstraplauncher,neon-fml"@),
                        "fml.earlyprogresswindow"@,
                        "false"@,
                    ),
                    "forge.earlywindow"@,
                    "false"@,
                ),
                "neoforge.earlydisplay"@,
                "false"@,
            ) == x
        }),
{
    lemma_settings_distinct();
    let (p0, p1, p2, p3) = (neo_prefix(0), neo_prefix(1), neo_prefix(2), neo_prefix(3));
    let (q0, q1, q2, q3) = (neo_setting(0), neo_setting(1), neo_setting(2), neo_setting(3));
    let e = Seq::<Seq<char>>::empty();
    let g0 = without_prefix(c, p0);
    let g1 = without_prefix(g0, p1);
    let g2 = without_prefix(g1, p2);
    let g3 = without_prefix(g2, p3);
    // Building up: the settings gather at the end in order.
    let x0 = g0.push(q0);
    assert(x0 =~= g0 + seq![q0]);
    lemma_clear_of_others(seq![q0], seq![0], 1);
    lemma_filter_then_push(g0, seq![q0], p1, q1);
    let x1 = g1 + seq![q0] + seq![q1];
    assert(x1 =~= g1 + seq![q0, q1]);
    lemma_clear_of_others(seq![q0, q1], seq![0, 1], 2);
    lemma_filter_then_push(g1, seq![q0, q1], p2, q2);
    let x2 = g2 + seq![q0, q1] + seq![q2];
    assert(x2 =~= g2 + seq![q0, q1, q2]);
    lemma_clear_of_others(seq![q0, q1, q2], seq![0, 1, 2], 3);
    lemma_filter_then_push(g2, seq![q0, q1, q2], p3, q3);
    let x = g3 + seq![q0, q1, q2] + seq![q3];
    assert(x =~= g3 + seq![q0, q1, q2, q3]);
    // The kept arguments start with none of the prefixes.
    lemma_without_prefix_elements(c, p0);
    lemma_without_prefix_elements(g0, p1);
    lemma_without_prefix_elements(g1, p2);
    lemma_without_prefix_elements(g2, p3);
    lemma_filter_keeps_clear(g0, p1, p0);
    lemma_filter_keeps_clear(g1, p2, p0);
    lemma_filter_keeps_clear(g2, p3, p0);
    lemma_filter_keeps_clear(g1, p2, p1);
    lemma_filter_keeps_clear(g2, p3, p1);
    lemma_filter_keeps_clear(g2, p3, p2);
    // Applying the settings again rotates them back into place.
    lemma_clear_of_others(seq![q1, q2, q3], seq![1, 2, 3], 0);
    lemma_rotate(g3, q0, seq![q1, q2, q3], p0);
    assert(g3 + seq![q0, q1, q2, q3] =~= g3 + seq![q0] + seq![q1, q2, q3]);
    let y0 = g3 + seq![q1, q2, q3] + seq![q0];
    assert(y0 =~= g3 + seq![q1] + seq![q2, q3, q0]);
    lemma_clear_of_others(seq![q2, q3, q0], seq![2, 3, 0], 1);
    lemma_rotate(g3, q1, seq![q2, q3, q0], p1);
    let y1 = g3 + seq![q2, q3, q0] + seq![q1];
    assert(y1 =~= g3 + seq![q2] + seq![q3, q0, q1]);
    lemma_clear_of_others(seq![q3, q0, q1], seq![3, 0, 1], 2);
    lemma_rotate(g3, q2, seq![q3, q0, q1], p2);
    let y2 = g3 + seq![q3, q0, q1] + seq![q2];
    assert(y2 =~= g3 + seq![q3] + seq![q0, q1, q2]);
    lemma_clear_of_others(seq![q0, q1, q2], seq![0, 1, 2], 3);
    lemma_rotate(g3, q3, seq![q0, q1, q2], p3);
    assert(g3 + seq![q0, q1, q2] + seq![q3] =~= x);
}

/// `with_arg` only ever appends, and leaves the argument present.
proof fn lemma_with_arg_extends(a: Seq<Seq<char>>, x: Seq<char>)
    ensures
        has_arg(with_arg(a, x), x),
        exists|t: Seq<Seq<char>>| with_arg(a, x) == a + t,
{
    if has_arg(a, x) {
        assert(a == a + Seq::<Seq<char>>::empty());
    } else {
        assert(a.push(x) == a + seq![x]);
        assert(a.push(x)[a.len() as int] == x);
    }
}

/// Adding the loader workarounds a second time changes nothing: the module
/// flags and options are already present, and each property is already set
/// to its value.
pub proof fn loader_workarounds_are_idempotent(instance: Instance, a: Seq<Seq<char>>)
    ensures
        workarounds_of(instance, workarounds_of(instance, a)) == workarounds_of(instance, a),
{
    let ps = modern_forge_pairs();
    if !(instance.loader == LoaderType::Forge || instance.loader == LoaderType::NeoForge) {
        return;
    }
    let j17 = crate::version_parts::java_for_minecraft(instance.minecraft_version@) >= 17;
    let b = if j17 {
        with_pairs(a, ps)
    } else {
        a
    };
    if j17 {
        lemma_with_pairs_present(a, ps);
    }
    if instance.loader != LoaderType::NeoForge {
        if j17 {
            lemma_with_pairs_noop(b, ps);
        }
        return;
    }
    let dns = "--add-modules=jdk.naming.dns"@;
    let jar = "--add-opens=java.base/java.util.jar=ALL-UNNAMED"@;
    let c1 = with_arg(b, dns);
    let c = with_arg(c1, jar);
    lemma_with_arg_extends(b, dns);
    lemma_with_arg_extends(c1, jar);
    let t1 = choose|t: Seq<Seq<char>>| with_arg(b, dns) == b + t;
    let t2 = choose|t: Seq<Seq<char>>| with_arg(c1, jar) == c1 + t;
    lemma_extend_keeps_arg(c1, t2, dns);
    if j17 {
        assert forall|k: int| 0 <= k < ps.len() implies has_pair(c, #[trigger] ps[k].0, ps[k].1) by {
            lemma_extend_keeps_pair(b, t1, ps[k].0, ps[k].1);
            lemma_extend_keeps_pair(c1, t2, ps[k].0, ps[k].1);
        }
    }
    assert(neo_present(c, j17));
    let x0 = with_property(c, "ignoreList"@, "bootstraplauncher,neon-fml"@);
    lemma_property_keeps(c, "ignoreList"@, "bootstraplauncher,neon-fml"@, j17);
    let x1 = with_property(x0, "fml.earlyprogresswindow"@, "false"@);
    lemma_property_keeps(x0, "fml.earlyprogresswindow"@, "false"@, j17);
    let x2 = with_property(x1, "forge.earlywindow"@, "false"@);
    lemma_property_keeps(x1, "forge.earlywindow"@, "false"@, j17);
    let w = with_property(x2, "neoforge.earlydisplay"@, "false"@);
    lemma_property_keeps(x2, "neoforge.earlydisplay"@, "false"@, j17);
    assert(w == workarounds_of(instance, a));
    assert(neo_present(w, j17));
    let b2 = if j17 {
        with_pairs(w, ps)
    } else {
        w
    };
    if j17 {
        lemma_with_pairs_noop(w, ps);
    }
    assert(b2 == w);
    assert(with_arg(w, dns) == w);
    assert(with_arg(with_arg(w, dns), jar) == w);
    lemma_properties_idempotent(c);
}

} // verus!
