//! Assembling the classpath a game is launched with. Which files exist is
//! found out by the caller; what goes on the classpath, and in which order,
//! is decided here.
use vstd::prelude::*;

use crate::error::LauncherError;
use crate::model::{Instance, LoaderType};
use crate::platform::HostOs;
use crate::text::{
    ascii_lower_seq, chars_of, lowercase_of, seq_contains, seq_ends_with, seq_starts_with,
    str_contains, str_eq, str_is_blank, str_starts_with, str_trim, string_views, to_lowercase,
    trim_spec,
};

verus! {

/// `Path::file_name` of a path, as text.
pub uninterp spec fn file_name_result(path: Seq<char>) -> Option<Seq<char>>;

/// The last component of a path (`Path::file_name`), if it has one.
#[verifier::external_body]
pub(crate) fn path_file_name(path: &str) -> (r: Option<String>)
    ensures
        match r {
            Some(n) => file_name_result(path@) == Some(n@),
            None => file_name_result(path@) is None,
        },
{
    std::path::Path::new(path).file_name().map(|n| n.to_string_lossy().into_owned())
}

/// The extension of a file name: what follows its last `.`, unless that `.`
/// opens the name.
pub open spec fn extension_of(name: Seq<char>) -> Option<Seq<char>> {
    let i = crate::text::last_index_of(name, '.');
    if i <= 0 {
        None
    } else {
        Some(name.skip(i + 1))
    }
}

/// Only `.jar` and `.zip` files (any case) go on the classpath.
pub open spec fn allowed_on_classpath(path: Seq<char>) -> bool {
    match file_name_result(path) {
        Some(name) => match extension_of(name) {
            Some(ext) => ascii_lower_seq(ext) == "jar"@ || ascii_lower_seq(ext) == "zip"@,
            None => false,
        },
        None => false,
    }
}

/// Whether the file at `path` may go on the classpath.
pub fn is_allowed_classpath_path(path: &str) -> (b: bool)
    ensures
        b == allowed_on_classpath(path@),
{
    let name = match path_file_name(path) {
        Some(n) => n,
        None => return false,
    };
    let v = chars_of(name.as_str());
    let i = crate::text::rfind_char(&v, '.');
    proof {
        crate::text::lemma_last_index_of_bounds(v@, '.');
    }
    proof {
        reveal_strlit("jar");
        reveal_strlit("zip");
        assert(ascii_lower_seq("jar"@) =~= "jar"@);
        assert(ascii_lower_seq("zip"@) =~= "zip"@);
    }
    match i {
        Some(i) => {
            if i == 0 {
                return false;
            }
            let ext = crate::text::copy_range(&v, i + 1, v.len());
            assert(ext@ =~= v@.skip(i + 1));
            let s = crate::text::string_from_chars(ext.as_slice());
            crate::text::str_eq_ignore_ascii_case(s.as_str(), "jar")
                || crate::text::str_eq_ignore_ascii_case(s.as_str(), "zip")
        },
        None => false,
    }
}

/// The option that puts the JVM in module mode.
pub open spec fn is_module_option(arg: Seq<char>) -> bool {
    let t = trim_spec(arg);
    t == "--module-path"@ || t == "-p"@ || seq_starts_with(t, "--module-path="@) || t
        == "--add-modules"@ || seq_starts_with(t, "--add-modules="@)
}

pub open spec fn module_bootstrap(instance: Instance) -> bool {
    exists|i: int| 0 <= i < instance.jvm_args@.len() && is_module_option(#[trigger] instance.jvm_args@[i]@)
}

/// Whether the instance's JVM arguments set up the module path.
pub fn uses_module_bootstrap(instance: &Instance) -> (b: bool)
    ensures
        b == module_bootstrap(*instance),
{
    let mut i: usize = 0;
    while i < instance.jvm_args.len()
        invariant
            i <= instance.jvm_args.len(),
            forall|j: int| 0 <= j < i ==> !is_module_option(#[trigger] instance.jvm_args@[j]@),
        decreases instance.jvm_args.len() - i,
    {
        let t = str_trim(instance.jvm_args[i].as_str());
        let s = t.as_str();
        if str_eq(s, "--module-path") || str_eq(s, "-p") || str_starts_with(s, "--module-path=")
            || str_eq(s, "--add-modules") || str_starts_with(s, "--add-modules=") {
            assert(is_module_option(instance.jvm_args@[i as int]@));
            return true;
        }
        i += 1;
    }
    false
}

pub open spec fn bootstraplauncher_main(instance: Instance) -> bool {
    match instance.main_class {
        Some(m) => m@ == "cpw.mods.bootstraplauncher.BootstrapLauncher"@,
        None => false,
    }
}

/// Whether the main class is ModLauncher's BootstrapLauncher.
pub fn is_bootstraplauncher_main(instance: &Instance) -> (b: bool)
    ensures
        b == bootstraplauncher_main(*instance),
{
    match &instance.main_class {
        Some(m) => str_eq(m.as_str(), "cpw.mods.bootstraplauncher.BootstrapLauncher"),
        None => false,
    }
}

pub open spec fn skip_cpw_mods_bootstrap(instance: Instance) -> bool {
    bootstraplauncher_main(instance) && (instance.loader == LoaderType::Forge || instance.loader
        == LoaderType::NeoForge)
}

/// BootstrapLauncher loads securejarhandler, modlauncher and jarhandling in a
/// layer of its own; on the classpath as well they would be initialised twice.
pub fn should_skip_cpw_mods_bootstrap_on_classpath(instance: &Instance) -> (b: bool)
    ensures
        b == skip_cpw_mods_bootstrap(*instance),
{
    is_bootstraplauncher_main(instance) && match instance.loader {
        LoaderType::Forge | LoaderType::NeoForge => true,
        _ => false,
    }
}

/// The key under which two classpath entries count as the same: on Windows
/// paths are compared without regard to case.
pub open spec fn entry_key(entry: Seq<char>, os: HostOs) -> Seq<char> {
    if os == HostOs::Windows {
        lowercase_of(entry)
    } else {
        entry
    }
}

fn entry_key_exec(entry: &str, os: HostOs) -> (r: String)
    ensures
        r@ == entry_key(entry@, os),
{
    if os == HostOs::Windows {
        to_lowercase(entry)
    } else {
        String::from_str(entry)
    }
}

/// The entries whose key was not seen before, in order.
pub open spec fn dedup_spec(entries: Seq<Seq<char>>, os: HostOs) -> Seq<Seq<char>>
    decreases entries.len(),
{
    if entries.len() == 0 {
        Seq::empty()
    } else {
        let rest = dedup_spec(entries.drop_last(), os);
        if exists|i: int|
            0 <= i < entries.len() - 1 && entry_key(#[trigger] entries[i], os) == entry_key(
                entries.last(),
                os,
            ) {
            rest
        } else {
            rest.push(entries.last())
        }
    }
}

/// A key occurs among the entries exactly when it occurs among the deduplicated ones.
pub proof fn lemma_dedup_keys(s: Seq<Seq<char>>, os: HostOs, key: Seq<char>)
    ensures
        (exists|k: int| 0 <= k < s.len() && entry_key(#[trigger] s[k], os) == key) <==> (exists|
            j: int,
        |
            0 <= j < dedup_spec(s, os).len() && entry_key(#[trigger] dedup_spec(s, os)[j], os)
                == key),
    decreases s.len(),
{
    if s.len() > 0 {
        let d = s.drop_last();
        lemma_dedup_keys(d, os, key);
        lemma_dedup_keys(d, os, entry_key(s.last(), os));
        let r = dedup_spec(d, os);
        if exists|k: int| 0 <= k < s.len() && entry_key(#[trigger] s[k], os) == key {
            let k = choose|k: int| 0 <= k < s.len() && entry_key(#[trigger] s[k], os) == key;
            if k < s.len() - 1 {
                assert(d[k] == s[k]);
                let j = choose|j: int| 0 <= j < r.len() && entry_key(#[trigger] r[j], os) == key;
                assert(dedup_spec(s, os)[j] == r[j]);
            } else {
                if exists|i: int|
                    0 <= i < s.len() - 1 && entry_key(#[trigger] s[i], os) == entry_key(s.last(), os) {
                    let i = choose|i: int|
                        0 <= i < s.len() - 1 && entry_key(#[trigger] s[i], os) == entry_key(s.last(), os);
                    assert(d[i] == s[i]);
                    let j = choose|j: int| 0 <= j < r.len() && entry_key(#[trigger] r[j], os) == key;
                    assert(dedup_spec(s, os)[j] == r[j]);
                } else {
                    assert(dedup_spec(s, os)[r.len() as int] == s.last());
                }
            }
        }
        if exists|j: int|
            0 <= j < dedup_spec(s, os).len() && entry_key(#[trigger] dedup_spec(s, os)[j], os) == key {
            let j = choose|j: int|
                0 <= j < dedup_spec(s, os).len() && entry_key(#[trigger] dedup_spec(s, os)[j], os) == key;
            if j < r.len() {
                assert(dedup_spec(s, os)[j] == r[j]);
                let k = choose|k: int| 0 <= k < d.len() && entry_key(#[trigger] d[k], os) == key;
                assert(s[k] == d[k]);
            } else {
                assert(dedup_spec(s, os)[j] == s.last());
                assert(entry_key(s[s.len() - 1], os) == key);
            }
        }
    }
}

/// Keeps the first entry of each key, in order.
pub fn dedup_preserving_order(entries: &mut Vec<String>, os: HostOs)
    ensures
        string_views(final(entries)@) == dedup_spec(string_views(old(entries)@), os),
{
    let ghost a = string_views(entries@);
    let mut kept: Vec<String> = Vec::new();
    let mut keys: Vec<String> = Vec::new();
    let mut i: usize = 0;
    while i < entries.len()
        invariant
            i <= entries.len(),
            a == string_views(entries@),
            string_views(kept@) == dedup_spec(a.take(i as int), os),
            keys@.len() == kept@.len(),
            forall|j: int| 0 <= j < keys@.len() ==> #[trigger] keys@[j]@ == entry_key(kept@[j]@, os),
        decreases entries.len() - i,
    {
        let key = entry_key_exec(entries[i].as_str(), os);
        let mut seen = false;
        let mut j: usize = 0;
        while j < keys.len()
            invariant
                j <= keys.len(),
                !seen ==> forall|m: int| 0 <= m < j ==> keys@[m]@ != key@,
                seen ==> exists|m: int| 0 <= m < keys@.len() && keys@[m]@ == key@,
            decreases keys.len() - j,
        {
            if str_eq(keys[j].as_str(), key.as_str()) {
                seen = true;
            }
            j += 1;
        }
        let ghost t = a.take(i + 1);
        let ghost p = a.take(i as int);
        assert(t.drop_last() =~= p);
        assert(t.last() == a[i as int]);
        proof {
            lemma_dedup_keys(p, os, key@);
            let d = dedup_spec(p, os);
            if seen {
                let m = choose|m: int| 0 <= m < keys@.len() && keys@[m]@ == key@;
                assert(d[m] == kept@[m]@);
                let k = choose|k: int| 0 <= k < p.len() && entry_key(#[trigger] p[k], os) == key@;
                assert(t[k] == p[k]);
            } else {
                assert forall|k: int|
                    0 <= k < t.len() - 1 implies entry_key(#[trigger] t[k], os) != entry_key(
                    t.last(),
                    os,
                ) by {
                    assert(t[k] == p[k]);
                    if entry_key(p[k], os) == key@ {
                        let jj = choose|jj: int|
                            0 <= jj < d.len() && entry_key(#[trigger] d[jj], os) == key@;
                        assert(d[jj] == kept@[jj]@);
                        assert(keys@[jj]@ == key@);
                    }
                }
            }
        }
        if !seen {
            let ghost before = string_views(kept@);
            kept.push(entries[i].clone());
            keys.push(key);
            assert(string_views(kept@) =~= before.push(a[i as int]));
        }
        i += 1;
    }
    assert(a.take(entries.len() as int) =~= a);
    *entries = kept;
}

/// BootstrapLauncher first, then ModLauncher, then SecureJarHandler, then the rest.
pub open spec fn bootstrap_score(entry: Seq<char>) -> int {
    let lower = ascii_lower_seq(entry);
    if seq_contains(lower, "bootstraplauncher"@) {
        0
    } else if seq_contains(lower, "modlauncher"@) {
        1
    } else if seq_contains(lower, "securejarhandler"@) {
        2
    } else {
        10
    }
}

fn bootstrap_score_exec(entry: &str) -> (r: u8)
    ensures
        r == bootstrap_score(entry@),
{
    let v = chars_of(entry);
    let lower = crate::text::ascii_lower_chars(&v);
    let s = crate::text::string_from_chars(lower.as_slice());
    if str_contains(s.as_str(), "bootstraplauncher") {
        0
    } else if str_contains(s.as_str(), "modlauncher") {
        1
    } else if str_contains(s.as_str(), "securejarhandler") {
        2
    } else {
        10
    }
}

/// The entries of a given score, in order.
pub open spec fn with_score(entries: Seq<Seq<char>>, score: int) -> Seq<Seq<char>>
    decreases entries.len(),
{
    if entries.len() == 0 {
        Seq::empty()
    } else {
        let rest = with_score(entries.drop_last(), score);
        if bootstrap_score(entries.last()) == score {
            rest.push(entries.last())
        } else {
            rest
        }
    }
}

/// A stable sort of the entries by their bootstrap score.
pub open spec fn prioritized(entries: Seq<Seq<char>>) -> Seq<Seq<char>> {
    with_score(entries, 0) + with_score(entries, 1) + with_score(entries, 2) + with_score(entries, 10)
}

/// ModLauncher-based stacks are sensitive to classpath order: bootstrap
/// artifacts go first, each group keeping its order.
pub fn prioritize_bootstrap_entries(entries: &mut Vec<String>)
    ensures
        string_views(final(entries)@) == prioritized(string_views(old(entries)@)),
{
    let ghost a = string_views(entries@);
    let mut scores: Vec<u8> = Vec::new();
    let mut i: usize = 0;
    while i < entries.len()
        invariant
            i <= entries.len(),
            scores@.len() == i,
            forall|j: int| 0 <= j < i ==> #[trigger] scores@[j] == bootstrap_score(entries@[j]@),
        decreases entries.len() - i,
    {
        scores.push(bootstrap_score_exec(entries[i].as_str()));
        i += 1;
    }
    let mut out: Vec<String> = Vec::new();
    let wanted: [u8; 4] = [0, 1, 2, 10];
    let mut g: usize = 0;
    while g < 4
        invariant
            g <= 4,
            scores@.len() == entries.len(),
            a == string_views(entries@),
            forall|j: int| 0 <= j < entries.len() ==> #[trigger] scores@[j] == bootstrap_score(entries@[j]@),
            wanted@ == seq![0u8, 1u8, 2u8, 10u8],
            string_views(out@) == (if g == 0 {
                Seq::empty()
            } else if g == 1 {
                with_score(a, 0)
            } else if g == 2 {
                with_score(a, 0) + with_score(a, 1)
            } else if g == 3 {
                with_score(a, 0) + with_score(a, 1) + with_score(a, 2)
            } else {
                prioritized(a)
            }),
        decreases 4 - g,
    {
        let want = wanted[g];
        let ghost start = string_views(out@);
        let mut k: usize = 0;
        assert(a.take(0) =~= Seq::<Seq<char>>::empty());
        while k < entries.len()
            invariant
                k <= entries.len(),
                scores@.len() == entries.len(),
                a == string_views(entries@),
                forall|j: int| 0 <= j < entries.len() ==> #[trigger] scores@[j] == bootstrap_score(entries@[j]@),
                string_views(out@) == start + with_score(a.take(k as int), want as int),
            decreases entries.len() - k,
        {
            assert(a.take(k + 1).drop_last() =~= a.take(k as int));
            let ghost before = string_views(out@);
            if scores[k] == want {
                out.push(entries[k].clone());
                assert(string_views(out@) =~= before.push(a[k as int]));
            }
            k += 1;
        }
        assert(a.take(entries.len() as int) =~= a);
        g += 1;
    }
    *entries = out;
}

/// A candidate: the key it competes under, what it stands for, and its version.
pub type Candidate = (String, String, String);

pub open spec fn cand_view(c: Candidate) -> (Seq<char>, Seq<char>, Seq<char>) {
    (c.0@, c.1@, c.2@)
}

pub open spec fn cand_views(v: Seq<Candidate>) -> Seq<(Seq<char>, Seq<char>, Seq<char>)> {
    v.map_values(|c: Candidate| cand_view(c))
}

/// Position of the first entry under `key`, or -1.
pub open spec fn key_pos(t: Seq<(Seq<char>, Seq<char>, Seq<char>)>, key: Seq<char>) -> int
    decreases t.len(),
{
    if t.len() == 0 {
        -1
    } else {
        let p = key_pos(t.drop_last(), key);
        if p >= 0 {
            p
        } else if t.last().0 == key {
            t.len() - 1
        } else {
            -1
        }
    }
}

proof fn lemma_key_pos(t: Seq<(Seq<char>, Seq<char>, Seq<char>)>, key: Seq<char>, j: int)
    requires
        0 <= j <= t.len(),
        forall|m: int| 0 <= m < j ==> (#[trigger] t[m]).0 != key,
        j < t.len() ==> t[j].0 == key,
    ensures
        key_pos(t, key) == if j < t.len() {
            j
        } else {
            -1
        },
    decreases t.len(),
{
    if t.len() > 0 {
        if j < t.len() - 1 {
            lemma_key_pos(t.drop_last(), key, j);
        } else {
            assert forall|m: int| 0 <= m < t.len() - 1 implies (#[trigger] t.drop_last()[m]).0 != key by {
                assert(t.drop_last()[m] == t[m]);
            }
            lemma_key_pos(t.drop_last(), key, t.len() - 1);
        }
    }
}

/// For each key, the earliest candidate of the newest version, at the place
/// where the key first came up.
pub open spec fn newest_table(items: Seq<(Seq<char>, Seq<char>, Seq<char>)>) -> Seq<(Seq<char>, Seq<char>, Seq<char>)>
    decreases items.len(),
{
    if items.len() == 0 {
        Seq::empty()
    } else {
        let t = newest_table(items.drop_last());
        let x = items.last();
        let p = key_pos(t, x.0);
        if p < 0 {
            t.push(x)
        } else if crate::version_parts::version_order(x.2, t[p].2) > 0 {
            t.update(p, x)
        } else {
            t
        }
    }
}

/// `x` placed after every candidate at least as new, and before the rest.
pub open spec fn insert_desc(t: Seq<(Seq<char>, Seq<char>, Seq<char>)>, x: (Seq<char>, Seq<char>, Seq<char>)) -> Seq<(Seq<char>, Seq<char>, Seq<char>)>
    decreases t.len(),
{
    if t.len() == 0 {
        seq![x]
    } else if crate::version_parts::version_order(t.last().2, x.2) >= 0 {
        t.push(x)
    } else {
        insert_desc(t.drop_last(), x).push(t.last())
    }
}

/// Newest version first; candidates of equal version keep their order.
pub open spec fn sort_desc(s: Seq<(Seq<char>, Seq<char>, Seq<char>)>) -> Seq<(Seq<char>, Seq<char>, Seq<char>)>
    decreases s.len(),
{
    if s.len() == 0 {
        Seq::empty()
    } else {
        insert_desc(sort_desc(s.drop_last()), s.last())
    }
}

proof fn lemma_insert_desc(t: Seq<(Seq<char>, Seq<char>, Seq<char>)>, x: (Seq<char>, Seq<char>, Seq<char>), j: int)
    requires
        0 <= j <= t.len(),
        forall|m: int| j <= m < t.len() ==> crate::version_parts::version_order((#[trigger] t[m]).2, x.2) < 0,
        j > 0 ==> crate::version_parts::version_order(t[j - 1].2, x.2) >= 0,
    ensures
        insert_desc(t, x) == t.take(j) + seq![x] + t.skip(j),
    decreases t.len(),
{
    if t.len() == 0 {
        assert(t.take(j) + seq![x] + t.skip(j) =~= seq![x]);
    } else if j == t.len() {
        assert(t.take(j) + seq![x] + t.skip(j) =~= t.push(x));
    } else {
        let d = t.drop_last();
        assert forall|m: int| j <= m < d.len() implies crate::version_parts::version_order(
            (#[trigger] d[m]).2,
            x.2,
        ) < 0 by {
            assert(d[m] == t[m]);
        }
        if j > 0 {
            assert(d[j - 1] == t[j - 1]);
        }
        assert(t.last() == t[t.len() - 1]);
        lemma_insert_desc(d, x, j);
        assert((d.take(j) + seq![x] + d.skip(j)).push(t.last()) =~= t.take(j) + seq![x] + t.skip(j));
    }
}

fn copy_candidate(c: &Candidate) -> (r: Candidate)
    ensures
        cand_view(r) == cand_view(*c),
{
    (c.0.clone(), c.1.clone(), c.2.clone())
}

/// Keeps, for each key, the newest candidate (the earliest one on a tie), and
/// orders the kept ones newest first.
pub fn newest_per_key(items: &Vec<Candidate>) -> (r: Vec<Candidate>)
    ensures
        cand_views(r@) == sort_desc(newest_table(cand_views(items@))),
{
    let ghost iv = cand_views(items@);
    let mut table: Vec<Candidate> = Vec::new();
    let mut i: usize = 0;
    while i < items.len()
        invariant
            i <= items.len(),
            iv == cand_views(items@),
            cand_views(table@) == newest_table(iv.take(i as int)),
        decreases items.len() - i,
    {
        assert(iv.take(i + 1).drop_last() =~= iv.take(i as int));
        assert(iv.take(i + 1).last() == cand_view(items@[i as int]));
        let ghost tv = cand_views(table@);
        let x = &items[i];
        let mut j: usize = 0;
        while j < table.len() && !str_eq(table[j].0.as_str(), x.0.as_str())
            invariant
                j <= table.len(),
                tv == cand_views(table@),
                forall|m: int| 0 <= m < j ==> (#[trigger] tv[m]).0 != x.0@,
            decreases table.len() - j,
        {
            j += 1;
        }
        proof {
            lemma_key_pos(tv, x.0@, j as int);
        }
        if j == table.len() {
            table.push(copy_candidate(x));
            assert(cand_views(table@) =~= tv.push(cand_view(*x)));
        } else {
            let o = crate::version_parts::version_order_value(x.2.as_str(), table[j].2.as_str());
            if o > 0 {
                table.set(j, copy_candidate(x));
                assert(cand_views(table@) =~= tv.update(j as int, cand_view(*x)));
            }
        }
        i += 1;
    }
    assert(iv.take(items.len() as int) =~= iv);
    let ghost tbl = cand_views(table@);
    let mut out: Vec<Candidate> = Vec::new();
    let mut k: usize = 0;
    assert(tbl.take(0) =~= Seq::<(Seq<char>, Seq<char>, Seq<char>)>::empty());
    while k < table.len()
        invariant
            k <= table.len(),
            tbl == cand_views(table@),
            cand_views(out@) == sort_desc(tbl.take(k as int)),
        decreases table.len() - k,
    {
        assert(tbl.take(k + 1).drop_last() =~= tbl.take(k as int));
        let x = copy_candidate(&table[k]);
        let ghost ov = cand_views(out@);
        let mut j: usize = out.len();
        while j > 0 && crate::version_parts::version_order_value(
            out[j - 1].2.as_str(),
            x.2.as_str(),
        ) < 0
            invariant
                j <= out.len(),
                ov == cand_views(out@),
                forall|m: int|
                    j <= m < ov.len() ==> crate::version_parts::version_order((#[trigger] ov[m]).2, x.2@)
                        < 0,
            decreases j,
        {
            j -= 1;
        }
        proof {
            lemma_insert_desc(ov, cand_view(x), j as int);
        }
        out.insert(j, x);
        assert(cand_views(out@) =~= ov.take(j as int) + seq![cand_view(x)] + ov.skip(j as int));
        k += 1;
    }
    assert(tbl.take(table.len() as int) =~= tbl);
    out
}

/// securejarhandler, modlauncher and jarhandling of `cpw.mods`.
pub open spec fn is_cpw_bootstrap(a: crate::maven::ArtifactView) -> bool {
    a.group_id == "cpw.mods"@ && (a.artifact_id == "securejarhandler"@ || a.artifact_id
        == "modlauncher"@ || a.artifact_id == "jarhandling"@)
}

/// How a declared library is treated: left out (0), an ASM candidate (1), or
/// a plain entry (2).
pub open spec fn library_class(instance: Instance, t: Seq<char>) -> int {
    if t.len() == 0 {
        0
    } else {
        match crate::maven::parse_coordinate(t) {
            Some(a) => if (module_bootstrap(instance) || skip_cpw_mods_bootstrap(instance))
                && is_cpw_bootstrap(a) {
                0
            } else if a.group_id == "org.ow2.asm"@ {
                1
            } else {
                2
            },
            None => 2,
        }
    }
}

/// ASM candidates compete per artifact and classifier.
pub open spec fn asm_candidate(t: Seq<char>) -> (Seq<char>, Seq<char>, Seq<char>) {
    let a = crate::maven::parse_coordinate(t)->0;
    (
        a.artifact_id + ":"@ + match a.classifier {
            Some(c) => c,
            None => Seq::empty(),
        },
        t,
        a.version,
    )
}

/// The ASM candidates among the declared libraries, in order.
pub open spec fn asm_candidates(instance: Instance, coords: Seq<Seq<char>>) -> Seq<(Seq<char>, Seq<char>, Seq<char>)>
    decreases coords.len(),
{
    if coords.len() == 0 {
        Seq::empty()
    } else {
        let rest = asm_candidates(instance, coords.drop_last());
        let t = trim_spec(coords.last());
        if library_class(instance, t) == 1 {
            rest.push(asm_candidate(t))
        } else {
            rest
        }
    }
}

/// The plain entries among the declared libraries, trimmed, in order.
pub open spec fn plain_libraries(instance: Instance, coords: Seq<Seq<char>>) -> Seq<Seq<char>>
    decreases coords.len(),
{
    if coords.len() == 0 {
        Seq::empty()
    } else {
        let rest = plain_libraries(instance, coords.drop_last());
        let t = trim_spec(coords.last());
        if library_class(instance, t) == 2 {
            rest.push(t)
        } else {
            rest
        }
    }
}

/// What to look up on disk for the declared libraries.
pub struct LibraryPlan {
    /// The newest ASM library of each artifact, newest first.
    pub asm_coords: Vec<String>,
    /// The other libraries, in declaration order.
    pub other_coords: Vec<String>,
}

pub open spec fn payloads(v: Seq<(Seq<char>, Seq<char>, Seq<char>)>) -> Seq<Seq<char>> {
    v.map_values(|c: (Seq<char>, Seq<char>, Seq<char>)| c.1)
}

/// The second component of each candidate, in order.
fn candidate_payloads(best: &Vec<Candidate>) -> (r: Vec<String>)
    ensures
        string_views(r@) == payloads(cand_views(best@)),
{
    let ghost pv = payloads(cand_views(best@));
    let mut out: Vec<String> = Vec::new();
    let mut k: usize = 0;
    while k < best.len()
        invariant
            k <= best.len(),
            pv == payloads(cand_views(best@)),
            pv.len() == best.len(),
            string_views(out@) == pv.take(k as int),
        decreases best.len() - k,
    {
        assert(pv[k as int] == best@[k as int].1@);
        let ghost before = string_views(out@);
        out.push(best[k].1.clone());
        assert(string_views(out@) =~= before.push(pv[k as int]));
        assert(pv.take(k + 1) =~= pv.take(k as int).push(pv[k as int]));
        k += 1;
    }
    assert(pv.take(best.len() as int) =~= pv);
    out
}

/// Sorts the declared libraries: blank ones and bootstrap jars that must
/// stay off the classpath are dropped, ASM is reduced to its newest version
/// per artifact (ASM is order-sensitive and the first one wins), the rest
/// keep their order.
pub fn plan_libraries(instance: &Instance, coords: &Vec<String>) -> (r: LibraryPlan)
    ensures
        string_views(r.asm_coords@) == payloads(
            sort_desc(newest_table(asm_candidates(*instance, string_views(coords@)))),
        ),
        string_views(r.other_coords@) == plain_libraries(*instance, string_views(coords@)),
{
    let ghost cv = string_views(coords@);
    let module = uses_module_bootstrap(instance);
    let skip = should_skip_cpw_mods_bootstrap_on_classpath(instance);
    let mut asm_found: Vec<Candidate> = Vec::new();
    let mut others: Vec<String> = Vec::new();
    let mut i: usize = 0;
    while i < coords.len()
        invariant
            i <= coords.len(),
            cv == string_views(coords@),
            module == module_bootstrap(*instance),
            skip == skip_cpw_mods_bootstrap(*instance),
            cand_views(asm_found@) == asm_candidates(*instance, cv.take(i as int)),
            string_views(others@) == plain_libraries(*instance, cv.take(i as int)),
        decreases coords.len() - i,
    {
        assert(cv.take(i + 1).drop_last() =~= cv.take(i as int));
        assert(cv.take(i + 1).last() == coords@[i as int]@);
        let t = str_trim(coords[i].as_str());
        let ghost av = cand_views(asm_found@);
        let ghost ov = string_views(others@);
        if chars_of(t.as_str()).len() == 0 {
            i += 1;
            continue;
        }
        match crate::maven::MavenArtifact::parse(t.as_str()) {
            Ok(a) => {
                let cpw = str_eq(a.group_id.as_str(), "cpw.mods") && (str_eq(
                    a.artifact_id.as_str(),
                    "securejarhandler",
                ) || str_eq(a.artifact_id.as_str(), "modlauncher") || str_eq(
                    a.artifact_id.as_str(),
                    "jarhandling",
                ));
                if (module || skip) && cpw {
                    i += 1;
                    continue;
                }
                if str_eq(a.group_id.as_str(), "org.ow2.asm") {
                    let mut key = a.artifact_id.clone();
                    key.append(":");
                    match &a.classifier {
                        Some(c) => key.append(c.as_str()),
                        None => {},
                    }
                    proof {
                        reveal_strlit("");
                    }
                    asm_found.push((key, t.clone(), a.version.clone()));
                    assert(cand_views(asm_found@) =~= av.push(asm_candidate(t@)));
                    i += 1;
                    continue;
                }
            },
            Err(_) => {},
        }
        others.push(t);
        assert(string_views(others@) =~= ov.push(trim_spec(coords@[i as int]@)));
        i += 1;
    }
    assert(cv.take(coords.len() as int) =~= cv);
    let best = newest_per_key(&asm_found);
    let asm_coords = candidate_payloads(&best);
    LibraryPlan { asm_coords, other_coords: others }
}

/// Bootstrap artifacts of which only the newest local copy is kept.
pub open spec fn sensitive_prefixes() -> Seq<Seq<char>> {
    seq![
        "securejarhandler-"@,
        "modlauncher-"@,
        "jarhandling-"@,
        "bootstraplauncher-"@,
        "fmlloader-"@,
        "fmlcore-"@,
    ]
}

/// `name` is `<prefix><version>.jar`.
pub open spec fn strips_to_version(name: Seq<char>, prefix: Seq<char>) -> bool {
    seq_starts_with(name, prefix) && seq_ends_with(name.skip(prefix.len() as int), ".jar"@)
}

/// The first sensitive prefix from position `i` on that `name` strips to a
/// version with, or -1.
pub open spec fn sensitive_index(name: Seq<char>, i: int) -> int
    decreases 6 - i,
{
    if i < 0 || i >= 6 {
        -1
    } else if strips_to_version(name, sensitive_prefixes()[i]) {
        i
    } else {
        sensitive_index(name, i + 1)
    }
}

/// Whether a file name (compared by key) is already on the classpath.
pub open spec fn included_name(entries: Seq<Seq<char>>, key: Seq<char>, os: HostOs) -> bool {
    exists|i: int|
        0 <= i < entries.len() && match file_name_result(#[trigger] entries[i]) {
            Some(n) => entry_key(n, os) == key,
            None => false,
        }
}

/// How a jar found under the instance's libraries is treated: left out (0),
/// a sensitive candidate (1), or a plain entry (2).
pub open spec fn local_class(instance: Instance, entries: Seq<Seq<char>>, path: Seq<char>, os: HostOs) -> int {
    match file_name_result(path) {
        None => 0,
        Some(name) => {
            let key = entry_key(name, os);
            if included_name(entries, key, os) {
                0
            } else if (module_bootstrap(instance) || skip_cpw_mods_bootstrap(instance)) && (
            seq_starts_with(key, "securejarhandler-"@) || seq_starts_with(key, "modlauncher-"@)
                || seq_starts_with(key, "jarhandling-"@)) {
                0
            } else if sensitive_index(key, 0) >= 0 {
                1
            } else {
                2
            }
        },
    }
}

/// The sensitive candidate a local jar stands for: the artifact, the jar's
/// text, and its version.
pub open spec fn sensitive_candidate(path: Seq<char>, text: Seq<char>, os: HostOs) -> (Seq<char>, Seq<char>, Seq<char>) {
    let key = entry_key(file_name_result(path)->0, os);
    let p = sensitive_prefixes()[sensitive_index(key, 0)];
    let rest = key.skip(p.len() as int);
    (crate::text::trim_end_char_spec(p, '-'), text, rest.take(rest.len() - 4))
}

pub open spec fn sensitive_upto(
    instance: Instance,
    entries: Seq<Seq<char>>,
    paths: Seq<Seq<char>>,
    texts: Seq<Seq<char>>,
    os: HostOs,
    n: int,
) -> Seq<(Seq<char>, Seq<char>, Seq<char>)>
    decreases n,
{
    if n <= 0 {
        Seq::empty()
    } else {
        let rest = sensitive_upto(instance, entries, paths, texts, os, n - 1);
        if local_class(instance, entries, paths[n - 1], os) == 1 {
            rest.push(sensitive_candidate(paths[n - 1], texts[n - 1], os))
        } else {
            rest
        }
    }
}

pub open spec fn plain_locals_upto(
    instance: Instance,
    entries: Seq<Seq<char>>,
    paths: Seq<Seq<char>>,
    texts: Seq<Seq<char>>,
    os: HostOs,
    n: int,
) -> Seq<Seq<char>>
    decreases n,
{
    if n <= 0 {
        Seq::empty()
    } else {
        let rest = plain_locals_upto(instance, entries, paths, texts, os, n - 1);
        if local_class(instance, entries, paths[n - 1], os) == 2 {
            rest.push(texts[n - 1])
        } else {
            rest
        }
    }
}

/// The jars found under the instance's libraries that join the classpath:
/// the newest copy of each sensitive bootstrap artifact (newest first), then
/// the others in the order found.
pub open spec fn local_entries(
    instance: Instance,
    entries: Seq<Seq<char>>,
    paths: Seq<Seq<char>>,
    texts: Seq<Seq<char>>,
    os: HostOs,
) -> Seq<Seq<char>> {
    payloads(sort_desc(newest_table(sensitive_upto(instance, entries, paths, texts, os, paths.len() as int))))
        + plain_locals_upto(instance, entries, paths, texts, os, paths.len() as int)
}

fn sensitive_index_exec(key: &str) -> (r: i8)
    ensures
        r == sensitive_index(key@, 0),
        -1 <= r < 6,
{
    let prefixes: [&str; 6] = [
        "securejarhandler-",
        "modlauncher-",
        "jarhandling-",
        "bootstraplauncher-",
        "fmlloader-",
        "fmlcore-",
    ];
    let v = chars_of(key);
    let mut i: usize = 0;
    while i < 6
        invariant
            i <= 6,
            v@ == key@,
            forall|m: int| 0 <= m < 6 ==> #[trigger] prefixes@[m]@ == sensitive_prefixes()[m],
            sensitive_index(key@, 0) == sensitive_index(key@, i as int),
        decreases 6 - i,
    {
        let p = chars_of(prefixes[i]);
        let starts = crate::text::matches_at(&v, 0, &p);
        if starts {
            let rest = crate::text::copy_range(&v, p.len(), v.len());
            assert(rest@ =~= key@.skip(p@.len() as int));
            if crate::text::str_ends_with(crate::text::string_from_chars(rest.as_slice()).as_str(), ".jar") {
                return i as i8;
            }
        }
        i += 1;
    }
    -1
}

fn sensitive_candidate_exec(path: &str, text: &str, key: &str, idx: i8, os: HostOs) -> (r: Candidate)
    requires
        file_name_result(path@) is Some,
        key@ == entry_key(file_name_result(path@)->0, os),
        idx == sensitive_index(key@, 0),
        idx >= 0,
    ensures
        cand_view(r) == sensitive_candidate(path@, text@, os),
{
    let prefixes: [&str; 6] = [
        "securejarhandler-",
        "modlauncher-",
        "jarhandling-",
        "bootstraplauncher-",
        "fmlloader-",
        "fmlcore-",
    ];
    assert(forall|m: int| 0 <= m < 6 ==> #[trigger] prefixes@[m]@ == sensitive_prefixes()[m]);
    proof {
        lemma_sensitive_index(key@, 0);
    }
    let p = chars_of(prefixes[idx as usize]);
    let v = chars_of(key);
    let ghost i = idx as int;
    assert(strips_to_version(key@, sensitive_prefixes()[i])) by {
        lemma_sensitive_index(key@, 0);
    }
    let rest = crate::text::copy_range(&v, p.len(), v.len());
    assert(rest@ =~= key@.skip(p@.len() as int));
    proof {
        reveal_strlit(".jar");
    }
    let version = crate::text::copy_range(&rest, 0, rest.len() - 4);
    assert(version@ =~= rest@.take(rest@.len() - 4));
    let artifact = crate::text::trim_end_char(&p, '-');
    (
        crate::text::string_from_chars(artifact.as_slice()),
        String::from_str(text),
        crate::text::string_from_chars(version.as_slice()),
    )
}

proof fn lemma_sensitive_index(name: Seq<char>, i: int)
    requires
        0 <= i <= 6,
    ensures
        sensitive_index(name, i) == -1 || (i <= sensitive_index(name, i) < 6 && strips_to_version(
            name,
            sensitive_prefixes()[sensitive_index(name, i)],
        )),
    decreases 6 - i,
{
    if i < 6 && !strips_to_version(name, sensitive_prefixes()[i]) {
        lemma_sensitive_index(name, i + 1);
    }
}

fn file_key(path: &str, os: HostOs) -> (r: Option<String>)
    ensures
        match r {
            Some(k) => file_name_result(path@) is Some && k@ == entry_key(
                file_name_result(path@)->0,
                os,
            ),
            None => file_name_result(path@) is None,
        },
{
    match path_file_name(path) {
        Some(n) => Some(entry_key_exec(n.as_str(), os)),
        None => None,
    }
}

/// Whether a file name with `key` is among those of `entries`.
fn name_included(entries: &Vec<String>, key: &str, os: HostOs) -> (b: bool)
    ensures
        b == included_name(string_views(entries@), key@, os),
{
    let ghost ev = string_views(entries@);
    let mut e: usize = 0;
    while e < entries.len()
        invariant
            e <= entries.len(),
            ev == string_views(entries@),
            forall|m: int|
                0 <= m < e ==> !match file_name_result(#[trigger] ev[m]) {
                    Some(n) => entry_key(n, os) == key@,
                    None => false,
                },
        decreases entries.len() - e,
    {
        match file_key(entries[e].as_str(), os) {
            Some(k) => {
                if str_eq(k.as_str(), key) {
                    assert(match file_name_result(ev[e as int]) {
                        Some(n) => entry_key(n, os) == key@,
                        None => false,
                    });
                    return true;
                }
            },
            None => {},
        }
        e += 1;
    }
    false
}

/// The local jars that join the classpath after `entries`: see `local_entries`.
/// `texts[i]` is how `paths[i]` goes on the classpath.
pub fn plan_local_jars(
    instance: &Instance,
    entries: &Vec<String>,
    paths: &Vec<String>,
    texts: &Vec<String>,
    os: HostOs,
) -> (r: Vec<String>)
    requires
        paths.len() == texts.len(),
    ensures
        string_views(r@) == local_entries(
            *instance,
            string_views(entries@),
            string_views(paths@),
            string_views(texts@),
            os,
        ),
{
    let ghost ev = string_views(entries@);
    let ghost pv = string_views(paths@);
    let ghost tv = string_views(texts@);
    let module = uses_module_bootstrap(instance);
    let skip = should_skip_cpw_mods_bootstrap_on_classpath(instance);
    let mut sensitive: Vec<Candidate> = Vec::new();
    let mut plain: Vec<String> = Vec::new();
    let mut i: usize = 0;
    while i < paths.len()
        invariant
            i <= paths.len(),
            paths.len() == texts.len(),
            ev == string_views(entries@),
            pv == string_views(paths@),
            tv == string_views(texts@),
            module == module_bootstrap(*instance),
            skip == skip_cpw_mods_bootstrap(*instance),
            cand_views(sensitive@) == sensitive_upto(*instance, ev, pv, tv, os, i as int),
            string_views(plain@) == plain_locals_upto(*instance, ev, pv, tv, os, i as int),
        decreases paths.len() - i,
    {
        let ghost sv = cand_views(sensitive@);
        let ghost plv = string_views(plain@);
        let key = match file_key(paths[i].as_str(), os) {
            Some(k) => k,
            None => {
                i += 1;
                continue;
            },
        };
        let included = name_included(entries, key.as_str(), os);
        if included {
            i += 1;
            continue;
        }
        let k = key.as_str();
        if (module || skip) && (str_starts_with(k, "securejarhandler-") || str_starts_with(
            k,
            "modlauncher-",
        ) || str_starts_with(k, "jarhandling-")) {
            i += 1;
            continue;
        }
        let idx = sensitive_index_exec(k);
        if idx >= 0 {
            let c = sensitive_candidate_exec(paths[i].as_str(), texts[i].as_str(), k, idx, os);
            sensitive.push(c);
            assert(cand_views(sensitive@) =~= sv.push(
                sensitive_candidate(pv[i as int], tv[i as int], os),
            ));
        } else {
            plain.push(texts[i].clone());
            assert(string_views(plain@) =~= plv.push(tv[i as int]));
        }
        i += 1;
    }
    let best = newest_per_key(&sensitive);
    let mut out = candidate_payloads(&best);
    let mut m: usize = 0;
    let ghost head = string_views(out@);
    while m < plain.len()
        invariant
            m <= plain.len(),
            string_views(out@) == head + string_views(plain@).take(m as int),
        decreases plain.len() - m,
    {
        let ghost before = string_views(out@);
        out.push(plain[m].clone());
        assert(string_views(out@) =~= before.push(plain@[m as int]@));
        m += 1;
        assert(string_views(plain@).take(m as int) =~= string_views(plain@).take(m - 1).push(
            plain@[m - 1]@,
        ));
    }
    assert(string_views(plain@).take(plain.len() as int) =~= string_views(plain@));
    out
}

/// The version ids whose jars a launch of the instance can need: the
/// Minecraft version, and for Forge and NeoForge the ids their installers
/// write.
pub open spec fn version_ids(instance: Instance) -> Seq<Seq<char>> {
    let mc = instance.minecraft_version@;
    let base = seq![mc];
    match instance.loader_version {
        Some(lv) => if trim_spec(lv@).len() == 0 {
            base
        } else if instance.loader == LoaderType::Forge {
            base + seq![mc + "-"@ + lv@, "forge-"@ + mc + "-"@ + lv@]
        } else if instance.loader == LoaderType::NeoForge {
            base + seq![mc + "-"@ + lv@, "neoforge-"@ + lv@, mc + "-neoforge-"@ + lv@, lv@]
        } else {
            base
        },
        None => base,
    }
}

/// `<game dir>/versions/<id>/<id>.jar`.
pub open spec fn version_jar_path(instance: Instance, id: Seq<char>) -> Seq<char> {
    crate::platform::path_join_result(
        crate::platform::path_join_result(
            crate::platform::path_join_result(
                crate::platform::path_join_result(instance.path@, "minecraft"@),
                "versions"@,
            ),
            id,
        ),
        id + ".jar"@,
    )
}

fn version_jar(game_dir: &str, id: &str) -> (r: String)
    ensures
        r@ == crate::platform::path_join_result(
            crate::platform::path_join_result(
                crate::platform::path_join_result(game_dir@, "versions"@),
                id@,
            ),
            id@ + ".jar"@,
        ),
{
    let versions = crate::platform::path_join(game_dir, "versions");
    let dir = crate::platform::path_join(versions.as_str(), id);
    let mut name = String::from_str(id);
    name.append(".jar");
    crate::platform::path_join(dir.as_str(), name.as_str())
}

/// Where the version jars of the instance would be, in the order they go on
/// the classpath when present.
pub fn version_jar_candidates(instance: &Instance) -> (r: Vec<String>)
    ensures
        r@.len() == version_ids(*instance).len(),
        forall|i: int|
            0 <= i < r@.len() ==> #[trigger] r@[i]@ == version_jar_path(
                *instance,
                version_ids(*instance)[i],
            ),
{
    let game_dir = instance.game_dir();
    let mc = instance.minecraft_version.as_str();
    let mut ids: Vec<String> = Vec::new();
    ids.push(String::from_str(mc));
    match &instance.loader_version {
        Some(lv) => {
            if !str_is_blank(lv.as_str()) {
                let mut mc_lv = String::from_str(mc);
                mc_lv.append("-");
                mc_lv.append(lv.as_str());
                match instance.loader {
                    LoaderType::Forge => {
                        let mut forge = String::from_str("forge-");
                        forge.append(mc);
                        forge.append("-");
                        forge.append(lv.as_str());
                        ids.push(mc_lv);
                        ids.push(forge);
                    },
                    LoaderType::NeoForge => {
                        let mut a = String::from_str("neoforge-");
                        a.append(lv.as_str());
                        let mut b = String::from_str(mc);
                        b.append("-neoforge-");
                        b.append(lv.as_str());
                        ids.push(mc_lv);
                        ids.push(a);
                        ids.push(b);
                        ids.push(lv.clone());
                    },
                    _ => {},
                }
            }
        },
        None => {},
    }
    assert(string_views(ids@) =~= version_ids(*instance));
    let ghost idv = version_ids(*instance);
    let mut out: Vec<String> = Vec::new();
    let mut i: usize = 0;
    while i < ids.len()
        invariant
            i <= ids.len(),
            string_views(ids@) == idv,
            idv == version_ids(*instance),
            game_dir@ == crate::platform::path_join_result(instance.path@, "minecraft"@),
            out@.len() == i,
            forall|j: int|
                0 <= j < i ==> #[trigger] out@[j]@ == version_jar_path(*instance, idv[j]),
        decreases ids.len() - i,
    {
        assert(ids@[i as int]@ == idv[i as int]);
        out.push(version_jar(game_dir.as_str(), ids[i].as_str()));
        i += 1;
    }
    out
}

/// The instance's own `client.jar`, then the shared one under
/// `<game dir>/versions/<mc>/<mc>.jar`; the first that exists is used.
pub fn client_jar_candidates(instance: &Instance) -> (r: Vec<String>)
    ensures
        r@.len() == 2,
        r@[0]@ == crate::platform::path_join_result(instance.path@, "client.jar"@),
        r@[1]@ == version_jar_path(*instance, instance.minecraft_version@),
{
    let game_dir = instance.game_dir();
    let mut r: Vec<String> = Vec::new();
    r.push(crate::platform::path_join(instance.path.as_str(), "client.jar"));
    r.push(version_jar(game_dir.as_str(), instance.minecraft_version.as_str()));
    r
}

/// The non-blank entries, in order.
pub open spec fn non_blank(entries: Seq<Seq<char>>) -> Seq<Seq<char>>
    decreases entries.len(),
{
    if entries.len() == 0 {
        Seq::empty()
    } else {
        let rest = non_blank(entries.drop_last());
        if trim_spec(entries.last()).len() == 0 {
            rest
        } else {
            rest.push(entries.last())
        }
    }
}

pub open spec fn empty_classpath_message() -> Seq<char> {
    "Classpath is empty — no libraries or client.jar found"@
}

pub open spec fn filtered_classpath_message() -> Seq<char> {
    "Classpath is empty after filtering invalid entries"@
}

/// The entries that end up on the classpath, in order.
pub open spec fn final_entries(entries: Seq<Seq<char>>, os: HostOs) -> Seq<Seq<char>> {
    prioritized(dedup_spec(non_blank(entries), os))
}

/// Cleans up the gathered entries and joins them: blank entries go, each
/// entry is kept once, bootstrap jars go first. No entries at all, or none
/// left, is an error.
pub fn finish_classpath(entries: Vec<String>, os: HostOs) -> (r: Result<String, LauncherError>)
    ensures
        entries@.len() == 0 ==> r is Err && match r->Err_0 {
            LauncherError::Other(m) => m@ == empty_classpath_message(),
            _ => false,
        },
        entries@.len() > 0 && final_entries(string_views(entries@), os).len() == 0 ==> r is Err
            && match r->Err_0 {
            LauncherError::Other(m) => m@ == filtered_classpath_message(),
            _ => false,
        },
        entries@.len() > 0 && final_entries(string_views(entries@), os).len() > 0 ==> r is Ok
            && r->Ok_0@ == crate::text::join_spec(
            final_entries(string_views(entries@), os),
            crate::platform::classpath_separator(os),
        ),
{
    if entries.len() == 0 {
        return Err(
            LauncherError::Other(
                String::from_str("Classpath is empty — no libraries or client.jar found"),
            ),
        );
    }
    let ghost a = string_views(entries@);
    let mut kept: Vec<String> = Vec::new();
    let mut i: usize = 0;
    while i < entries.len()
        invariant
            i <= entries.len(),
            a == string_views(entries@),
            string_views(kept@) == non_blank(a.take(i as int)),
        decreases entries.len() - i,
    {
        assert(a.take(i + 1).drop_last() =~= a.take(i as int));
        if !str_is_blank(entries[i].as_str()) {
            let ghost before = string_views(kept@);
            kept.push(entries[i].clone());
            assert(string_views(kept@) =~= before.push(a[i as int]));
        }
        i += 1;
    }
    assert(a.take(entries.len() as int) =~= a);
    dedup_preserving_order(&mut kept, os);
    prioritize_bootstrap_entries(&mut kept);
    if kept.len() == 0 {
        return Err(
            LauncherError::Other(
                String::from_str("Classpath is empty after filtering invalid entries"),
            ),
        );
    }
    Ok(crate::text::join_strings(&kept, crate::platform::get_classpath_separator(os)))
}

/// What `build_classpath` puts together, in order: the resolved ASM jars,
/// the other resolved libraries, the local jars that join them, the version
/// jars found, and the client jar found.
pub open spec fn gathered_entries(
    instance: Instance,
    asm_entries: Seq<Seq<char>>,
    library_entries: Seq<Seq<char>>,
    local_paths: Seq<Seq<char>>,
    local_texts: Seq<Seq<char>>,
    version_jars: Seq<Seq<char>>,
    client_jar: Option<Seq<char>>,
    os: HostOs,
) -> Seq<Seq<char>> {
    let declared = asm_entries + library_entries;
    declared + local_entries(instance, declared, local_paths, local_texts, os) + version_jars + match client_jar {
        Some(c) => seq![c],
        None => Seq::empty(),
    }
}

fn append_strings(out: &mut Vec<String>, more: &Vec<String>)
    ensures
        string_views(final(out)@) == string_views(old(out)@) + string_views(more@),
{
    let ghost start = string_views(out@);
    let mut i: usize = 0;
    while i < more.len()
        invariant
            i <= more.len(),
            string_views(out@) == start + string_views(more@).take(i as int),
        decreases more.len() - i,
    {
        let ghost before = string_views(out@);
        out.push(more[i].clone());
        assert(string_views(out@) =~= before.push(more@[i as int]@));
        assert(string_views(more@).take(i + 1) =~= string_views(more@).take(i as int).push(
            more@[i as int]@,
        ));
        i += 1;
    }
    assert(string_views(more@).take(more.len() as int) =~= string_views(more@));
}

/// Builds the classpath of a launch from what was found on disk:
/// `asm_entries` and `library_entries` are the resolved entries of
/// `plan_libraries`' two lists (in order, unresolvable ones left out),
/// `local_paths`/`local_texts` the jars found under the instance's library
/// directories, `version_jars` and `client_jar` the candidates that exist.
pub fn build_classpath(
    instance: &Instance,
    asm_entries: &Vec<String>,
    library_entries: &Vec<String>,
    local_paths: &Vec<String>,
    local_texts: &Vec<String>,
    version_jars: &Vec<String>,
    client_jar: Option<String>,
    os: HostOs,
) -> (r: Result<String, LauncherError>)
    requires
        local_paths.len() == local_texts.len(),
    ensures
        ({
            let g = gathered_entries(
                *instance,
                string_views(asm_entries@),
                string_views(library_entries@),
                string_views(local_paths@),
                string_views(local_texts@),
                string_views(version_jars@),
                match client_jar {
                    Some(c) => Some(c@),
                    None => None,
                },
                os,
            );
            &&& g.len() == 0 ==> r is Err && match r->Err_0 {
                LauncherError::Other(m) => m@ == empty_classpath_message(),
                _ => false,
            }
            &&& g.len() > 0 && final_entries(g, os).len() == 0 ==> r is Err && match r->Err_0 {
                LauncherError::Other(m) => m@ == filtered_classpath_message(),
                _ => false,
            }
            &&& g.len() > 0 && final_entries(g, os).len() > 0 ==> r is Ok && r->Ok_0@
                == crate::text::join_spec(final_entries(g, os), crate::platform::classpath_separator(os))
        }),
{
    let mut entries: Vec<String> = Vec::new();
    append_strings(&mut entries, asm_entries);
    append_strings(&mut entries, library_entries);
    assert(string_views(entries@) =~= string_views(asm_entries@) + string_views(library_entries@));
    let local = plan_local_jars(instance, &entries, local_paths, local_texts, os);
    append_strings(&mut entries, &local);
    append_strings(&mut entries, version_jars);
    match client_jar {
        Some(c) => {
            let ghost before = string_views(entries@);
            entries.push(c);
            assert(string_views(entries@) =~= before + seq![c@]);
        },
        None => {
            assert(string_views(entries@) =~= string_views(entries@) + Seq::<Seq<char>>::empty());
        },
    }
    finish_classpath(entries, os)
}

/// Where a declared library may be found, in the order tried after the path
/// itself (when it is absolute): relative to the libraries directory, the
/// instance, the game directory's and the instance's `libraries`; then, for a
/// Maven coordinate, its repository path under the libraries directory, the
/// instance's `libraries` and the game directory's `libraries`.
pub open spec fn library_candidates_of(instance: Instance, libs_dir: Seq<char>, raw: Seq<char>) -> Seq<Seq<char>> {
    let j = |a: Seq<char>, b: Seq<char>| crate::platform::path_join_result(a, b);
    let game_dir = j(instance.path@, "minecraft"@);
    let relative = seq![
        j(libs_dir, raw),
        j(instance.path@, raw),
        j(j(game_dir, "libraries"@), raw),
        j(j(instance.path@, "libraries"@), raw),
    ];
    match crate::maven::parse_coordinate(raw) {
        Some(a) => {
            let local = crate::maven::local_path_of(a);
            relative + seq![
                j(libs_dir, local),
                j(j(instance.path@, "libraries"@), local),
                j(j(game_dir, "libraries"@), local),
            ]
        },
        None => relative,
    }
}

/// The places to look for a declared library; the first that exists and is
/// allowed on the classpath is used.
pub fn library_entry_candidates(instance: &Instance, libs_dir: &str, raw: &str) -> (r: Vec<String>)
    ensures
        string_views(r@) == library_candidates_of(*instance, libs_dir@, raw@),
{
    let game_dir = instance.game_dir();
    let game_libs = crate::platform::path_join(game_dir.as_str(), "libraries");
    let inst_libs = crate::platform::path_join(instance.path.as_str(), "libraries");
    let mut r: Vec<String> = Vec::new();
    r.push(crate::platform::path_join(libs_dir, raw));
    r.push(crate::platform::path_join(instance.path.as_str(), raw));
    r.push(crate::platform::path_join(game_libs.as_str(), raw));
    r.push(crate::platform::path_join(inst_libs.as_str(), raw));
    let ghost rel = string_views(r@);
    match crate::maven::MavenArtifact::parse(raw) {
        Ok(a) => {
            let local = a.local_path();
            r.push(crate::platform::path_join(libs_dir, local.as_str()));
            r.push(crate::platform::path_join(inst_libs.as_str(), local.as_str()));
            r.push(crate::platform::path_join(game_libs.as_str(), local.as_str()));
        },
        Err(_) => {},
    }
    assert(string_views(r@) =~= library_candidates_of(*instance, libs_dir@, raw@));
    r
}

/// An entry of a natives jar that is extracted: a file at the top level of
/// the jar (no `/` or `\\`, nothing of `META-INF`) with a native library's
/// extension.
pub open spec fn native_entry(name: Seq<char>) -> bool {
    !seq_contains(name, "META-INF"@) && !seq_contains(name, "/"@) && !seq_contains(name, "\\"@) && (
    seq_ends_with(name, ".dll"@) || seq_ends_with(name, ".so"@) || seq_ends_with(name, ".dylib"@)
        || seq_ends_with(name, ".jnilib"@))
}

/// Whether a natives jar entry is extracted.
pub fn is_native_library_entry(name: &str) -> (b: bool)
    ensures
        b == native_entry(name@),
{
    !str_contains(name, "META-INF") && !str_contains(name, "/") && !str_contains(name, "\\") && (
    crate::text::str_ends_with(name, ".dll") || crate::text::str_ends_with(name, ".so")
        || crate::text::str_ends_with(name, ".dylib") || crate::text::str_ends_with(name, ".jnilib"))
}

} // verus!
