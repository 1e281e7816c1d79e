//! Tuning an instance: memory recommendations, JVM flags, and a look at its mods.
use vstd::prelude::*;

use crate::model::LoaderType;
use crate::payloads::OptimizationModePayload;
use crate::text::{lowercase_of, seq_contains, seq_starts_with, str_contains, string_views, trim_spec};

verus! {

pub open spec fn base_memory(mod_count: nat) -> int {
    if mod_count <= 50 {
        5120
    } else if mod_count <= 150 {
        7168
    } else {
        10240
    }
}

pub open spec fn recommended_memory(mod_count: nat, mode: OptimizationModePayload) -> int {
    match mode {
        OptimizationModePayload::Balanced => base_memory(mod_count),
        OptimizationModePayload::MaxPerformance => base_memory(mod_count) + 1024,
        OptimizationModePayload::LowPower => if base_memory(mod_count) - 1024 < 4096 {
            4096
        } else {
            base_memory(mod_count) - 1024
        },
    }
}

/// The memory (MB) suggested for a number of mods: 5 GB up to 50 mods, 7 GB
/// up to 150, 10 GB beyond; one more GB for maximum performance, one less (but
/// at least 4 GB) for low power.
pub fn recommended_memory_for_mod_count(mod_count: u64, mode: &OptimizationModePayload) -> (r: u32)
    ensures
        r == recommended_memory(mod_count as nat, *mode),
{
    let base: u32 = if mod_count <= 50 {
        5120
    } else if mod_count <= 150 {
        7168
    } else {
        10240
    };
    match mode {
        OptimizationModePayload::Balanced => base,
        OptimizationModePayload::MaxPerformance => base + 1024,
        OptimizationModePayload::LowPower => if base - 1024 < 4096 {
            4096
        } else {
            base - 1024
        },
    }
}

/// What the system keeps for itself: 6 GB with 32 GB or more, 4 GB with 16 GB
/// or more, 3 GB otherwise.
pub open spec fn system_reserve(total_mb: u64) -> int {
    if total_mb >= 32 * 1024 {
        6144
    } else if total_mb >= 16 * 1024 {
        4096
    } else {
        3072
    }
}

/// `x` truncated to 32 bits, as `as u32` does.
pub open spec fn low_32(x: int) -> int {
    x % 0x1_0000_0000
}

pub open spec fn max_int(a: int, b: int) -> int {
    if a >= b {
        a
    } else {
        b
    }
}

pub open spec fn min_int(a: int, b: int) -> int {
    if a <= b {
        a
    } else {
        b
    }
}

/// The cap on the game's memory: the smaller of the share of total memory
/// and what is available beyond the system's reserve (at least 2 GB), and
/// never below 2 GB.
pub open spec fn memory_cap(hard_cap_by_total: u32, available_mb: u64, total_mb: u64) -> int {
    let available = if available_mb >= system_reserve(total_mb) {
        available_mb - system_reserve(total_mb)
    } else {
        0
    };
    let available_cap = low_32(available);
    max_int(min_int(hard_cap_by_total as int, max_int(available_cap, 2048)), 2048)
}

pub open spec fn clamped_memory(hard_cap_by_total: u32, available_mb: u64, total_mb: u64, suggested_mb: u32) -> int {
    min_int(max_int(suggested_mb as int, 2048), memory_cap(hard_cap_by_total, available_mb, total_mb))
}

pub open spec fn clamp_note() -> Seq<char> {
    "Ajustamos la RAM para evitar inestabilidad del sistema (límite dinámico aplicado)."@
}

/// Keeps a suggested memory amount within what the machine can spare, with a
/// note when it had to be lowered. `hard_cap_by_total` is 60% of the total
/// memory, rounded down.
pub fn clamp_memory_to_safe_bounds(total_mb: u64, available_mb: u64, suggested_mb: u32, hard_cap_by_total: u32) -> (r: (u32, Vec<String>))
    ensures
        r.0 == clamped_memory(hard_cap_by_total, available_mb, total_mb, suggested_mb),
        max_int(suggested_mb as int, 2048) > memory_cap(hard_cap_by_total, available_mb, total_mb)
            ==> string_views(r.1@) == seq![clamp_note()],
        max_int(suggested_mb as int, 2048) <= memory_cap(hard_cap_by_total, available_mb, total_mb)
            ==> r.1@.len() == 0,
{
    let reserve: u64 = if total_mb >= 32 * 1024 {
        6144
    } else if total_mb >= 16 * 1024 {
        4096
    } else {
        3072
    };
    let available = if available_mb >= reserve {
        available_mb - reserve
    } else {
        0
    };
    let available_cap = (available % 0x1_0000_0000) as u32;
    let floor_available = if available_cap >= 2048 {
        available_cap
    } else {
        2048
    };
    let mut cap = if hard_cap_by_total <= floor_available {
        hard_cap_by_total
    } else {
        floor_available
    };
    if cap < 2048 {
        cap = 2048;
    }
    let mut final_mb = if suggested_mb >= 2048 {
        suggested_mb
    } else {
        2048
    };
    let mut notes: Vec<String> = Vec::new();
    if final_mb > cap {
        final_mb = cap;
        notes.push(
            String::from_str(
                "Ajustamos la RAM para evitar inestabilidad del sistema (límite dinámico aplicado).",
            ),
        );
        assert(string_views(notes@) =~= seq![clamp_note()]);
    }
    (final_mb, notes)
}

/// The initial heap: half the maximum, at least 1 GB.
pub fn recommended_xms(xmx_mb: u32) -> (r: u32)
    ensures
        r == max_int(xmx_mb as int / 2, 1024),
{
    let half = xmx_mb / 2;
    if half >= 1024 {
        half
    } else {
        1024
    }
}

/// G1 flags for the game; the experimental switch only from Java 17, plus a
/// flag for the chosen mode.
pub open spec fn optimized_args_of(java_major: u32, mode: OptimizationModePayload) -> Seq<Seq<char>> {
    let base = if java_major < 17 {
        seq![
            "-XX:+UseG1GC"@,
            "-XX:G1NewSizePercent=20"@,
            "-XX:G1MaxNewSizePercent=60"@,
            "-XX:MaxGCPauseMillis=50"@,
            "-XX:G1HeapRegionSize=16M"@,
            "-XX:+AlwaysPreTouch"@,
        ]
    } else {
        seq![
            "-XX:+UseG1GC"@,
            "-XX:+UnlockExperimentalVMOptions"@,
            "-XX:G1NewSizePercent=20"@,
            "-XX:G1MaxNewSizePercent=60"@,
            "-XX:MaxGCPauseMillis=50"@,
            "-XX:G1HeapRegionSize=16M"@,
            "-XX:+AlwaysPreTouch"@,
        ]
    };
    match mode {
        OptimizationModePayload::Balanced => base,
        OptimizationModePayload::MaxPerformance => base.push("-XX:InitiatingHeapOccupancyPercent=15"@),
        OptimizationModePayload::LowPower => base.push("-XX:MaxGCPauseMillis=80"@),
    }
}

/// The tuned JVM flags for a Java major version and mode.
pub fn optimized_jvm_args(java_major: u32, mode: &OptimizationModePayload) -> (r: Vec<String>)
    ensures
        string_views(r@) == optimized_args_of(java_major, *mode),
{
    let mut args: Vec<String> = Vec::new();
    args.push(String::from_str("-XX:+UseG1GC"));
    if java_major >= 17 {
        args.push(String::from_str("-XX:+UnlockExperimentalVMOptions"));
    }
    args.push(String::from_str("-XX:G1NewSizePercent=20"));
    args.push(String::from_str("-XX:G1MaxNewSizePercent=60"));
    args.push(String::from_str("-XX:MaxGCPauseMillis=50"));
    args.push(String::from_str("-XX:G1HeapRegionSize=16M"));
    args.push(String::from_str("-XX:+AlwaysPreTouch"));
    match mode {
        OptimizationModePayload::Balanced => {},
        OptimizationModePayload::MaxPerformance => {
            args.push(String::from_str("-XX:InitiatingHeapOccupancyPercent=15"));
        },
        OptimizationModePayload::LowPower => {
            args.push(String::from_str("-XX:MaxGCPauseMillis=80"));
        },
    }
    assert(string_views(args@) =~= optimized_args_of(java_major, *mode));
    args
}

/// Blank arguments and memory flags are not kept when tuning.
pub open spec fn kept_when_tuning(arg: Seq<char>) -> bool {
    trim_spec(arg).len() != 0 && !seq_starts_with(arg, "-Xmx"@) && !seq_starts_with(arg, "-Xms"@)
}

/// The arguments kept when tuning, in order.
pub open spec fn kept_args(v: Seq<Seq<char>>) -> Seq<Seq<char>>
    decreases v.len(),
{
    if v.len() == 0 {
        Seq::empty()
    } else {
        let rest = kept_args(v.drop_last());
        if kept_when_tuning(v.last()) {
            rest.push(v.last())
        } else {
            rest
        }
    }
}

proof fn lemma_kept_contains(v: Seq<Seq<char>>, x: Seq<char>)
    ensures
        kept_args(v).contains(x) <==> (v.contains(x) && kept_when_tuning(x)),
    decreases v.len(),
{
    if v.len() > 0 {
        let d = v.drop_last();
        lemma_kept_contains(d, x);
        let r = kept_args(d);
        if v.contains(x) && kept_when_tuning(x) {
            let q = choose|q: int| 0 <= q < v.len() && v[q] == x;
            if q < v.len() - 1 {
                assert(d[q] == x);
                let w = choose|w: int| 0 <= w < r.len() && r[w] == x;
                if kept_when_tuning(v.last()) {
                    assert(kept_args(v)[w] == x);
                } else {
                    assert(kept_args(v)[w] == x);
                }
            } else {
                assert(kept_args(v)[r.len() as int] == x);
            }
        }
        if kept_args(v).contains(x) {
            let w = choose|w: int| 0 <= w < kept_args(v).len() && kept_args(v)[w] == x;
            if w < r.len() {
                assert(r[w] == x);
                let q = choose|q: int| 0 <= q < d.len() && d[q] == x;
                assert(v[q] == x);
            } else {
                assert(v[v.len() - 1] == x);
            }
        }
    }
}

fn append_kept(out: &mut Vec<String>, v: &Vec<String>)
    ensures
        string_views(final(out)@) == string_views(old(out)@) + kept_args(string_views(v@)),
{
    let ghost start = string_views(out@);
    let ghost a = string_views(v@);
    let mut i: usize = 0;
    while i < v.len()
        invariant
            i <= v.len(),
            a == string_views(v@),
            string_views(out@) == start + kept_args(a.take(i as int)),
        decreases v.len() - i,
    {
        assert(a.take(i + 1).drop_last() =~= a.take(i as int));
        let arg = v[i].as_str();
        let keep = !crate::text::str_is_blank(arg) && !crate::text::str_starts_with(arg, "-Xmx")
            && !crate::text::str_starts_with(arg, "-Xms");
        if keep {
            let ghost before = string_views(out@);
            out.push(v[i].clone());
            assert(string_views(out@) =~= before.push(a[i as int]));
        }
        i += 1;
    }
    assert(a.take(v.len() as int) =~= a);
}

/// The instance's JVM arguments with the tuned flags added: blank ones and
/// `-Xmx`/`-Xms` dropped, sorted, each once.
pub fn merge_optimized_jvm_args(current: &Vec<String>, tuned: &Vec<String>) -> (r: Vec<String>)
    ensures
        crate::sorting::strictly_ascending(string_views(r@), crate::sorting::Rank::Text),
        forall|x: Seq<char>|
            string_views(r@).contains(x) <==> ((string_views(current@).contains(x)
                || string_views(tuned@).contains(x)) && kept_when_tuning(x)),
{
    let mut kept: Vec<String> = Vec::new();
    append_kept(&mut kept, current);
    append_kept(&mut kept, tuned);
    let ghost c = kept_args(string_views(current@));
    let ghost t = kept_args(string_views(tuned@));
    assert(string_views(kept@) =~= c + t);
    let r = crate::sorting::sorted_unique(&kept, crate::sorting::Rank::Text);
    proof {
        let all = c + t;
        let cv = string_views(current@);
        let tv = string_views(tuned@);
        assert(string_views(kept@) == all);
        assert forall|x: Seq<char>| #[trigger] all.contains(x) == ((cv.contains(x) || tv.contains(x))
            && kept_when_tuning(x)) by {
            lemma_kept_contains(cv, x);
            lemma_kept_contains(tv, x);
            if all.contains(x) {
                let q = choose|q: int| 0 <= q < all.len() && all[q] == x;
                if q < c.len() {
                    assert(c[q] == x);
                } else {
                    assert(t[q - c.len()] == x);
                }
            }
            if c.contains(x) {
                let q = choose|q: int| 0 <= q < c.len() && c[q] == x;
                assert(all[q] == x);
            }
            if t.contains(x) {
                let q = choose|q: int| 0 <= q < t.len() && t[q] == x;
                assert(all[q + c.len()] == x);
            }
        }
        assert(crate::sorting::same_texts(string_views(r@), all));
    }
    r
}

/// A mod's file name in lowercase (empty when the path has none).
pub open spec fn mod_name_of(path: Seq<char>) -> Seq<char> {
    match crate::classpath::file_name_result(path) {
        Some(n) => lowercase_of(n),
        None => lowercase_of(Seq::empty()),
    }
}

/// The lowercase file name of a mod.
pub fn normalize_mod_name(path: &str) -> (r: String)
    ensures
        r@ == mod_name_of(path@),
{
    match crate::classpath::path_file_name(path) {
        Some(n) => crate::text::to_lowercase(n.as_str()),
        None => {
            let e = String::new();
            assert(e@ =~= Seq::<char>::empty());
            crate::text::to_lowercase(e.as_str())
        },
    }
}

/// `Some(i)` for the first position of `-` or `_` in a name.
pub open spec fn key_end(name: Seq<char>, i: int) -> int
    decreases name.len() - i,
{
    if i < 0 || i >= name.len() {
        name.len() as int
    } else if name[i] == '-' || name[i] == '_' {
        i
    } else {
        key_end(name, i + 1)
    }
}

/// A mod's key: its name up to the first `-` or `_`.
pub open spec fn mod_key_of(name: Seq<char>) -> Seq<char> {
    name.take(key_end(name, 0))
}

fn mod_key(name: &Vec<char>) -> (r: String)
    ensures
        r@ == mod_key_of(name@),
{
    let mut i: usize = 0;
    while i < name.len() && name[i] != '-' && name[i] != '_'
        invariant
            i <= name.len(),
            key_end(name@, 0) == key_end(name@, i as int),
        decreases name.len() - i,
    {
        i += 1;
    }
    let k = crate::text::copy_range(name, 0, i);
    assert(k@ =~= name@.take(i as int));
    crate::text::string_from_chars(k.as_slice())
}

/// What a look at the mods folder found.
#[derive(Debug, Clone)]
pub struct ModAnalysis {
    /// How many `.jar` files there are.
    pub mod_count: u64,
    /// Keys of mods present more than once, in the order the second copy was found.
    pub duplicates: Vec<String>,
    /// Warnings about mods that do not belong with the loader.
    pub conflicts: Vec<String>,
    /// Recommended performance mods that are missing.
    pub missing: Vec<String>,
}

pub open spec fn optifine_note() -> Seq<char> {
    "OptiFine puede generar conflictos en packs modernos (usa Sodium/Embeddium según loader)."@
}

pub open spec fn rubidium_note() -> Seq<char> {
    "Rubidium no es para Fabric; revisa compatibilidad del loader."@
}

pub open spec fn sodium_note() -> Seq<char> {
    "Sodium en Forge suele indicar mod incorrecto; usa Embeddium/Rubidium."@
}

/// The warnings about one mod's name.
pub open spec fn conflict_notes(name: Seq<char>, loader: LoaderType) -> Seq<Seq<char>> {
    let a: Seq<Seq<char>> = if seq_contains(name, "optifine"@) {
        seq![optifine_note()]
    } else {
        Seq::empty()
    };
    let b = if seq_contains(name, "rubidium"@) && loader == LoaderType::Fabric {
        a.push(rubidium_note())
    } else {
        a
    };
    if seq_contains(name, "sodium"@) && loader == LoaderType::Forge {
        b.push(sodium_note())
    } else {
        b
    }
}

fn push_conflicts(out: &mut Vec<String>, name: &str, loader: LoaderType)
    ensures
        string_views(final(out)@) == string_views(old(out)@) + conflict_notes(name@, loader),
{
    let ghost start = string_views(out@);
    if str_contains(name, "optifine") {
        out.push(
            String::from_str(
                "OptiFine puede generar conflictos en packs modernos (usa Sodium/Embeddium según loader).",
            ),
        );
    }
    if str_contains(name, "rubidium") && loader == LoaderType::Fabric {
        out.push(String::from_str("Rubidium no es para Fabric; revisa compatibilidad del loader."));
    }
    if str_contains(name, "sodium") && loader == LoaderType::Forge {
        out.push(
            String::from_str("Sodium en Forge suele indicar mod incorrecto; usa Embeddium/Rubidium."),
        );
    }
    assert(string_views(out@) =~= start + conflict_notes(name@, loader));
}

/// Whether a path names a `.jar` file (any case).
pub open spec fn is_jar_path(path: Seq<char>) -> bool {
    match crate::classpath::file_name_result(path) {
        Some(n) => match crate::classpath::extension_of(n) {
            Some(e) => crate::text::ascii_lower_seq(e) == "jar"@,
            None => false,
        },
        None => false,
    }
}

/// The names (lowercase) of the mods among the paths, in order; empty names included.
pub open spec fn jar_names(paths: Seq<Seq<char>>) -> Seq<Seq<char>>
    decreases paths.len(),
{
    if paths.len() == 0 {
        Seq::empty()
    } else {
        let rest = jar_names(paths.drop_last());
        if is_jar_path(paths.last()) {
            rest.push(mod_name_of(paths.last()))
        } else {
            rest
        }
    }
}

/// The non-empty names among them, in order.
pub open spec fn named(names: Seq<Seq<char>>) -> Seq<Seq<char>>
    decreases names.len(),
{
    if names.len() == 0 {
        Seq::empty()
    } else {
        let rest = named(names.drop_last());
        if names.last().len() == 0 {
            rest
        } else {
            rest.push(names.last())
        }
    }
}

/// How often `key` is the key of one of the names.
pub open spec fn key_count(names: Seq<Seq<char>>, key: Seq<char>) -> nat
    decreases names.len(),
{
    if names.len() == 0 {
        0
    } else {
        key_count(names.drop_last(), key) + if mod_key_of(names.last()) == key {
            1nat
        } else {
            0nat
        }
    }
}

/// Keys found a second time, in the order of that second finding.
pub open spec fn duplicate_keys(names: Seq<Seq<char>>) -> Seq<Seq<char>>
    decreases names.len(),
{
    if names.len() == 0 {
        Seq::empty()
    } else {
        let rest = duplicate_keys(names.drop_last());
        if key_count(names, mod_key_of(names.last())) == 2 {
            rest.push(mod_key_of(names.last()))
        } else {
            rest
        }
    }
}

pub open spec fn all_conflicts(names: Seq<Seq<char>>, loader: LoaderType) -> Seq<Seq<char>>
    decreases names.len(),
{
    if names.len() == 0 {
        Seq::empty()
    } else {
        all_conflicts(names.drop_last(), loader) + conflict_notes(names.last(), loader)
    }
}

/// The recommended mods whose key is not among the names.
pub open spec fn missing_recommended(names: Seq<Seq<char>>) -> Seq<Seq<char>> {
    missing_recommended_upto(names, 3)
}

/// Looks at the files of a mods folder: counts the `.jar` files, and from
/// their lowercase names finds duplicates, loader conflicts and missing
/// recommendations.
pub fn analyze_mods(loader: LoaderType, paths: &Vec<String>) -> (r: ModAnalysis)
    ensures
        r.mod_count == jar_names(string_views(paths@)).len(),
        string_views(r.duplicates@) == duplicate_keys(named(jar_names(string_views(paths@)))),
        string_views(r.conflicts@) == all_conflicts(named(jar_names(string_views(paths@))), loader),
        string_views(r.missing@) == missing_recommended(named(jar_names(string_views(paths@)))),
{
    let ghost pv = string_views(paths@);
    let mut count: u64 = 0;
    let mut keys: Vec<String> = Vec::new();
    let mut names: Vec<String> = Vec::new();
    let mut duplicates: Vec<String> = Vec::new();
    let mut conflicts: Vec<String> = Vec::new();
    let mut i: usize = 0;
    while i < paths.len()
        invariant
            i <= paths.len(),
            pv == string_views(paths@),
            count == jar_names(pv.take(i as int)).len(),
            count <= i,
            string_views(names@) == named(jar_names(pv.take(i as int))),
            keys@.len() == names@.len(),
            forall|j: int| 0 <= j < keys@.len() ==> #[trigger] keys@[j]@ == mod_key_of(names@[j]@),
            string_views(duplicates@) == duplicate_keys(string_views(names@)),
            string_views(conflicts@) == all_conflicts(string_views(names@), loader),
        decreases paths.len() - i,
    {
        assert(pv.take(i + 1).drop_last() =~= pv.take(i as int));
        assert(pv.take(i + 1).last() == paths@[i as int]@);
        let p = paths[i].as_str();
        if !is_jar(p) {
            i += 1;
            continue;
        }
        count = count + 1;
        let name = normalize_mod_name(p);
        let nv = crate::text::chars_of(name.as_str());
        proof {
            let jn = jar_names(pv.take(i as int));
            assert(jar_names(pv.take(i + 1)) == jn.push(name@));
            assert(jn.push(name@).drop_last() =~= jn);
            assert(jn.push(name@).last() == name@);
        }
        if nv.len() == 0 {
            i += 1;
            continue;
        }
        let key = mod_key(&nv);
        assert(name@.len() != 0);
        let ghost old_names = string_views(names@);
        let mut seen: u64 = 0;
        let mut j: usize = 0;
        while j < keys.len()
            invariant
                j <= keys.len(),
                keys@.len() == names@.len(),
                old_names == string_views(names@),
                forall|m: int| 0 <= m < keys@.len() ==> #[trigger] keys@[m]@ == mod_key_of(names@[m]@),
                seen == key_count(old_names.take(j as int), key@),
                seen <= j,
            decreases keys.len() - j,
        {
            assert(old_names.take(j + 1).drop_last() =~= old_names.take(j as int));
            assert(old_names[j as int] == names@[j as int]@);
            if crate::text::str_eq(keys[j].as_str(), key.as_str()) {
                seen = seen + 1;
            }
            j += 1;
        }
        assert(old_names.take(keys.len() as int) =~= old_names);
        let ghost before_dup = string_views(duplicates@);
        let ghost before_conf = string_views(conflicts@);
        names.push(name.clone());
        keys.push(key.clone());
        let ghost new_names = string_views(names@);
        assert(new_names =~= old_names.push(name@));
        assert(new_names.drop_last() =~= old_names);
        if seen == 1 {
            duplicates.push(key);
            assert(string_views(duplicates@) =~= before_dup.push(mod_key_of(name@)));
        }
        push_conflicts(&mut conflicts, name.as_str(), loader);
        i += 1;
    }
    assert(pv.take(paths.len() as int) =~= pv);
    let ghost nv = string_views(names@);
    let mut missing: Vec<String> = Vec::new();
    let recs: [&str; 3] = ["sodium", "lithium", "ferritecore"];
    let mut k: usize = 0;
    while k < 3
        invariant
            k <= 3,
            keys@.len() == names@.len(),
            nv == string_views(names@),
            forall|m: int| 0 <= m < keys@.len() ==> #[trigger] keys@[m]@ == mod_key_of(names@[m]@),
            recs@[0]@ == "sodium"@,
            recs@[1]@ == "lithium"@,
            recs@[2]@ == "ferritecore"@,
            string_views(missing@) == missing_recommended_upto(nv, k as int),
        decreases 3 - k,
    {
        let rec = recs[k];
        assert(rec@ == seq!["sodium"@, "lithium"@, "ferritecore"@][k as int]);
        let mut present = false;
        let mut j: usize = 0;
        while j < keys.len()
            invariant
                j <= keys.len(),
                keys@.len() == names@.len(),
                nv == string_views(names@),
                forall|m: int| 0 <= m < keys@.len() ==> #[trigger] keys@[m]@ == mod_key_of(names@[m]@),
                present == (key_count(nv.take(j as int), rec@) > 0),
            decreases keys.len() - j,
        {
            assert(nv.take(j + 1).drop_last() =~= nv.take(j as int));
            assert(nv[j as int] == names@[j as int]@);
            if crate::text::str_eq(keys[j].as_str(), rec) {
                present = true;
            }
            j += 1;
        }
        assert(nv.take(keys.len() as int) =~= nv);
        let ghost before = string_views(missing@);
        if !present {
            missing.push(String::from_str(rec));
            assert(string_views(missing@) =~= before.push(rec@));
        }
        k += 1;
    }
    ModAnalysis { mod_count: count, duplicates, conflicts, missing }
}

/// `missing_recommended` over the first `n` recommendations.
pub open spec fn missing_recommended_upto(names: Seq<Seq<char>>, n: int) -> Seq<Seq<char>>
    decreases n,
{
    let r = seq!["sodium"@, "lithium"@, "ferritecore"@];
    if n <= 0 {
        Seq::empty()
    } else {
        let rest = missing_recommended_upto(names, n - 1);
        if key_count(names, r[n - 1]) == 0 {
            rest.push(r[n - 1])
        } else {
            rest
        }
    }
}

fn is_jar(path: &str) -> (b: bool)
    ensures
        b == is_jar_path(path@),
{
    let name = match crate::classpath::path_file_name(path) {
        Some(n) => n,
        None => return false,
    };
    let v = crate::text::chars_of(name.as_str());
    let i = crate::text::rfind_char(&v, '.');
    proof {
        crate::text::lemma_last_index_of_bounds(v@, '.');
        reveal_strlit("jar");
        assert(crate::text::ascii_lower_seq("jar"@) =~= "jar"@);
    }
    match i {
        Some(i) => {
            if i == 0 {
                return false;
            }
            let ext = crate::text::copy_range(&v, i + 1, v.len());
            assert(ext@ =~= v@.skip(i + 1));
            let s = crate::text::string_from_chars(ext.as_slice());
            crate::text::str_eq_ignore_ascii_case(s.as_str(), "jar")
        },
        None => false,
    }
}

/// Log files: `.log` and `.gz` (any case).
pub open spec fn is_log_path(path: Seq<char>) -> bool {
    match crate::classpath::file_name_result(path) {
        Some(n) => match crate::classpath::extension_of(n) {
            Some(e) => crate::text::ascii_lower_seq(e) == "log"@ || crate::text::ascii_lower_seq(e)
                == "gz"@,
            None => false,
        },
        None => false,
    }
}

/// Whether a file of the logs folder is cleaned up.
pub fn is_log_file(path: &str) -> (b: bool)
    ensures
        b == is_log_path(path@),
{
    let name = match crate::classpath::path_file_name(path) {
        Some(n) => n,
        None => return false,
    };
    let v = crate::text::chars_of(name.as_str());
    let i = crate::text::rfind_char(&v, '.');
    proof {
        crate::text::lemma_last_index_of_bounds(v@, '.');
        reveal_strlit("log");
        reveal_strlit("gz");
        assert(crate::text::ascii_lower_seq("log"@) =~= "log"@);
        assert(crate::text::ascii_lower_seq("gz"@) =~= "gz"@);
    }
    match i {
        Some(i) => {
            if i == 0 {
                return false;
            }
            let ext = crate::text::copy_range(&v, i + 1, v.len());
            assert(ext@ =~= v@.skip(i + 1));
            let s = crate::text::string_from_chars(ext.as_slice());
            crate::text::str_eq_ignore_ascii_case(s.as_str(), "log")
                || crate::text::str_eq_ignore_ascii_case(s.as_str(), "gz")
        },
        None => false,
    }
}

} // verus!
