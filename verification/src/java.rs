//! Java runtime facts: reading `java -version` output, version numbers, and
//! choosing among managed runtimes.
use vstd::prelude::*;

use crate::error::LauncherError;
use crate::platform::{java_exe, java_exe_name, path_join, path_join_result, HostOs};
use crate::text::{
    chars_of, contains_chars, copy_range, find_char_in, first_index_of, lemma_first_index_of_bounds,
    replace_all_chars, seq_contains, spec_replace_all, split_chars, split_spec, string_from_chars,
    u64_to_decimal, decimal, views, Sep,
};
use crate::version_parts::{dotted_part_or, nth_or_zero, u32_readings};

verus! {

/// A Java installation found by running `java -version`.
#[derive(Debug, Clone)]
pub struct JavaInstallation {
    pub path: String,
    pub version: String,
    pub major: u32,
    pub is_64bit: bool,
    pub vendor: String,
}

/// A runtime installed and managed by the launcher.
#[derive(Debug, Clone)]
pub struct ManagedRuntimeInfo {
    pub identifier: String,
    pub major: u32,
    pub vendor: String,
    pub version: String,
    pub arch: String,
    pub root: String,
    pub java_bin: String,
}

pub open spec fn track_of(required_major: u32) -> u32 {
    if required_major <= 8 {
        8
    } else if required_major >= 21 {
        21
    } else {
        17
    }
}

/// The managed runtime line that serves a required Java major version: 8, 17 or 21.
pub fn runtime_track(required_major: u32) -> (track: u32)
    ensures
        track == track_of(required_major),
{
    if required_major <= 8 {
        8
    } else if required_major >= 21 {
        21
    } else {
        17
    }
}

/// Every track is served by itself: mapping twice changes nothing, and the
/// result is one of 8, 17 and 21.
pub proof fn runtime_track_is_idempotent(required_major: u32)
    ensures
        track_of(track_of(required_major)) == track_of(required_major),
        track_of(required_major) == 8 || track_of(required_major) == 17 || track_of(
            required_major,
        ) == 21,
{
}

/// `<data_dir>/runtimes/java<track>`.
pub open spec fn managed_dir_of(data_dir: Seq<char>, major: u32) -> Seq<char> {
    path_join_result(
        path_join_result(data_dir, "runtimes"@),
        "java"@ + decimal(track_of(major) as nat),
    )
}

/// Directory of the managed runtime that serves `major`.
pub fn managed_runtime_dir(data_dir: &str, major: u32) -> (r: String)
    ensures
        r@ == managed_dir_of(data_dir@, major),
{
    let runtimes = path_join(data_dir, "runtimes");
    let mut name = String::from_str("java");
    let digits = u64_to_decimal(runtime_track(major) as u64);
    name.append(digits.as_str());
    path_join(runtimes.as_str(), name.as_str())
}

/// Text between the first two `"` of a line, if it has two.
pub open spec fn quoted_in(line: Seq<char>) -> Option<Seq<char>> {
    let a = first_index_of(line, '"');
    if a >= line.len() {
        None
    } else {
        let rest = line.skip(a + 1);
        let b = first_index_of(rest, '"');
        if b >= rest.len() {
            None
        } else {
            Some(rest.take(b))
        }
    }
}

/// The first line of `s` that holds a quoted text, and that text.
pub open spec fn first_quoted_line(s: Seq<char>) -> Option<Seq<char>>
    decreases s.len(),
{
    let k = first_index_of(s, '\n');
    match quoted_in(s.take(k)) {
        Some(v) => Some(v),
        None => if k < s.len() {
            proof {
                lemma_first_index_of_bounds(s, '\n');
            }
            first_quoted_line(s.skip(k + 1))
        } else {
            None
        },
    }
}

proof fn lemma_first_index_nonneg(s: Seq<char>, c: char)
    ensures
        0 <= first_index_of(s, c) <= s.len(),
{
    lemma_first_index_of_bounds(s, c);
}

/// The version string of `java -version` output: the text inside the first
/// pair of double quotes on a line.
pub fn parse_version_string(output: &str) -> (r: Option<String>)
    ensures
        match r {
            Some(v) => first_quoted_line(output@) == Some(v@),
            None => first_quoted_line(output@).is_none(),
        },
{
    let v = chars_of(output);
    let n = v.len();
    let mut p: usize = 0;
    assert(v@.skip(0) =~= v@);
    while p <= n
        invariant
            p <= n + 1,
            n == v.len(),
            v@ == output@,
            p <= n ==> first_quoted_line(v@) == first_quoted_line(v@.skip(p as int)),
            p > n ==> first_quoted_line(v@).is_none(),
        decreases n + 1 - p,
    {
        let ghost rest = v@.skip(p as int);
        let k = find_char_in(&v, '\n', p, n);
        assert(v@.subrange(p as int, n as int) =~= rest);
        let ghost line = rest.take(k - p);
        assert(line =~= v@.subrange(p as int, k as int));
        let a = find_char_in(&v, '"', p, k);
        if a < k {
            let b = find_char_in(&v, '"', a + 1, k);
            proof {
                lemma_first_index_nonneg(line, '"');
                assert(line.skip(a - p + 1) =~= v@.subrange(a + 1, k as int));
            }
            if b < k {
                let found = copy_range(&v, a + 1, b);
                assert(line.skip(a - p + 1).take(b - (a + 1)) =~= found@);
                return Some(string_from_chars(found.as_slice()));
            }
        }
        if k == n {
            return None;
        }
        assert(rest.skip(k - p + 1) =~= v@.skip(k + 1));
        p = k + 1;
    }
    None
}

/// The vendor named by the first line that names a known one.
pub open spec fn vendor_of(s: Seq<char>) -> Seq<char>
    decreases s.len(),
{
    let k = first_index_of(s, '\n');
    let line = s.take(k);
    if seq_contains(line, "Temurin"@) {
        "Temurin"@
    } else if seq_contains(line, "Adoptium"@) {
        "Adoptium"@
    } else if k < s.len() {
        proof {
            lemma_first_index_of_bounds(s, '\n');
        }
        vendor_of(s.skip(k + 1))
    } else {
        "unknown"@
    }
}

/// `Temurin` or `Adoptium` when a line of the output names it, else `unknown`.
pub fn parse_vendor(output: &str) -> (r: String)
    ensures
        r@ == vendor_of(output@),
{
    let v = chars_of(output);
    let temurin = chars_of("Temurin");
    let adoptium = chars_of("Adoptium");
    let n = v.len();
    let mut p: usize = 0;
    assert(v@.skip(0) =~= v@);
    while p <= n
        invariant
            p <= n,
            n == v.len(),
            v@ == output@,
            temurin@ == "Temurin"@,
            adoptium@ == "Adoptium"@,
            vendor_of(v@) == vendor_of(v@.skip(p as int)),
        decreases n + 1 - p,
    {
        let ghost rest = v@.skip(p as int);
        let k = find_char_in(&v, '\n', p, n);
        assert(v@.subrange(p as int, n as int) =~= rest);
        let line = copy_range(&v, p, k);
        assert(rest.take(k - p) =~= line@);
        if contains_chars(&line, &temurin) {
            return String::from_str("Temurin");
        }
        if contains_chars(&line, &adoptium) {
            return String::from_str("Adoptium");
        }
        if k == n {
            return String::from_str("unknown");
        }
        assert(rest.skip(k - p + 1) =~= v@.skip(k + 1));
        p = k + 1;
    }
    String::from_str("unknown")
}

/// The Java major version in a version string (`17.0.8` gives 17, `1.8.0_392` gives 8).
pub open spec fn major_of(version: Seq<char>) -> u32 {
    let segs = split_spec(version, Sep::Char('.'));
    let first = dotted_part_or(segs, 0, 0);
    if first == 1 {
        dotted_part_or(segs, 1, 1)
    } else {
        first
    }
}

/// The Java major version of a version string; the legacy `1.x` form yields `x`.
pub fn parse_major_version(version: &str) -> (r: u32)
    ensures
        r == major_of(version@),
{
    let v = chars_of(version);
    let segs = split_chars(&v, Sep::Char('.'));
    let first = part_or(&segs, 0, 0);
    if first == 1 {
        part_or(&segs, 1, 1)
    } else {
        first
    }
}

fn part_or(segs: &Vec<Vec<char>>, k: usize, dflt: u32) -> (r: u32)
    ensures
        r == dotted_part_or(views(segs@), k as int, dflt),
{
    if k < segs.len() {
        match crate::text::parse_u32(&segs[k]) {
            Some(v) => v,
            None => dflt,
        }
    } else {
        dflt
    }
}

/// The part of a version before its first `-` (`21.0.3+7-LTS` gives `21.0.3+7`).
pub open spec fn cleaned_version(raw: Seq<char>) -> Seq<char> {
    split_spec(raw, Sep::Char('-'))[0]
}

/// Drops the pre-release or distribution suffix that follows the first `-`.
pub fn clean_openjdk_version(raw: &str) -> (r: String)
    ensures
        r@ == cleaned_version(raw@),
{
    let v = chars_of(raw);
    let segs = split_chars(&v, Sep::Char('-'));
    proof {
        crate::text::lemma_split_nonempty(raw@, Sep::Char('-'));
    }
    string_from_chars(segs[0].as_slice())
}

/// `(major, minor, patch, build)` of a Java version string: the numeric
/// `.`-parts before the first `+` (padded with zeros), and the first
/// `.`-part after it (0 when absent or unreadable).
pub open spec fn java_version_tuple(version: Seq<char>) -> (u32, u32, u32, u32) {
    let cleaned = cleaned_version(version);
    let plus = first_index_of(cleaned, '+');
    let core = cleaned.take(plus);
    let nums = u32_readings(split_spec(core, Sep::Char('.')));
    let build = if plus < cleaned.len() {
        dotted_part_or(split_spec(cleaned.skip(plus + 1), Sep::Char('.')), 0, 0)
    } else {
        0u32
    };
    (nth_or_zero(nums, 0), nth_or_zero(nums, 1), nth_or_zero(nums, 2), build)
}

/// Reads a Java version string into `(major, minor, patch, build)`; every
/// string has a reading.
pub fn parse_java_version(version: &str) -> (r: Option<(u32, u32, u32, u32)>)
    ensures
        r == Some(java_version_tuple(version@)),
{
    let raw = chars_of(version);
    let segs = split_chars(&raw, Sep::Char('-'));
    proof {
        crate::text::lemma_split_nonempty(version@, Sep::Char('-'));
    }
    let cleaned = &segs[0];
    let plus = find_char_in(cleaned, '+', 0, cleaned.len());
    assert(cleaned@.subrange(0, cleaned@.len() as int) =~= cleaned@);
    let core = copy_range(cleaned, 0, plus);
    let core_segs = split_chars(&core, Sep::Char('.'));
    let nums = readings_of(&core_segs);
    let build = if plus < cleaned.len() {
        let after = copy_range(cleaned, plus + 1, cleaned.len());
        assert(after@ =~= cleaned@.skip(plus + 1));
        let after_segs = split_chars(&after, Sep::Char('.'));
        part_or(&after_segs, 0, 0)
    } else {
        0
    };
    let n0 = if nums.len() > 0 {
        nums[0]
    } else {
        0
    };
    let n1 = if nums.len() > 1 {
        nums[1]
    } else {
        0
    };
    let n2 = if nums.len() > 2 {
        nums[2]
    } else {
        0
    };
    Some((n0, n1, n2, build))
}

fn readings_of(segs: &Vec<Vec<char>>) -> (r: Vec<u32>)
    ensures
        r@ == u32_readings(views(segs@)),
{
    let ghost sv = views(segs@);
    let mut out: Vec<u32> = Vec::new();
    let mut i: usize = 0;
    assert(sv.take(0) =~= Seq::<Seq<char>>::empty());
    while i < segs.len()
        invariant
            i <= segs.len(),
            sv == views(segs@),
            sv.len() == segs.len(),
            out@ == u32_readings(sv.take(i as int)),
        decreases segs.len() - i,
    {
        assert(sv.take(i + 1).drop_last() =~= sv.take(i as int));
        assert(sv.take(i + 1).last() == segs@[i as int]@);
        match crate::text::parse_u32(&segs[i]) {
            Some(x) => out.push(x),
            None => {},
        }
        i += 1;
        assert(out@ =~= u32_readings(sv.take(i as int)));
    }
    assert(sv.take(segs.len() as int) =~= sv);
    out
}

/// Lexicographic order of version tuples, as `-1`, `0`, `1`.
pub open spec fn tuple_order(l: (u32, u32, u32, u32), r: (u32, u32, u32, u32)) -> int {
    if l.0 != r.0 {
        if l.0 < r.0 {
            -1
        } else {
            1
        }
    } else if l.1 != r.1 {
        if l.1 < r.1 {
            -1
        } else {
            1
        }
    } else if l.2 != r.2 {
        if l.2 < r.2 {
            -1
        } else {
            1
        }
    } else if l.3 != r.3 {
        if l.3 < r.3 {
            -1
        } else {
            1
        }
    } else {
        0
    }
}

/// The order of two Java versions, as `-1`, `0`, `1`.
pub open spec fn java_version_order(left: Seq<char>, right: Seq<char>) -> int {
    tuple_order(java_version_tuple(left), java_version_tuple(right))
}

pub fn java_version_order_value(left: &str, right: &str) -> (r: i8)
    ensures
        r == java_version_order(left@, right@),
{
    let l = parse_java_version(left).unwrap();
    let r = parse_java_version(right).unwrap();
    if l.0 != r.0 {
        if l.0 < r.0 {
            -1
        } else {
            1
        }
    } else if l.1 != r.1 {
        if l.1 < r.1 {
            -1
        } else {
            1
        }
    } else if l.2 != r.2 {
        if l.2 < r.2 {
            -1
        } else {
            1
        }
    } else if l.3 != r.3 {
        if l.3 < r.3 {
            -1
        } else {
            1
        }
    } else {
        0
    }
}

/// `version.replace('+', "_").replace(' ', "")`.
pub open spec fn version_id_of(version: Seq<char>) -> Seq<char> {
    spec_replace_all(spec_replace_all(version, seq!['+'], seq!['_']), seq![' '], Seq::empty())
}

/// Makes a version usable inside a runtime identifier.
pub fn normalize_version_for_id(version: &str) -> (r: String)
    ensures
        r@ == version_id_of(version@),
{
    let v = chars_of(version);
    let mut plus: Vec<char> = Vec::new();
    plus.push('+');
    let mut underscore: Vec<char> = Vec::new();
    underscore.push('_');
    let mut space: Vec<char> = Vec::new();
    space.push(' ');
    let none: Vec<char> = Vec::new();
    assert(plus@ =~= seq!['+']);
    assert(underscore@ =~= seq!['_']);
    assert(space@ =~= seq![' ']);
    assert(none@ =~= Seq::<char>::empty());
    let step = replace_all_chars(&v, &plus, &underscore);
    let out = replace_all_chars(&step, &space, &none);
    string_from_chars(out.as_slice())
}

pub open spec fn arch_name(arch: Seq<char>) -> Seq<char> {
    if arch == "x86_64"@ {
        "x64"@
    } else if arch == "aarch64"@ {
        "arm64"@
    } else {
        arch
    }
}

/// Adoptium's name of a CPU architecture as Rust reports it.
pub fn platform_arch(arch: &str) -> (r: String)
    ensures
        r@ == arch_name(arch@),
{
    if crate::text::str_eq(arch, "x86_64") {
        String::from_str("x64")
    } else if crate::text::str_eq(arch, "aarch64") {
        String::from_str("arm64")
    } else {
        String::from_str(arch)
    }
}

/// What `java -version` output tells about an installation.
pub open spec fn probe_of(path: Seq<char>, output: Seq<char>) -> Option<
    (Seq<char>, Seq<char>, u32, bool, Seq<char>),
> {
    match first_quoted_line(output) {
        Some(version) => Some(
            (path, version, major_of(version), seq_contains(output, "64-Bit"@), vendor_of(output)),
        ),
        None => None,
    }
}

/// Describes the installation at `path` from its `java -version` output;
/// `None` when the output holds no quoted version.
pub fn installation_from_version_output(path: &str, output: &str) -> (r: Option<JavaInstallation>)
    ensures
        match r {
            Some(j) => probe_of(path@, output@) == Some(
                (j.path@, j.version@, j.major, j.is_64bit, j.vendor@),
            ),
            None => probe_of(path@, output@).is_none(),
        },
{
    let version = match parse_version_string(output) {
        Some(v) => v,
        None => return None,
    };
    let major = parse_major_version(version.as_str());
    let is_64bit = crate::text::str_contains(output, "64-Bit");
    let vendor = parse_vendor(output);
    Some(JavaInstallation { path: String::from_str(path), version, major, is_64bit, vendor })
}

/// A managed runtime is usable when it has the wanted major version, is
/// 64-bit, and comes from Temurin/Adoptium.
pub open spec fn runtime_usable(info: JavaInstallation, required_major: u32) -> bool {
    info.major == required_major && info.is_64bit && (seq_contains(info.vendor@, "Temurin"@)
        || seq_contains(info.vendor@, "Adoptium"@))
}

/// Whether a probed runtime can serve as the managed runtime for `required_major`.
pub fn runtime_is_valid(info: &JavaInstallation, required_major: u32) -> (b: bool)
    ensures
        b == runtime_usable(*info, required_major),
{
    info.major == required_major && info.is_64bit && (crate::text::str_contains(
        info.vendor.as_str(),
        "Temurin",
    ) || crate::text::str_contains(info.vendor.as_str(), "Adoptium"))
}

/// What a managed runtime's `runtime.json` records.
#[derive(Debug, Clone)]
pub struct RuntimeMetadata {
    pub identifier: String,
    pub major: u32,
    pub vendor: String,
    pub version: String,
    pub arch: String,
    /// The format of the record; runtimes installed now write 2.
    pub schema_version: u32,
    /// SHA-256 (lowercase hex) of the runtime's Java binary.
    pub java_sha256: String,
    /// Whether the binaries were made executable already, so that it is not
    /// done again at every start.
    pub chmod_applied: bool,
}

/// The format version of `runtime.json` that installations write.
pub const RUNTIME_SCHEMA_VERSION: u32 = 2;

/// A runtime directory found under the runtimes root.
#[derive(Debug, Clone)]
pub struct RuntimeCandidate {
    pub metadata: RuntimeMetadata,
    pub root: String,
    pub java_bin: String,
}

/// The candidate at `i` can serve `required_major`: its metadata names that
/// major, and probing its binary showed a usable Temurin runtime.
pub open spec fn candidate_eligible(
    cs: Seq<RuntimeCandidate>,
    probes: Seq<Option<JavaInstallation>>,
    i: int,
    required_major: u32,
) -> bool {
    cs[i].metadata.major == required_major && probes[i] is Some && runtime_usable(
        probes[i]->0,
        required_major,
    )
}

/// `i` is the newest eligible candidate, and the first among equally new ones.
pub open spec fn is_best_candidate(
    cs: Seq<RuntimeCandidate>,
    probes: Seq<Option<JavaInstallation>>,
    i: int,
    required_major: u32,
) -> bool {
    &&& 0 <= i < cs.len()
    &&& candidate_eligible(cs, probes, i, required_major)
    &&& forall|j: int|
        0 <= j < cs.len() && candidate_eligible(cs, probes, j, required_major) ==> {
            &&& java_version_order(cs[j].metadata.version@, cs[i].metadata.version@) <= 0
            &&& (j < i ==> java_version_order(cs[j].metadata.version@, cs[i].metadata.version@)
                < 0)
        }
}

/// Picks the newest usable runtime for `required_major` among `candidates`,
/// where `probes[i]` is what probing the binary of `candidates[i]` gave;
/// ties go to the earlier candidate.
pub fn best_compatible_runtime(
    candidates: &Vec<RuntimeCandidate>,
    probes: &Vec<Option<JavaInstallation>>,
    required_major: u32,
) -> (r: Option<usize>)
    requires
        probes.len() == candidates.len(),
    ensures
        match r {
            Some(i) => is_best_candidate(candidates@, probes@, i as int, required_major),
            None => forall|j: int|
                0 <= j < candidates.len() ==> !candidate_eligible(
                    candidates@,
                    probes@,
                    j,
                    required_major,
                ),
        },
{
    let mut best: Option<usize> = None;
    let mut k: usize = 0;
    while k < candidates.len()
        invariant
            k <= candidates.len(),
            probes.len() == candidates.len(),
            match best {
                Some(i) => i < k && candidate_eligible(candidates@, probes@, i as int, required_major)
                    && forall|j: int|
                    0 <= j < k && candidate_eligible(candidates@, probes@, j, required_major) ==> {
                        &&& java_version_order(
                            candidates@[j].metadata.version@,
                            candidates@[i as int].metadata.version@,
                        ) <= 0
                        &&& (j < i ==> java_version_order(
                            candidates@[j].metadata.version@,
                            candidates@[i as int].metadata.version@,
                        ) < 0)
                    },
                None => forall|j: int|
                    0 <= j < k ==> !candidate_eligible(candidates@, probes@, j, required_major),
            },
        decreases candidates.len() - k,
    {
        let c = &candidates[k];
        let ok = c.metadata.major == required_major && match &probes[k] {
            Some(info) => runtime_is_valid(info, required_major),
            None => false,
        };
        if ok {
            match best {
                None => {
                    best = Some(k);
                },
                Some(i) => {
                    let o = java_version_order_value(
                        c.metadata.version.as_str(),
                        candidates[i].metadata.version.as_str(),
                    );
                    if o > 0 {
                        proof {
                            let vk = candidates@[k as int].metadata.version@;
                            let vi = candidates@[i as int].metadata.version@;
                            assert forall|j: int|
                                0 <= j < k + 1 && candidate_eligible(
                                    candidates@,
                                    probes@,
                                    j,
                                    required_major,
                                ) implies java_version_order(candidates@[j].metadata.version@, vk)
                                < 0 || j == k by {
                                if j < k {
                                    crate::version_order::java_version_order_is_preorder(
                                        candidates@[j].metadata.version@,
                                        vi,
                                        vk,
                                    );
                                    crate::version_order::java_version_order_is_preorder(
                                        vk,
                                        vi,
                                        vi,
                                    );
                                }
                            }
                            crate::version_order::java_version_order_is_preorder(vk, vk, vk);
                        }
                        best = Some(k);
                    } else {
                        proof {
                            let vk = candidates@[k as int].metadata.version@;
                            let vi = candidates@[i as int].metadata.version@;
                            crate::version_order::java_version_order_is_preorder(vk, vi, vi);
                        }
                    }
                },
            }
        }
        k += 1;
    }
    best
}

/// The information about a chosen candidate that callers see.
pub fn managed_runtime_info_of(candidate: RuntimeCandidate) -> (r: ManagedRuntimeInfo)
    ensures
        r.identifier == candidate.metadata.identifier,
        r.major == candidate.metadata.major,
        r.vendor == candidate.metadata.vendor,
        r.version == candidate.metadata.version,
        r.arch == candidate.metadata.arch,
        r.root == candidate.root,
        r.java_bin == candidate.java_bin,
{
    ManagedRuntimeInfo {
        identifier: candidate.metadata.identifier,
        major: candidate.metadata.major,
        vendor: candidate.metadata.vendor,
        version: candidate.metadata.version,
        arch: candidate.metadata.arch,
        root: candidate.root,
        java_bin: candidate.java_bin,
    }
}

/// `<root>/bin/<java executable>`.
pub open spec fn java_bin_in(root: Seq<char>, os: HostOs) -> Seq<char> {
    path_join_result(path_join_result(root, "bin"@), java_exe_name(os))
}

/// How a runtime directory is laid out.
#[derive(Debug, Clone, Copy, PartialEq, Eq, Structural)]
pub enum RuntimeLayout {
    /// `bin/java` (or `bin/java.exe`) directly under the runtime's root.
    Standard,
    /// A macOS bundle: `Contents/Home/bin/java`.
    MacBundle,
}

/// The Java binary of a runtime laid out as `layout`.
pub open spec fn java_bin_for(root: Seq<char>, layout: RuntimeLayout, os: HostOs) -> Seq<char> {
    match layout {
        RuntimeLayout::Standard => java_bin_in(root, os),
        RuntimeLayout::MacBundle => java_bin_in(
            path_join_result(path_join_result(root, "Contents"@), "Home"@),
            os,
        ),
    }
}

/// The Java binary of a runtime directory in the given layout.
pub fn runtime_java_bin(root: &str, layout: RuntimeLayout, os: HostOs) -> (r: String)
    ensures
        r@ == java_bin_for(root@, layout, os),
{
    match layout {
        RuntimeLayout::Standard => java_bin_path(root, os),
        RuntimeLayout::MacBundle => {
            let contents = path_join(root, "Contents");
            let home = path_join(contents.as_str(), "Home");
            java_bin_path(home.as_str(), os)
        },
    }
}

/// The Java binary inside a runtime directory.
pub fn java_bin_path(root: &str, os: HostOs) -> (r: String)
    ensures
        r@ == java_bin_in(root@, os),
{
    let bin = path_join(root, "bin");
    path_join(bin.as_str(), java_exe(os))
}

/// The `temp` directory, and runtimes of another architecture, are passed over.
pub open spec fn skipped_runtime_dir(dir_name: Option<&str>, runtime_arch: Seq<char>, arch: Seq<char>) -> bool {
    (match dir_name {
        Some(n) => n@ == "temp"@,
        None => false,
    }) || runtime_arch != arch
}

/// A runtime directory named `dir_name` at `root` with the given metadata is a
/// candidate unless it is the `temp` directory or was built for another
/// architecture; its Java binary is where `layout` (as found on disk) puts it.
pub fn runtime_candidate(
    root: &str,
    dir_name: Option<&str>,
    metadata: RuntimeMetadata,
    arch: &str,
    layout: RuntimeLayout,
    os: HostOs,
) -> (r: Option<RuntimeCandidate>)
    ensures
        skipped_runtime_dir(dir_name, metadata.arch@, arch@) ==> r is None,
        !skipped_runtime_dir(dir_name, metadata.arch@, arch@) ==> r == Some(
            RuntimeCandidate {
                metadata: metadata,
                root: r->0.root,
                java_bin: r->0.java_bin,
            },
        ) && r->0.root@ == root@ && r->0.java_bin@ == java_bin_for(root@, layout, os),
{
    let is_temp = match dir_name {
        Some(n) => crate::text::str_eq(n, "temp"),
        None => false,
    };
    if is_temp || !crate::text::str_eq(metadata.arch.as_str(), arch) {
        return None;
    }
    let java_bin = runtime_java_bin(root, layout, os);
    Some(RuntimeCandidate { metadata, root: String::from_str(root), java_bin })
}

/// Two index entries describe the same runtime.
pub open spec fn same_runtime(a: RuntimeMetadata, b: RuntimeMetadata) -> bool {
    a.major == b.major && a.arch@ == b.arch@ && a.identifier@ == b.identifier@
}

/// The entries of `index` that do not describe the same runtime as `m`.
pub open spec fn index_without(index: Seq<RuntimeMetadata>, m: RuntimeMetadata) -> Seq<RuntimeMetadata>
    decreases index.len(),
{
    if index.len() == 0 {
        Seq::empty()
    } else {
        let rest = index_without(index.drop_last(), m);
        if same_runtime(index.last(), m) {
            rest
        } else {
            rest.push(index.last())
        }
    }
}

/// Records a newly installed runtime in the index: earlier entries for the
/// same runtime are dropped, and the new one goes last.
pub fn update_runtime_index(index: &mut Vec<RuntimeMetadata>, new_metadata: RuntimeMetadata)
    ensures
        final(index)@ == index_without(old(index)@, new_metadata).push(new_metadata),
{
    let mut kept: Vec<RuntimeMetadata> = Vec::new();
    let mut i: usize = 0;
    while i < index.len()
        invariant
            i <= index.len(),
            kept@ == index_without(index@.take(i as int), new_metadata),
        decreases index.len() - i,
    {
        let e = &index[i];
        assert(index@.take(i + 1).drop_last() =~= index@.take(i as int));
        let same = e.major == new_metadata.major && crate::text::str_eq(
            e.arch.as_str(),
            new_metadata.arch.as_str(),
        ) && crate::text::str_eq(e.identifier.as_str(), new_metadata.identifier.as_str());
        if !same {
            kept.push(index[i].clone_metadata());
        }
        i += 1;
    }
    assert(index@.take(index.len() as int) =~= index@);
    kept.push(new_metadata);
    *index = kept;
}

impl RuntimeMetadata {
    /// A field-by-field copy.
    pub fn clone_metadata(&self) -> (r: RuntimeMetadata)
        ensures
            r == *self,
    {
        RuntimeMetadata {
            identifier: self.identifier.clone(),
            major: self.major,
            vendor: self.vendor.clone(),
            version: self.version.clone(),
            arch: self.arch.clone(),
            schema_version: self.schema_version,
            java_sha256: self.java_sha256.clone(),
            chmod_applied: self.chmod_applied,
        }
    }
}

/// Where the runtime archives of Adoptium are listed.
pub open spec fn adoptium_api_base() -> Seq<char> {
    "https://api.adoptium.net/v3/assets/latest"@
}

/// Which kind of Temurin build is asked for: a JRE, or (when no JRE is
/// released) a JDK.
#[derive(Debug, Clone, Copy, PartialEq, Eq, Structural)]
pub enum ImageType {
    Jre,
    Jdk,
}

pub open spec fn image_type_name(t: ImageType) -> Seq<char> {
    match t {
        ImageType::Jre => "jre"@,
        ImageType::Jdk => "jdk"@,
    }
}

/// The query for the latest Windows build of a major version, architecture
/// and image type.
pub open spec fn runtime_api_url_of(major: u32, arch: Seq<char>, image_type: ImageType) -> Seq<char> {
    adoptium_api_base() + "/"@ + decimal(major as nat) + "/hotspot?architecture="@ + arch
        + "&image_type="@ + image_type_name(image_type) + "&os=windows&vendor=eclipse"@
}

/// The URL that lists the latest Temurin build of `image_type` for
/// `required_major` on `arch`.
pub fn runtime_api_url(required_major: u32, arch: &str, image_type: ImageType) -> (r: String)
    ensures
        r@ == runtime_api_url_of(required_major, arch@, image_type),
{
    let mut u = String::from_str("https://api.adoptium.net/v3/assets/latest");
    u.append("/");
    u.append(u64_to_decimal(required_major as u64).as_str());
    u.append("/hotspot?architecture=");
    u.append(arch);
    u.append("&image_type=");
    match image_type {
        ImageType::Jre => u.append("jre"),
        ImageType::Jdk => u.append("jdk"),
    }
    u.append("&os=windows&vendor=eclipse");
    u
}

/// A JDK is asked for only when no JRE release is listed.
pub fn needs_jdk_fallback(jre_releases: &Vec<AdoptiumRelease>) -> (b: bool)
    ensures
        b == (jre_releases@.len() == 0),
{
    jre_releases.len() == 0
}

/// The package of a release: where to get it and its SHA-256.
#[derive(Debug, Clone)]
pub struct AdoptiumPackage {
    pub checksum: String,
    pub link: String,
}

#[derive(Debug, Clone)]
pub struct AdoptiumBinary {
    pub package: AdoptiumPackage,
}

#[derive(Debug, Clone)]
pub struct AdoptiumVersion {
    pub openjdk_version: String,
}

/// One entry of the Adoptium release listing.
#[derive(Debug, Clone)]
pub struct AdoptiumRelease {
    pub binary: AdoptiumBinary,
    pub version: AdoptiumVersion,
}

/// The runtime that is to be downloaded.
#[derive(Debug, Clone)]
pub struct DownloadRuntimeSpec {
    pub major: u32,
    pub arch: String,
    pub vendor: String,
    pub version: String,
    pub url: String,
    pub sha256: String,
}

/// `No runtime release found for Java <major> (<arch>)`.
pub open spec fn no_release_message(major: u32, arch: Seq<char>) -> Seq<char> {
    "No runtime release found for Java "@ + decimal(major as nat) + " ("@ + arch + ")"@
}

/// `s` is the download the release `first` describes.
pub open spec fn describes(s: DownloadRuntimeSpec, first: AdoptiumRelease, required_major: u32, arch: Seq<char>) -> bool {
    &&& s.major == required_major
    &&& s.arch@ == arch
    &&& s.vendor@ == "Temurin"@
    &&& s.version@ == cleaned_version(first.version.openjdk_version@)
    &&& s.url == first.binary.package.link
    &&& s.sha256 == first.binary.package.checksum
}

fn spec_from_release(required_major: u32, arch: &str, first: AdoptiumRelease) -> (s: DownloadRuntimeSpec)
    ensures
        describes(s, first, required_major, arch@),
{
    let version = clean_openjdk_version(first.version.openjdk_version.as_str());
    DownloadRuntimeSpec {
        major: required_major,
        arch: String::from_str(arch),
        vendor: String::from_str("Temurin"),
        version,
        url: first.binary.package.link,
        sha256: first.binary.package.checksum,
    }
}

/// The download to install: the first listed JRE release, or, when no JRE is
/// released, the first JDK release; with neither it is an error.
pub fn runtime_spec_from_releases(
    required_major: u32,
    arch: &str,
    jre_releases: Vec<AdoptiumRelease>,
    jdk_releases: Vec<AdoptiumRelease>,
) -> (r: Result<DownloadRuntimeSpec, LauncherError>)
    ensures
        jre_releases.len() > 0 ==> (r is Ok && describes(r->Ok_0, jre_releases@[0], required_major, arch@)),
        jre_releases.len() == 0 && jdk_releases.len() > 0 ==> (r is Ok && describes(
            r->Ok_0,
            jdk_releases@[0],
            required_major,
            arch@,
        )),
        jre_releases.len() == 0 && jdk_releases.len() == 0 ==> (r is Err && match r->Err_0 {
            LauncherError::Other(m) => m@ == no_release_message(required_major, arch@),
            _ => false,
        }),
{
    if jre_releases.len() > 0 {
        let mut releases = jre_releases;
        let first = releases.swap_remove(0);
        return Ok(spec_from_release(required_major, arch, first));
    }
    if jdk_releases.len() > 0 {
        let mut releases = jdk_releases;
        let first = releases.swap_remove(0);
        return Ok(spec_from_release(required_major, arch, first));
    }
    let mut m = String::from_str("No runtime release found for Java ");
    m.append(u64_to_decimal(required_major as u64).as_str());
    m.append(" (");
    m.append(arch);
    m.append(")");
    Err(LauncherError::Other(m))
}

/// `java<major>-<vendor, lowercase>-<version for ids>-<arch>`.
pub open spec fn runtime_identifier_of(spec: DownloadRuntimeSpec) -> Seq<char> {
    "java"@ + decimal(spec.major as nat) + "-"@ + crate::text::lowercase_of(spec.vendor@) + "-"@
        + version_id_of(spec.version@) + "-"@ + spec.arch@
}

/// The directory name of a runtime that is installed from `spec`.
pub fn runtime_identifier(spec: &DownloadRuntimeSpec) -> (r: String)
    ensures
        r@ == runtime_identifier_of(*spec),
{
    let mut r = String::from_str("java");
    r.append(u64_to_decimal(spec.major as u64).as_str());
    r.append("-");
    r.append(crate::text::to_lowercase(spec.vendor.as_str()).as_str());
    r.append("-");
    r.append(normalize_version_for_id(spec.version.as_str()).as_str());
    r.append("-");
    r.append(spec.arch.as_str());
    r
}

/// The paths an installation works with.
#[derive(Debug, Clone)]
pub struct RuntimeInstallLayout {
    /// `<runtimes>/<identifier>`: where the runtime ends up.
    pub runtime_root: String,
    /// `<runtimes>/temp/<identifier>_tmp`: where the archive is unpacked first.
    pub temp_root: String,
    /// `<runtimes>/temp/<identifier>.zip`: where the archive is saved.
    pub zip_path: String,
    /// `<runtimes>/temp`.
    pub temp_dir: String,
    /// `<runtimes>/temp/<identifier>_backup`: where a runtime already installed
    /// under the same name waits until the new one is in place.
    pub backup_root: String,
}

/// `.downloading_java<major>_<arch>.lock` under the runtimes root.
pub open spec fn runtime_lock_path_of(runtimes_root: Seq<char>, major: u32, arch: Seq<char>) -> Seq<char> {
    path_join_result(
        runtimes_root,
        ".downloading_java"@ + decimal(major as nat) + "_"@ + arch + ".lock"@,
    )
}

/// The lock file that keeps two launches from installing the same runtime.
pub fn runtime_lock_path(runtimes_root: &str, major: u32, arch: &str) -> (r: String)
    ensures
        r@ == runtime_lock_path_of(runtimes_root@, major, arch@),
{
    let mut name = String::from_str(".downloading_java");
    name.append(u64_to_decimal(major as u64).as_str());
    name.append("_");
    name.append(arch);
    name.append(".lock");
    path_join(runtimes_root, name.as_str())
}

/// Lays out the paths for installing the runtime `identifier` under `runtimes_root`.
pub fn runtime_install_layout(runtimes_root: &str, identifier: &str) -> (r: RuntimeInstallLayout)
    ensures
        r.runtime_root@ == path_join_result(runtimes_root@, identifier@),
        r.temp_dir@ == path_join_result(runtimes_root@, "temp"@),
        r.temp_root@ == path_join_result(r.temp_dir@, identifier@ + "_tmp"@),
        r.zip_path@ == path_join_result(r.temp_dir@, identifier@ + ".zip"@),
        r.backup_root@ == path_join_result(r.temp_dir@, identifier@ + "_backup"@),
{
    let runtime_root = path_join(runtimes_root, identifier);
    let temp_dir = path_join(runtimes_root, "temp");
    let mut tmp_name = String::from_str(identifier);
    tmp_name.append("_tmp");
    let mut zip_name = String::from_str(identifier);
    zip_name.append(".zip");
    let temp_root = path_join(temp_dir.as_str(), tmp_name.as_str());
    let zip_path = path_join(temp_dir.as_str(), zip_name.as_str());
    let mut backup_name = String::from_str(identifier);
    backup_name.append("_backup");
    let backup_root = path_join(temp_dir.as_str(), backup_name.as_str());
    RuntimeInstallLayout { runtime_root, temp_root, zip_path, temp_dir, backup_root }
}

/// The layout of an unpacked runtime: the standard one when its binary is
/// there, else the macOS bundle when that binary is there, else standard.
pub fn detect_runtime_layout(standard_bin_exists: bool, bundle_bin_exists: bool) -> (r: RuntimeLayout)
    ensures
        r == (if !standard_bin_exists && bundle_bin_exists {
            RuntimeLayout::MacBundle
        } else {
            RuntimeLayout::Standard
        }),
{
    if !standard_bin_exists && bundle_bin_exists {
        RuntimeLayout::MacBundle
    } else {
        RuntimeLayout::Standard
    }
}

/// The metadata recorded for a runtime installed from `spec`: format 2, the
/// SHA-256 of its Java binary (`java_bin_bytes`), and whether the binaries
/// were made executable.
pub fn installed_runtime_metadata(
    identifier: String,
    required_major: u32,
    spec: DownloadRuntimeSpec,
    java_bin_bytes: &[u8],
    chmod_applied: bool,
) -> (r: RuntimeMetadata)
    ensures
        r.identifier == identifier,
        r.major == required_major,
        r.vendor == spec.vendor,
        r.version == spec.version,
        r.arch == spec.arch,
        r.schema_version == RUNTIME_SCHEMA_VERSION,
        r.java_sha256@ == crate::digest::hex_lower(crate::digest::sha256_of(java_bin_bytes@)),
        r.chmod_applied == chmod_applied,
{
    RuntimeMetadata {
        identifier,
        major: required_major,
        vendor: spec.vendor,
        version: spec.version,
        arch: spec.arch,
        schema_version: RUNTIME_SCHEMA_VERSION,
        java_sha256: crate::digest::sha256_hex(java_bin_bytes),
        chmod_applied,
    }
}

/// Binaries are made executable once, outside Windows, and the record says
/// when it was done.
pub fn needs_chmod(metadata: &RuntimeMetadata, os: HostOs) -> (b: bool)
    ensures
        b == (os != HostOs::Windows && !metadata.chmod_applied),
{
    os != HostOs::Windows && !metadata.chmod_applied
}

/// The record after the binaries were made executable.
pub fn mark_chmod_applied(metadata: &mut RuntimeMetadata)
    ensures
        *final(metadata) == (RuntimeMetadata { chmod_applied: true, ..*old(metadata) }),
{
    metadata.chmod_applied = true;
}

/// What `java -version` printed: its error stream, a newline, its output stream.
pub fn version_output_text(stderr: &str, stdout: &str) -> (r: String)
    ensures
        r@ == stderr@ + "\n"@ + stdout@,
{
    let mut r = String::from_str(stderr);
    r.append("\n");
    r.append(stdout);
    r
}

/// `Downloaded runtime failed validation: <java binary>`.
pub fn runtime_validation_error(java_bin: &str) -> (e: LauncherError)
    ensures
        match e {
            LauncherError::Other(m) => m@ == "Downloaded runtime failed validation: "@ + java_bin@,
            _ => false,
        },
{
    let mut m = String::from_str("Downloaded runtime failed validation: ");
    m.append(java_bin);
    LauncherError::Other(m)
}

/// The plain components of a path, in order (`None` stands for a root,
/// prefix, `.` or `..` component).
pub open spec fn plain_parts(components: Seq<Option<String>>) -> Seq<Seq<char>>
    decreases components.len(),
{
    if components.len() == 0 {
        Seq::empty()
    } else {
        let rest = plain_parts(components.drop_last());
        match components.last() {
            Some(c) => rest.push(c@),
            None => rest,
        }
    }
}

/// Where a runtime archive entry goes inside the runtime: its path without
/// the archive's top directory, plain components only. An entry with nothing
/// left (the top directory itself) is skipped.
pub fn runtime_entry_parts(components: &Vec<Option<String>>) -> (r: Option<Vec<String>>)
    ensures
        components@.len() == 0 ==> r is None,
        components@.len() > 0 ==> (if plain_parts(components@.skip(1)).len() == 0 {
            r is None
        } else {
            r is Some && crate::text::string_views(r->0@) == plain_parts(components@.skip(1))
        }),
{
    if components.len() == 0 {
        return None;
    }
    let ghost rest = components@.skip(1);
    let mut out: Vec<String> = Vec::new();
    let mut i: usize = 1;
    assert(rest.take(0) =~= Seq::<Option<String>>::empty());
    while i < components.len()
        invariant
            1 <= i <= components.len(),
            rest == components@.skip(1),
            crate::text::string_views(out@) == plain_parts(rest.take(i - 1)),
        decreases components.len() - i,
    {
        assert(rest.take(i as int).drop_last() =~= rest.take(i - 1));
        assert(rest.take(i as int).last() == components@[i as int]);
        match &components[i] {
            Some(c) => {
                let ghost before = crate::text::string_views(out@);
                out.push(c.clone());
                assert(crate::text::string_views(out@) =~= before.push(c@));
            },
            None => {},
        }
        i += 1;
    }
    assert(rest.take(components.len() - 1) =~= rest);
    if out.len() == 0 {
        None
    } else {
        Some(out)
    }
}

/// `<app data dir>/resolved_java.json`: the cache of resolved Java binaries.
pub fn resolved_java_cache_path(app_data_dir: &str) -> (r: String)
    ensures
        r@ == path_join_result(app_data_dir@, "resolved_java.json"@),
{
    path_join(app_data_dir, "resolved_java.json")
}

/// The Java binaries resolved before, by runtime track, so that a start does
/// not scan every runtime again.
#[derive(Debug, Clone)]
pub struct ResolvedJavaCache {
    pub entries: Vec<(u32, String)>,
}

/// The binary cached for `track`, searching from position `i`.
pub open spec fn cached_from(entries: Seq<(u32, String)>, track: u32, i: int) -> Option<String>
    decreases entries.len() - i,
{
    if i < 0 || i >= entries.len() {
        None
    } else if entries[i].0 == track {
        Some(entries[i].1)
    } else {
        cached_from(entries, track, i + 1)
    }
}

/// Position of the entry for `track`, or -1.
pub open spec fn cache_pos(entries: Seq<(u32, String)>, track: u32, i: int) -> int
    decreases entries.len() - i,
{
    if i < 0 || i >= entries.len() {
        -1
    } else if entries[i].0 == track {
        i
    } else {
        cache_pos(entries, track, i + 1)
    }
}

proof fn lemma_cache_pos(entries: Seq<(u32, String)>, track: u32, i: int)
    requires
        0 <= i,
    ensures
        cache_pos(entries, track, i) == -1 || (i <= cache_pos(entries, track, i) < entries.len()
            && entries[cache_pos(entries, track, i)].0 == track),
        cache_pos(entries, track, i) == -1 ==> cached_from(entries, track, i) is None,
        cache_pos(entries, track, i) != -1 ==> cached_from(entries, track, i) == Some(
            entries[cache_pos(entries, track, i)].1,
        ),
    decreases entries.len() - i,
{
    if i < entries.len() && entries[i].0 != track {
        lemma_cache_pos(entries, track, i + 1);
    }
}

impl ResolvedJavaCache {
    /// The binary cached for a runtime track, if any.
    pub fn lookup(&self, track: u32) -> (r: Option<String>)
        ensures
            r == cached_from(self.entries@, track, 0),
    {
        let mut i: usize = 0;
        while i < self.entries.len()
            invariant
                i <= self.entries.len(),
                cached_from(self.entries@, track, 0) == cached_from(self.entries@, track, i as int),
            decreases self.entries.len() - i,
        {
            if self.entries[i].0 == track {
                return Some(self.entries[i].1.clone());
            }
            i += 1;
        }
        None
    }

    /// Records the binary resolved for a track: an existing entry is replaced
    /// in place, a new one goes last.
    pub fn record(&mut self, track: u32, java_bin: String)
        ensures
            cache_pos(old(self).entries@, track, 0) == -1 ==> final(self).entries@ == old(
                self,
            ).entries@.push((track, java_bin)),
            cache_pos(old(self).entries@, track, 0) != -1 ==> final(self).entries@ == old(
                self,
            ).entries@.update(cache_pos(old(self).entries@, track, 0), (track, java_bin)),
            cached_from(final(self).entries@, track, 0) == Some(java_bin),
    {
        let ghost start = self.entries@;
        proof {
            lemma_cache_pos(start, track, 0);
        }
        let mut i: usize = 0;
        while i < self.entries.len()
            invariant
                i <= self.entries.len(),
                self.entries@ == start,
                start == old(self).entries@,
                cache_pos(start, track, 0) == cache_pos(start, track, i as int),
            decreases self.entries.len() - i,
        {
            if self.entries[i].0 == track {
                assert(cache_pos(start, track, i as int) == i);
                self.entries.set(i, (track, java_bin));
                assert(self.entries@ == start.update(i as int, (track, java_bin)));
                proof {
                    let e = self.entries@;
                    lemma_cache_pos(e, track, 0);
                    assert forall|j: int| 0 <= j < i implies e[j].0 != track by {
                        if e[j].0 == track {
                            lemma_first_pos(start, track, j, i as int);
                        }
                    }
                    lemma_cache_pos_at(e, track, i as int);
                }
                return;
            }
            i += 1;
        }
        self.entries.push((track, java_bin));
        proof {
            let e = self.entries@;
            assert forall|j: int| 0 <= j < start.len() implies e[j].0 != track by {
                if e[j].0 == track {
                    assert(start[j].0 == track);
                    lemma_first_pos(start, track, j, start.len() as int);
                }
            }
            lemma_cache_pos_at(e, track, start.len() as int);
        }
    }
}

/// An entry for `track` at `j` before `k` makes the search from the start
/// stop before `k`, while the search from `k` stops at `k` or later.
proof fn lemma_first_pos(entries: Seq<(u32, String)>, track: u32, j: int, k: int)
    requires
        0 <= j < k <= entries.len(),
        entries[j].0 == track,
    ensures
        0 <= cache_pos(entries, track, 0) <= j,
        cache_pos(entries, track, k) == -1 || cache_pos(entries, track, k) >= k,
{
    lemma_cache_pos_prefix(entries, track, 0, j);
    lemma_cache_pos(entries, track, k);
}

/// Starting from `i <= j` where `j` is for `track`, the search finds a position at most `j`.
proof fn lemma_cache_pos_prefix(entries: Seq<(u32, String)>, track: u32, i: int, j: int)
    requires
        0 <= i <= j < entries.len(),
        entries[j].0 == track,
    ensures
        0 <= cache_pos(entries, track, i) <= j,
    decreases j - i,
{
    if entries[i].0 != track {
        lemma_cache_pos_prefix(entries, track, i + 1, j);
    }
}

/// The first entry for `track` is at `k` when none before it is.
proof fn lemma_cache_pos_at(entries: Seq<(u32, String)>, track: u32, k: int)
    requires
        0 <= k < entries.len(),
        entries[k].0 == track,
        forall|j: int| 0 <= j < k ==> entries[j].0 != track,
    ensures
        cached_from(entries, track, 0) == Some(entries[k].1),
{
    lemma_cached_from_skip(entries, track, 0, k);
}

proof fn lemma_cached_from_skip(entries: Seq<(u32, String)>, track: u32, i: int, k: int)
    requires
        0 <= i <= k < entries.len(),
        entries[k].0 == track,
        forall|j: int| 0 <= j < k ==> entries[j].0 != track,
    ensures
        cached_from(entries, track, i) == Some(entries[k].1),
    decreases k - i,
{
    if i < k {
        lemma_cached_from_skip(entries, track, i + 1, k);
    }
}

/// How many times a runtime download is tried.
pub const DOWNLOAD_ATTEMPTS: u32 = 3;

/// How long a runtime request may take, in seconds.
pub const DOWNLOAD_TIMEOUT_SECS: u64 = 60;

/// After failed attempt `attempt` (counting from 0), the wait before the next
/// one: 500 ms doubled for each attempt before; `None` once all attempts are spent.
pub fn retry_delay_ms(attempt: u32) -> (r: Option<u64>)
    ensures
        attempt + 1 >= DOWNLOAD_ATTEMPTS ==> r is None,
        attempt + 1 < DOWNLOAD_ATTEMPTS ==> r == Some((500 * vstd::arithmetic::power2::pow2(attempt as nat)) as u64),
{
    if attempt >= 2 {
        return None;
    }
    proof {
        vstd::arithmetic::power2::lemma2_to64();
    }
    if attempt == 0 {
        Some(500)
    } else {
        Some(1000)
    }
}

/// Where replacing an installed runtime by a freshly unpacked one stands.
#[derive(Debug, Clone, Copy, PartialEq, Eq, Structural)]
pub enum SwapStage {
    /// The new runtime is unpacked in its temporary directory, not yet validated.
    Unpacked,
    /// The new runtime validated; the runtime installed before is being moved
    /// to the backup directory.
    MovingAside,
    /// The new runtime is being moved into place (`had_previous`: a runtime
    /// installed before waits in the backup directory).
    MovingIn { had_previous: bool },
    /// The new runtime could not be moved in; the previous one is being put back.
    Restoring,
    /// The new runtime is in place; the backup of the previous one is being removed.
    RemovingPrevious,
    /// Over.
    Done,
}

/// What the caller reports.
#[derive(Debug, Clone, Copy, PartialEq, Eq, Structural)]
pub enum SwapEvent {
    /// The new runtime's binary was probed (`valid`), and whether a runtime is
    /// installed under the same name already.
    Validated { valid: bool, previous_exists: bool },
    /// Whether the file-system step asked for succeeded.
    StepDone(bool),
}

/// What the caller is to do next.
#[derive(Debug, Clone, Copy, PartialEq, Eq, Structural)]
pub enum SwapAction {
    /// Remove the new runtime's temporary files; the installed runtime stays
    /// as it is, and the installation fails validation.
    DiscardNew,
    /// Move the installed runtime to the backup directory.
    MoveAside,
    /// Move the new runtime into place.
    MoveIn,
    /// Move the backup back into place.
    PutBack,
    /// Remove the backup of the previous runtime.
    RemovePrevious,
    /// The new runtime is installed.
    Installed,
    /// The replacement failed.
    Failed,
}

/// The transitions of a replacement.
pub open spec fn swap_transition(stage: SwapStage, event: SwapEvent) -> (SwapStage, SwapAction) {
    match (stage, event) {
        (SwapStage::Unpacked, SwapEvent::Validated { valid, previous_exists }) => if !valid {
            (SwapStage::Done, SwapAction::DiscardNew)
        } else if previous_exists {
            (SwapStage::MovingAside, SwapAction::MoveAside)
        } else {
            (SwapStage::MovingIn { had_previous: false }, SwapAction::MoveIn)
        },
        (SwapStage::MovingAside, SwapEvent::StepDone(ok)) => if ok {
            (SwapStage::MovingIn { had_previous: true }, SwapAction::MoveIn)
        } else {
            (SwapStage::Done, SwapAction::Failed)
        },
        (SwapStage::MovingIn { had_previous }, SwapEvent::StepDone(ok)) => if ok && had_previous {
            (SwapStage::RemovingPrevious, SwapAction::RemovePrevious)
        } else if ok {
            (SwapStage::Done, SwapAction::Installed)
        } else if had_previous {
            (SwapStage::Restoring, SwapAction::PutBack)
        } else {
            (SwapStage::Done, SwapAction::Failed)
        },
        (SwapStage::Restoring, SwapEvent::StepDone(_)) => (SwapStage::Done, SwapAction::Failed),
        (SwapStage::RemovingPrevious, SwapEvent::StepDone(_)) => (SwapStage::Done, SwapAction::Installed),
        _ => (SwapStage::Done, SwapAction::Failed),
    }
}

/// One step of replacing an installed runtime. The runtime installed before
/// is moved aside only once the new one validated, and removed only once the
/// new one is in place; when the new one cannot be moved in, the previous one
/// is put back.
pub fn swap_step(stage: SwapStage, event: SwapEvent) -> (r: (SwapStage, SwapAction))
    ensures
        r == swap_transition(stage, event),
        r.1 == SwapAction::MoveAside ==> stage == SwapStage::Unpacked && event == (SwapEvent::Validated {
            valid: true,
            previous_exists: true,
        }),
        r.1 == SwapAction::RemovePrevious ==> stage == (SwapStage::MovingIn { had_previous: true })
            && event == SwapEvent::StepDone(true),
        r.1 == SwapAction::MoveIn ==> (stage == SwapStage::Unpacked && event is Validated
            && event->valid) || (stage == SwapStage::MovingAside && event == SwapEvent::StepDone(true)),
        r.1 == SwapAction::Installed ==> (stage == (SwapStage::MovingIn { had_previous: false })
            && event == SwapEvent::StepDone(true)) || stage == SwapStage::RemovingPrevious,
{
    match (stage, event) {
        (SwapStage::Unpacked, SwapEvent::Validated { valid, previous_exists }) => {
            if !valid {
                (SwapStage::Done, SwapAction::DiscardNew)
            } else if previous_exists {
                (SwapStage::MovingAside, SwapAction::MoveAside)
            } else {
                (SwapStage::MovingIn { had_previous: false }, SwapAction::MoveIn)
            }
        },
        (SwapStage::MovingAside, SwapEvent::StepDone(ok)) => {
            if ok {
                (SwapStage::MovingIn { had_previous: true }, SwapAction::MoveIn)
            } else {
                (SwapStage::Done, SwapAction::Failed)
            }
        },
        (SwapStage::MovingIn { had_previous }, SwapEvent::StepDone(ok)) => {
            if ok && had_previous {
                (SwapStage::RemovingPrevious, SwapAction::RemovePrevious)
            } else if ok {
                (SwapStage::Done, SwapAction::Installed)
            } else if had_previous {
                (SwapStage::Restoring, SwapAction::PutBack)
            } else {
                (SwapStage::Done, SwapAction::Failed)
            }
        },
        (SwapStage::Restoring, SwapEvent::StepDone(_)) => (SwapStage::Done, SwapAction::Failed),
        (SwapStage::RemovingPrevious, SwapEvent::StepDone(_)) => (SwapStage::Done, SwapAction::Installed),
        _ => (SwapStage::Done, SwapAction::Failed),
    }
}

/// The stage after the first `k` events of a replacement.
pub open spec fn swap_stage_at(events: Seq<SwapEvent>, k: nat) -> SwapStage
    decreases k,
{
    if k == 0 {
        SwapStage::Unpacked
    } else {
        swap_transition(swap_stage_at(events, (k - 1) as nat), events[k - 1]).0
    }
}

/// The action that the `k`-th event of a replacement (from 0) is answered with.
pub open spec fn swap_action_at(events: Seq<SwapEvent>, k: nat) -> SwapAction {
    swap_transition(swap_stage_at(events, k), events[k as int]).1
}

proof fn lemma_swap_settles(events: Seq<SwapEvent>, k: nat)
    requires
        k >= 3,
    ensures
        swap_stage_at(events, k) == SwapStage::RemovingPrevious || swap_stage_at(events, k)
            == SwapStage::Restoring || swap_stage_at(events, k) == SwapStage::Done,
        k >= 4 ==> swap_stage_at(events, k) == SwapStage::Done,
    decreases k,
{
    if k > 3 {
        lemma_swap_settles(events, (k - 1) as nat);
    } else {
        reveal_with_fuel(swap_stage_at, 4);
    }
}

/// Replacing a runtime removes the previous one only as its third step: the
/// new runtime validated while a previous one was installed, the previous one
/// was moved aside, and the new one was moved in.
pub proof fn previous_runtime_removed_only_after_new_in_place(events: Seq<SwapEvent>, k: nat)
    requires
        k < events.len(),
        swap_action_at(events, k) == SwapAction::RemovePrevious,
    ensures
        k == 2,
        events[0] == (SwapEvent::Validated { valid: true, previous_exists: true }),
        events[1] == SwapEvent::StepDone(true),
        events[2] == SwapEvent::StepDone(true),
{
    if k >= 3 {
        lemma_swap_settles(events, k);
    } else {
        reveal_with_fuel(swap_stage_at, 3);
    }
}

/// A new runtime that fails validation moves nothing: its files are
/// discarded, and every later event is answered with a failure.
pub proof fn invalid_runtime_moves_nothing(events: Seq<SwapEvent>, k: nat)
    requires
        k < events.len(),
        events[0] matches SwapEvent::Validated { valid, .. } && !valid,
    ensures
        k == 0 ==> swap_action_at(events, k) == SwapAction::DiscardNew,
        k > 0 ==> swap_action_at(events, k) == SwapAction::Failed,
{
    if k >= 1 {
        lemma_invalid_stays_done(events, k);
    }
}

proof fn lemma_invalid_stays_done(events: Seq<SwapEvent>, k: nat)
    requires
        k >= 1,
        events[0] matches SwapEvent::Validated { valid, .. } && !valid,
    ensures
        swap_stage_at(events, k) == SwapStage::Done,
    decreases k,
{
    if k > 1 {
        lemma_invalid_stays_done(events, (k - 1) as nat);
    } else {
        reveal_with_fuel(swap_stage_at, 2);
    }
}

/// The order of Java versions is the order of their readings
/// `(major, minor, patch, build)`, field by field: two versions compare equal
/// exactly when their readings are the same; swapping them reverses the
/// order; a version that is ahead in the first field where the readings
/// differ (the build after `+` included) is the greater.
pub proof fn java_version_order_follows_readings(a: Seq<char>, b: Seq<char>)
    ensures
        ({
            let t = java_version_tuple(a);
            let u = java_version_tuple(b);
            &&& (java_version_order(a, b) == 0 <==> t == u)
            &&& java_version_order(a, b) == -java_version_order(b, a)
            &&& (java_version_order(a, b) == -1 || java_version_order(a, b) == 0 || java_version_order(a, b) == 1)
            &&& (t.0 < u.0 ==> java_version_order(a, b) == -1)
            &&& (t.0 == u.0 && t.1 < u.1 ==> java_version_order(a, b) == -1)
            &&& (t.0 == u.0 && t.1 == u.1 && t.2 < u.2 ==> java_version_order(a, b) == -1)
            &&& (t.0 == u.0 && t.1 == u.1 && t.2 == u.2 && t.3 < u.3 ==> java_version_order(a, b) == -1)
        }),
{
}

/// The order of Java versions is transitive.
pub proof fn java_version_order_is_transitive(a: Seq<char>, b: Seq<char>, c: Seq<char>)
    requires
        java_version_order(a, b) <= 0,
        java_version_order(b, c) <= 0,
    ensures
        java_version_order(a, c) <= 0,
{
}

/// The reading of `<core>+<build>` (no `-` anywhere, no `+` in the core,
/// no `.` in the build): the numbers of the core, and the build read as a
/// number.
proof fn lemma_reading_with_build(core: Seq<char>, b: Seq<char>)
    requires
        forall|i: int| 0 <= i < core.len() ==> core[i] != '+' && core[i] != '-',
        forall|i: int| 0 <= i < b.len() ==> b[i] != '.' && b[i] != '-',
        crate::version_parts::opt_u32(b) is Some,
    ensures
        ({
            let t = java_version_tuple(core + "+"@ + b);
            let nums = u32_readings(split_spec(core, Sep::Char('.')));
            &&& t.0 == nth_or_zero(nums, 0)
            &&& t.1 == nth_or_zero(nums, 1)
            &&& t.2 == nth_or_zero(nums, 2)
            &&& t.3 == crate::version_parts::opt_u32(b)->0
        }),
{
    reveal_strlit("+");
    let v = core + "+"@ + b;
    assert forall|i: int| 0 <= i < v.len() implies !crate::text::is_sep(Sep::Char('-'), v[i]) by {
        if i < core.len() {
            assert(v[i] == core[i]);
        } else if i > core.len() {
            assert(v[i] == b[i - core.len() - 1]);
        }
    }
    crate::text::lemma_split_no_sep(v, Sep::Char('-'));
    assert(cleaned_version(v) == v);
    assert forall|i: int| 0 <= i < core.len() implies v[i] != '+' by {
        assert(v[i] == core[i]);
    }
    crate::text::lemma_first_index_of(v, '+', core.len() as int);
    assert(v.take(core.len() as int) =~= core);
    assert(v.skip(core.len() as int + 1) =~= b);
    crate::text::lemma_split_no_sep(b, Sep::Char('.'));
}

/// The build after `+` decides between versions that are the same before
/// it: of `<core>+<b1>` and `<core>+<b2>` with builds read as numbers
/// `b1 < b2`, the first is the older.
pub proof fn java_build_number_decides(core: Seq<char>, b1: Seq<char>, b2: Seq<char>)
    requires
        forall|i: int| 0 <= i < core.len() ==> core[i] != '+' && core[i] != '-',
        forall|i: int| 0 <= i < b1.len() ==> b1[i] != '.' && b1[i] != '-',
        forall|i: int| 0 <= i < b2.len() ==> b2[i] != '.' && b2[i] != '-',
        crate::version_parts::opt_u32(b1) is Some,
        crate::version_parts::opt_u32(b2) is Some,
        crate::version_parts::opt_u32(b1)->0 < crate::version_parts::opt_u32(b2)->0,
    ensures
        java_version_order(core + "+"@ + b1, core + "+"@ + b2) == -1,
        java_version_order(core + "+"@ + b2, core + "+"@ + b1) == 1,
{
    lemma_reading_with_build(core, b1);
    lemma_reading_with_build(core, b2);
}

} // verus!
