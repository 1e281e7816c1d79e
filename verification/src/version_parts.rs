//! Numeric readings of version strings (`1.20.4`, `9.6.1-neoforge`, `21.1.127`).
use vstd::prelude::*;

use crate::order::{padded_order, padded_order_exec, text_order, text_order_str, then_order};
use crate::text::{
    chars_of, parse_u32, parse_u64, spec_parse_uint, split_chars, split_spec,
    trim_start_prefix, trim_start_prefix_spec, views, Sep, };

verus! {

/// `seg.parse::<u32>().ok()`.
pub open spec fn opt_u32(seg: Seq<char>) -> Option<u32> {
    match spec_parse_uint(seg, u32::MAX as int) {
        Some(v) => Some(v as u32),
        None => None,
    }
}

/// `seg.parse::<u64>().ok()`.
pub open spec fn opt_u64(seg: Seq<char>) -> Option<u64> {
    match spec_parse_uint(seg, u64::MAX as int) {
        Some(v) => Some(v as u64),
        None => None,
    }
}

/// The segments that read as `u32`, in order.
pub open spec fn u32_readings(segs: Seq<Seq<char>>) -> Seq<u32> {
    segs.filter_map(|seg: Seq<char>| opt_u32(seg))
}

/// The segments that read as `u64`, in order.
pub open spec fn u64_readings(segs: Seq<Seq<char>>) -> Seq<u64> {
    segs.filter_map(|seg: Seq<char>| opt_u64(seg))
}

/// The runs of ASCII digits in `s`, read as `u32`; runs too large for `u32` are skipped.
pub open spec fn numeric_parts(s: Seq<char>) -> Seq<u32> {
    u32_readings(split_spec(s, Sep::NotDigit))
}

/// The segments of `s` split at `c` that read as `u64`, in order.
pub open spec fn u64_segments(s: Seq<char>, c: char) -> Seq<u64> {
    u64_readings(split_spec(s, Sep::Char(c)))
}

/// A non-empty alphanumeric run read as `u64`, or `0` where it does not read.
pub open spec fn sort_key_part(seg: Seq<char>) -> Option<u64> {
    if seg.len() == 0 {
        None
    } else {
        match opt_u64(seg) {
            Some(v) => Some(v),
            None => Some(0u64),
        }
    }
}

pub open spec fn sort_key_parts(segs: Seq<Seq<char>>) -> Seq<u64> {
    segs.filter_map(|seg: Seq<char>| sort_key_part(seg))
}

/// The sort key of a loader version: its alphanumeric runs, each read as a
/// number (`0` when it is not one).
pub open spec fn sort_key(s: Seq<char>) -> Seq<u64> {
    sort_key_parts(split_spec(s, Sep::NotAlnum))
}

fn opt_u32_exec(seg: &Vec<char>) -> (r: Option<u32>)
    ensures
        r == opt_u32(seg@),
{
    parse_u32(seg)
}

fn opt_u64_exec(seg: &Vec<char>) -> (r: Option<u64>)
    ensures
        r == opt_u64(seg@),
{
    parse_u64(seg)
}

/// Every run of ASCII digits in `raw` that fits in `u32`, in order.
pub fn parse_numeric_version_parts(raw: &str) -> (r: Vec<u32>)
    ensures
        r@ == numeric_parts(raw@),
{
    let v = chars_of(raw);
    let segs = split_chars(&v, Sep::NotDigit);
    let ghost sv = views(segs@);
    let mut out: Vec<u32> = Vec::new();
    let mut i: usize = 0;
    assert(sv.take(0) =~= Seq::<Seq<char>>::empty());
    while i < segs.len()
        invariant
            i <= segs.len(),
            sv == views(segs@),
            sv.len() == segs.len(),
            out@ == u32_readings(sv.take(i as int)),
        decreases segs.len() - i,
    {
        let p = opt_u32_exec(&segs[i]);
        assert(sv.take(i + 1).drop_last() =~= sv.take(i as int));
        assert(sv.take(i + 1).last() == segs@[i as int]@);
        match p {
            Some(x) => {
                out.push(x);
            },
            None => {},
        }
        i += 1;
        assert(out@ =~= u32_readings(sv.take(i as int)));
    }
    assert(sv.take(segs.len() as int) =~= sv);
    out
}

/// The `u64` readings of the segments of `s` split at `c`.
pub fn u64_segments_exec(s: &Vec<char>, c: char) -> (r: Vec<u64>)
    ensures
        r@ == u64_segments(s@, c),
{
    let segs = split_chars(s, Sep::Char(c));
    let ghost sv = views(segs@);
    let mut out: Vec<u64> = Vec::new();
    let mut i: usize = 0;
    assert(sv.take(0) =~= Seq::<Seq<char>>::empty());
    while i < segs.len()
        invariant
            i <= segs.len(),
            sv == views(segs@),
            sv.len() == segs.len(),
            out@ == u64_readings(sv.take(i as int)),
        decreases segs.len() - i,
    {
        let p = opt_u64_exec(&segs[i]);
        assert(sv.take(i + 1).drop_last() =~= sv.take(i as int));
        assert(sv.take(i + 1).last() == segs@[i as int]@);
        match p {
            Some(x) => {
                out.push(x);
            },
            None => {},
        }
        i += 1;
        assert(out@ =~= u64_readings(sv.take(i as int)));
    }
    assert(sv.take(segs.len() as int) =~= sv);
    out
}

/// Sort key of a version: alphanumeric runs read as numbers, `0` when not numeric.
pub fn version_sort_key(version: &str) -> (r: Vec<u64>)
    ensures
        r@ == sort_key(version@),
{
    let v = chars_of(version);
    let segs = split_chars(&v, Sep::NotAlnum);
    let ghost sv = views(segs@);
    let mut out: Vec<u64> = Vec::new();
    let mut i: usize = 0;
    assert(sv.take(0) =~= Seq::<Seq<char>>::empty());
    while i < segs.len()
        invariant
            i <= segs.len(),
            sv == views(segs@),
            sv.len() == segs.len(),
            out@ == sort_key_parts(sv.take(i as int)),
        decreases segs.len() - i,
    {
        assert(sv.take(i + 1).drop_last() =~= sv.take(i as int));
        assert(sv.take(i + 1).last() == segs@[i as int]@);
        if segs[i].len() > 0 {
            let p = opt_u64_exec(&segs[i]);
            match p {
                Some(x) => out.push(x),
                None => out.push(0),
            }
        }
        i += 1;
        assert(out@ =~= sort_key_parts(sv.take(i as int)));
    }
    assert(sv.take(segs.len() as int) =~= sv);
    out
}

/// Whether a NeoForge version belongs to a Minecraft version: NeoForge
/// `A.B.*` goes with Minecraft `1.A.B` (leading `1.` prefixes stripped).
pub open spec fn neoforge_compatible(version: Seq<char>, minecraft_version: Seq<char>) -> bool {
    let mc = u64_segments(trim_start_prefix_spec(minecraft_version, "1."@), '.');
    let loader = u64_segments(version, '.');
    mc.len() >= 2 && loader.len() >= 2 && loader[0] == mc[0] && loader[1] == mc[1]
}

/// Whether a NeoForge build targets the given Minecraft release line.
pub fn is_neoforge_compatible(version: &str, minecraft_version: &str) -> (b: bool)
    ensures
        b == neoforge_compatible(version@, minecraft_version@),
{
    let mcv = chars_of(minecraft_version);
    let prefix = chars_of("1.");
    let trimmed = trim_start_prefix(&mcv, &prefix);
    let mc = u64_segments_exec(&trimmed, '.');
    let lv = chars_of(version);
    let loader = u64_segments_exec(&lv, '.');
    if mc.len() < 2 || loader.len() < 2 {
        return false;
    }
    loader[0] == mc[0] && loader[1] == mc[1]
}

pub open spec fn nth_or_zero(parts: Seq<u32>, k: int) -> u32 {
    if k < parts.len() {
        parts[k]
    } else {
        0u32
    }
}

/// ASM 9.7 is the first release that reads Java 21 class files.
pub open spec fn asm_supports_java_21(version: Seq<char>) -> bool {
    let parts = numeric_parts(version);
    let major = nth_or_zero(parts, 0);
    let minor = nth_or_zero(parts, 1);
    major > 9 || (major == 9 && minor >= 7)
}

/// Whether the given ASM version can read Java 21 bytecode (9.7 or newer).
pub fn asm_version_supports_java_21(version: &str) -> (b: bool)
    ensures
        b == asm_supports_java_21(version@),
{
    let parts = parse_numeric_version_parts(version);
    let major = if parts.len() > 0 {
        parts[0]
    } else {
        0
    };
    let minor = if parts.len() > 1 {
        parts[1]
    } else {
        0
    };
    major > 9 || (major == 9 && minor >= 7)
}

/// The `k`-th `.`-separated segment read as `u32`, or `dflt`.
pub open spec fn dotted_part_or(segs: Seq<Seq<char>>, k: int, dflt: u32) -> u32 {
    if k < segs.len() {
        match opt_u32(segs[k]) {
            Some(v) => v,
            None => dflt,
        }
    } else {
        dflt
    }
}

/// Java needed by a Minecraft version: 21 from 1.20.5 on, 17 from 1.17 on,
/// otherwise 8. Unreadable parts count as `1`, `20` and `0`.
pub open spec fn java_for_minecraft(v: Seq<char>) -> u32 {
    let segs = split_spec(v, Sep::Char('.'));
    let major = dotted_part_or(segs, 0, 1);
    let minor = dotted_part_or(segs, 1, 20);
    let patch = dotted_part_or(segs, 2, 0);
    if major > 1 || minor >= 21 || (minor == 20 && patch >= 5) {
        21
    } else if minor >= 17 {
        17
    } else {
        8
    }
}

fn dotted_part_or_exec(segs: &Vec<Vec<char>>, k: usize, dflt: u32) -> (r: u32)
    ensures
        r == dotted_part_or(views(segs@), k as int, dflt),
{
    if k < segs.len() {
        match opt_u32_exec(&segs[k]) {
            Some(v) => v,
            None => dflt,
        }
    } else {
        dflt
    }
}

/// The Java major version that a Minecraft version needs.
pub fn required_java_for_minecraft_version(minecraft_version: &str) -> (major: u32)
    ensures
        major == java_for_minecraft(minecraft_version@),
        major == 8 || major == 17 || major == 21,
{
    let v = chars_of(minecraft_version);
    let segs = split_chars(&v, Sep::Char('.'));
    let major = dotted_part_or_exec(&segs, 0, 1);
    let minor = dotted_part_or_exec(&segs, 1, 20);
    let patch = dotted_part_or_exec(&segs, 2, 0);
    if major > 1 || minor >= 21 || (minor == 20 && patch >= 5) {
        21
    } else if minor >= 17 {
        17
    } else {
        8
    }
}


/// The order in which versions are ranked: numeric parts compared position by
/// position (missing parts are `0`), ties broken by plain text order.
pub open spec fn version_order(a: Seq<char>, b: Seq<char>) -> int {
    then_order(padded_order(numeric_parts(a), numeric_parts(b)), text_order(a, b))
}

/// `version_order` as `-1`, `0` or `1`.
pub fn version_order_value(a: &str, b: &str) -> (r: i8)
    ensures
        r == version_order(a@, b@),
{
    let a_parts = parse_numeric_version_parts(a);
    let b_parts = parse_numeric_version_parts(b);
    let numeric = padded_order_exec(&a_parts, &b_parts);
    if numeric != 0 {
        numeric
    } else {
        text_order_str(a, b)
    }
}

/// A NeoForge version `A.B.*` belongs to a Minecraft version `1.X.Y` only
/// when `A == X` and `B == Y`: a different first or second number never
/// matches, so one NeoForge version belongs to a single Minecraft line.
pub proof fn neoforge_line_must_match(version: Seq<char>, minecraft_version: Seq<char>, other_minecraft: Seq<char>)
    ensures
        ({
            let mc = u64_segments(trim_start_prefix_spec(minecraft_version, "1."@), '.');
            let loader = u64_segments(version, '.');
            &&& neoforge_compatible(version, minecraft_version) ==> mc.len() >= 2 && loader.len() >= 2
            &&& (mc.len() >= 1 && loader.len() >= 1 && loader[0] != mc[0]) ==> !neoforge_compatible(
                version,
                minecraft_version,
            )
            &&& (mc.len() >= 2 && loader.len() >= 2 && loader[1] != mc[1]) ==> !neoforge_compatible(
                version,
                minecraft_version,
            )
        }),
        ({
            let m1 = u64_segments(trim_start_prefix_spec(minecraft_version, "1."@), '.');
            let m2 = u64_segments(trim_start_prefix_spec(other_minecraft, "1."@), '.');
            neoforge_compatible(version, minecraft_version) && neoforge_compatible(version, other_minecraft)
                ==> m1[0] == m2[0] && m1[1] == m2[1]
        }),
{
}

} // verus!
