//! The arguments a game is launched with: placeholder resolution, argument
//! clean-up, and the JVM options that Forge-like loaders need.
use vstd::prelude::*;

use crate::model::{Instance, LoaderType};
use crate::text::{
    chars_of, is_ascii_alnum, lemma_replace_empty_pattern, parse_u32, replace_all_chars,
    seq_contains, seq_starts_with, spec_parse_uint, spec_replace_all,
    str_contains, str_eq, str_is_blank, str_starts_with, string_from_chars, string_views,
    trim_spec,
};

verus! {

/// An argument that starts with `-` is an option.
pub open spec fn is_option(s: Seq<char>) -> bool {
    s.len() > 0 && s[0] == '-'
}

/// The list without its last element when that element is an option.
pub open spec fn without_dangling_option(a: Seq<Seq<char>>) -> Seq<Seq<char>> {
    if a.len() > 0 && is_option(a.last()) {
        a.drop_last()
    } else {
        a
    }
}

/// Drops a trailing option whose value was itself dropped.
pub fn drop_dangling_option(args: &mut Vec<String>)
    ensures
        string_views(final(args)@) == without_dangling_option(string_views(old(args)@)),
        final(args)@.len() <= old(args)@.len(),
        forall|k: int| 0 <= k < final(args)@.len() ==> final(args)@[k] == old(args)@[k],
{
    let n = args.len();
    if n == 0 {
        return;
    }
    let dash = str_starts_with(args[n - 1].as_str(), "-");
    proof {
        reveal_strlit("-");
        assert("-"@ =~= seq!['-']);
        let last = args@[n - 1]@;
        assert(string_views(args@).last() == last);
        if dash {
            assert(last.subrange(0, 1)[0] == "-"@[0]);
        } else if last.len() > 0 && last[0] == '-' {
            assert(last.subrange(0, 1) =~= "-"@);
        }
        assert(dash == is_option(last));
    }
    if dash {
        let ghost before = args@;
        args.pop();
        assert(string_views(args@) =~= string_views(before).drop_last());
    }
}

/// Whether `flag` is one of the arguments.
pub open spec fn has_arg(a: Seq<Seq<char>>, flag: Seq<char>) -> bool {
    exists|i: int| 0 <= i < a.len() && a[i] == flag
}

/// Whether one of `args` is exactly `flag`.
pub fn contains_flag(args: &Vec<String>, flag: &str) -> (b: bool)
    ensures
        b == has_arg(string_views(args@), flag@),
{
    let ghost a = string_views(args@);
    let mut i: usize = 0;
    while i < args.len()
        invariant
            i <= args.len(),
            a == string_views(args@),
            forall|j: int| 0 <= j < i ==> a[j] != flag@,
        decreases args.len() - i,
    {
        if str_eq(args[i].as_str(), flag) {
            assert(a[i as int] == flag@);
            return true;
        }
        i += 1;
    }
    false
}

/// The flag `flag` occurs at or after position `j`.
pub open spec fn occurs_from(a: Seq<Seq<char>>, j: int, flag: Seq<char>) -> bool {
    exists|k: int| j <= k < a.len() && a[k] == flag
}

/// `--width`/`--height` keep their value only when it is a number that fits
/// in a `u32`; otherwise the flag is dropped (the value stays, as an argument
/// of its own). A valid pair is dropped too when the same flag comes again
/// later: the last one wins.
pub open spec fn window_args_from(a: Seq<Seq<char>>, i: int) -> Seq<Seq<char>>
    decreases a.len() - i,
{
    if i < 0 || i >= a.len() {
        Seq::empty()
    } else if a[i] == "--width"@ || a[i] == "--height"@ {
        if i + 1 >= a.len() || is_option(a[i + 1]) || spec_parse_uint(
            a[i + 1],
            u32::MAX as int,
        ) is None {
            window_args_from(a, i + 1)
        } else if occurs_from(a, i + 2, a[i]) {
            window_args_from(a, i + 2)
        } else {
            seq![a[i], a[i + 1]] + window_args_from(a, i + 2)
        }
    } else {
        seq![a[i]] + window_args_from(a, i + 1)
    }
}

fn occurs_from_exec(args: &Vec<String>, j: usize, flag: &str) -> (b: bool)
    requires
        j <= args.len(),
    ensures
        b == occurs_from(string_views(args@), j as int, flag@),
{
    let ghost a = string_views(args@);
    let mut k: usize = j;
    while k < args.len()
        invariant
            j <= k <= args.len(),
            a == string_views(args@),
            forall|m: int| j <= m < k ==> a[m] != flag@,
        decreases args.len() - k,
    {
        if str_eq(args[k].as_str(), flag) {
            assert(a[k as int] == flag@);
            return true;
        }
        k += 1;
    }
    false
}

/// Drops `--width`/`--height` flags that lack a valid numeric value, and
/// pairs that a later one of the same flag overrides.
pub fn sanitize_numeric_window_args(args: Vec<String>) -> (r: Vec<String>)
    ensures
        string_views(r@) == window_args_from(string_views(args@), 0),
{
    let ghost a = string_views(args@);
    let mut out: Vec<String> = Vec::new();
    let mut i: usize = 0;
    assert(string_views(out@) + window_args_from(a, 0) =~= window_args_from(a, 0));
    while i < args.len()
        invariant
            i <= args.len(),
            a == string_views(args@),
            window_args_from(a, 0) == string_views(out@) + window_args_from(a, i as int),
        decreases args.len() - i,
    {
        let arg = &args[i];
        let ghost before = string_views(out@);
        if str_eq(arg.as_str(), "--width") || str_eq(arg.as_str(), "--height") {
            if i + 1 >= args.len() {
                i += 1;
                continue;
            }
            let value = &args[i + 1];
            let vchars = chars_of(value.as_str());
            let bad = (vchars.len() > 0 && vchars[0] == '-') || parse_u32(&vchars).is_none();
            if bad {
                i += 1;
                continue;
            }
            if occurs_from_exec(&args, i + 2, arg.as_str()) {
                i += 2;
                continue;
            }
            out.push(arg.clone());
            out.push(value.clone());
            assert(string_views(out@) =~= before + seq![a[i as int], a[i + 1]]);
            i += 2;
            continue;
        }
        out.push(arg.clone());
        assert(string_views(out@) =~= before + seq![a[i as int]]);
        i += 1;
    }
    out
}

/// `<minecraft version>-<loader version>`, or the Minecraft version alone when
/// no loader version is set (or it is blank).
pub open spec fn launch_version_name_of(instance: Instance) -> Seq<char> {
    match instance.loader_version {
        Some(v) => if trim_spec(v@).len() != 0 {
            instance.minecraft_version@ + "-"@ + v@
        } else {
            instance.minecraft_version@
        },
        None => instance.minecraft_version@,
    }
}

/// The version name the game is told it runs.
pub fn launch_version_name(instance: &Instance) -> (r: String)
    ensures
        r@ == launch_version_name_of(*instance),
{
    match &instance.loader_version {
        Some(v) => {
            if !str_is_blank(v.as_str()) {
                let mut r = instance.minecraft_version.clone();
                r.append("-");
                r.append(v.as_str());
                r
            } else {
                instance.minecraft_version.clone()
            }
        },
        None => instance.minecraft_version.clone(),
    }
}

/// Forge and NeoForge need `--fml.mcVersion` and their own version flag;
/// they are supplied when the loader gave no game arguments at all.
pub open spec fn fml_args_of(instance: Instance, a: Seq<Seq<char>>) -> Seq<Seq<char>> {
    if !(instance.loader == LoaderType::Forge || instance.loader == LoaderType::NeoForge)
        || a.len() != 0 {
        a
    } else {
        let b = if has_arg(a, "--fml.mcVersion"@) {
            a
        } else {
            a + seq!["--fml.mcVersion"@, instance.minecraft_version@]
        };
        let flag = if instance.loader == LoaderType::Forge {
            "--fml.forgeVersion"@
        } else {
            "--fml.neoForgeVersion"@
        };
        match instance.loader_version {
            Some(v) => if trim_spec(v@).len() != 0 && !has_arg(b, flag) {
                b + seq![flag, v@]
            } else {
                b
            },
            None => b,
        }
    }
}

/// Adds the FML version flags Forge and NeoForge refuse to start without,
/// when the loader supplied no game arguments of its own.
pub fn ensure_required_fml_game_args(instance: &Instance, args: Vec<String>) -> (r: Vec<String>)
    ensures
        string_views(r@) == fml_args_of(*instance, string_views(args@)),
{
    let mut args = args;
    let forge_like = match instance.loader {
        LoaderType::Forge | LoaderType::NeoForge => true,
        _ => false,
    };
    if !forge_like || args.len() != 0 {
        return args;
    }
    let ghost a = string_views(args@);
    if !contains_flag(&args, "--fml.mcVersion") {
        args.push(String::from_str("--fml.mcVersion"));
        args.push(instance.minecraft_version.clone());
        assert(string_views(args@) =~= a + seq!["--fml.mcVersion"@, instance.minecraft_version@]);
    }
    let ghost b = string_views(args@);
    let flag = match instance.loader {
        LoaderType::Forge => "--fml.forgeVersion",
        _ => "--fml.neoForgeVersion",
    };
    match &instance.loader_version {
        Some(v) => {
            if !str_is_blank(v.as_str()) && !contains_flag(&args, flag) {
                args.push(String::from_str(flag));
                args.push(v.clone());
                assert(string_views(args@) =~= b + seq![flag@, v@]);
            }
        },
        None => {},
    }
    args
}

/// Each pattern replaced by its value, in order.
pub open spec fn resolve_all(s: Seq<char>, pats: Seq<Seq<char>>, vals: Seq<Seq<char>>) -> Seq<char>
    decreases pats.len(),
{
    if pats.len() == 0 {
        s
    } else {
        spec_replace_all(
            resolve_all(s, pats.drop_last(), vals.drop_last()),
            pats.last(),
            vals.last(),
        )
    }
}

/// Replaces each pattern of `pats` by the value at the same place of `vals`, in order.
pub fn resolve_placeholders(arg: &str, pats: &Vec<String>, vals: &Vec<String>) -> (r: String)
    requires
        pats.len() == vals.len(),
    ensures
        r@ == resolve_all(arg@, string_views(pats@), string_views(vals@)),
{
    let ghost ps = string_views(pats@);
    let ghost vs = string_views(vals@);
    let mut cur = chars_of(arg);
    let mut k: usize = 0;
    assert(ps.take(0) =~= Seq::<Seq<char>>::empty());
    while k < pats.len()
        invariant
            k <= pats.len(),
            pats.len() == vals.len(),
            ps == string_views(pats@),
            vs == string_views(vals@),
            cur@ == resolve_all(arg@, ps.take(k as int), vs.take(k as int)),
        decreases pats.len() - k,
    {
        assert(ps.take(k + 1).drop_last() =~= ps.take(k as int));
        assert(vs.take(k + 1).drop_last() =~= vs.take(k as int));
        let p = chars_of(pats[k].as_str());
        let v = chars_of(vals[k].as_str());
        if p.len() > 0 {
            cur = replace_all_chars(&cur, &p, &v);
        } else {
            proof {
                assert(p@ =~= Seq::<char>::empty());
                lemma_replace_empty_pattern(cur@, v@);
            }
        }
        k += 1;
    }
    assert(ps.take(pats.len() as int) =~= ps);
    assert(vs.take(pats.len() as int) =~= vs);
    string_from_chars(cur.as_slice())
}

/// `-cp`, `-classpath` and `--class-path` set the classpath.
pub open spec fn is_classpath_flag(s: Seq<char>) -> bool {
    s == "-cp"@ || s == "-classpath"@ || s == "--class-path"@
}

/// Arguments from position `i` on, appended to `acc`: classpath switches are
/// dropped with their value (when `drop_classpath`), placeholders are
/// resolved, and an argument left with an unresolved `${` is dropped; when it
/// was the value of an option just before it, that option goes too.
pub open spec fn sanitized_from(
    raw: Seq<Seq<char>>,
    i: int,
    acc: Seq<Seq<char>>,
    pats: Seq<Seq<char>>,
    vals: Seq<Seq<char>>,
    drop_classpath: bool,
) -> Seq<Seq<char>>
    decreases raw.len() - i,
{
    if i < 0 || i >= raw.len() {
        acc
    } else if drop_classpath && is_classpath_flag(raw[i]) {
        if i + 2 >= raw.len() {
            acc
        } else {
            sanitized_from(raw, i + 2, acc, pats, vals, drop_classpath)
        }
    } else {
        let r = resolve_all(raw[i], pats, vals);
        if seq_contains(r, "${"@) {
            if is_option(raw[i]) {
                sanitized_from(raw, i + 1, acc, pats, vals, drop_classpath)
            } else {
                sanitized_from(raw, i + 1, without_dangling_option(acc), pats, vals, drop_classpath)
            }
        } else {
            sanitized_from(raw, i + 1, acc.push(r), pats, vals, drop_classpath)
        }
    }
}

/// Resolves placeholders in `raw`, dropping what cannot be resolved; no
/// argument that comes out holds `${`.
pub fn sanitize_args(raw: &Vec<String>, pats: &Vec<String>, vals: &Vec<String>, drop_classpath: bool) -> (r: Vec<String>)
    requires
        pats.len() == vals.len(),
    ensures
        string_views(r@) == sanitized_from(
            string_views(raw@),
            0,
            Seq::empty(),
            string_views(pats@),
            string_views(vals@),
            drop_classpath,
        ),
        forall|k: int| 0 <= k < r@.len() ==> !seq_contains(#[trigger] r@[k]@, "${"@),
{
    let ghost a = string_views(raw@);
    let ghost ps = string_views(pats@);
    let ghost vs = string_views(vals@);
    let mut out: Vec<String> = Vec::new();
    let mut i: usize = 0;
    assert(string_views(out@) =~= Seq::<Seq<char>>::empty());
    while i < raw.len()
        invariant
            pats.len() == vals.len(),
            a == string_views(raw@),
            ps == string_views(pats@),
            vs == string_views(vals@),
            sanitized_from(a, 0, Seq::empty(), ps, vs, drop_classpath) == sanitized_from(
                a,
                i as int,
                string_views(out@),
                ps,
                vs,
                drop_classpath,
            ),
            forall|k: int| 0 <= k < out@.len() ==> !seq_contains(#[trigger] out@[k]@, "${"@),
        decreases raw.len() + 2 - i,
    {
        let arg = raw[i].as_str();
        if drop_classpath && (str_eq(arg, "-cp") || str_eq(arg, "-classpath") || str_eq(
            arg,
            "--class-path",
        )) {
            if raw.len() - i <= 2 {
                i = raw.len();
            } else {
                i += 2;
            }
            continue;
        }
        let resolved = resolve_placeholders(arg, pats, vals);
        if str_contains(resolved.as_str(), "${") {
            if !str_starts_with(arg, "-") {
                proof {
                    reveal_strlit("-");
                    assert("-"@ =~= seq!['-']);
                    if a[i as int].len() > 0 && a[i as int][0] == '-' {
                        assert(a[i as int].subrange(0, 1) =~= "-"@);
                    }
                }
                drop_dangling_option(&mut out);
            } else {
                proof {
                    reveal_strlit("-");
                    assert(a[i as int].subrange(0, 1)[0] == "-"@[0]);
                }
            }
            i += 1;
            continue;
        }
        let ghost before = string_views(out@);
        out.push(resolved);
        assert(string_views(out@) =~= before.push(resolved@));
        i += 1;
    }
    out
}

fn push_pair(pats: &mut Vec<String>, vals: &mut Vec<String>, p: &str, v: &str)
    ensures
        string_views(final(pats)@) == string_views(old(pats)@).push(p@),
        string_views(final(vals)@) == string_views(old(vals)@).push(v@),
{
    let ghost a = string_views(pats@);
    let ghost b = string_views(vals@);
    pats.push(String::from_str(p));
    vals.push(String::from_str(v));
    assert(string_views(pats@) =~= a.push(p@));
    assert(string_views(vals@) =~= b.push(v@));
}

pub open spec fn opt_or(o: Option<String>, d: Seq<char>) -> Seq<char> {
    match o {
        Some(s) => s@,
        None => d,
    }
}

/// The placeholders of JVM arguments, in the order they are replaced.
pub open spec fn jvm_patterns() -> Seq<Seq<char>> {
    seq![
        "${natives_directory}"@,
        "${library_directory}"@,
        "${classpath}"@,
        "${classpath_separator}"@,
        "${game_directory}"@,
        "${version_name}"@,
        "${version}"@,
        "${mc_version}"@,
        "${launcher_name}"@,
        "${launcher_version}"@,
    ]
}

/// What each JVM placeholder stands for.
pub open spec fn jvm_values(
    instance: Instance,
    natives: Seq<char>,
    game_dir: Seq<char>,
    library_dir: Seq<char>,
    classpath: Seq<char>,
    os: crate::platform::HostOs,
) -> Seq<Seq<char>> {
    seq![
        natives,
        library_dir,
        classpath,
        crate::platform::classpath_separator(os),
        game_dir,
        launch_version_name_of(instance),
        opt_or(instance.loader_version, Seq::empty()),
        instance.minecraft_version@,
        "InterfaceOficial"@,
        "0.1.0"@,
    ]
}

/// The loader's JVM arguments made ready for launch: classpath switches are
/// dropped (the launcher sets the classpath itself), known placeholders are
/// filled in, and arguments with unknown ones are dropped. `natives`,
/// `game_dir` and `library_dir` are the directories as the launch passes them.
pub fn sanitize_jvm_args(
    instance: &Instance,
    raw_args: &Vec<String>,
    natives: &str,
    game_dir: &str,
    library_dir: &str,
    classpath: &str,
    os: crate::platform::HostOs,
) -> (r: Vec<String>)
    ensures
        string_views(r@) == sanitized_from(
            string_views(raw_args@),
            0,
            Seq::empty(),
            jvm_patterns(),
            jvm_values(*instance, natives@, game_dir@, library_dir@, classpath@, os),
            true,
        ),
        forall|k: int| 0 <= k < r@.len() ==> !seq_contains(#[trigger] r@[k]@, "${"@),
{
    let mut pats: Vec<String> = Vec::new();
    let mut vals: Vec<String> = Vec::new();
    let version_name = launch_version_name(instance);
    let loader_version: &str = match &instance.loader_version {
        Some(v) => v.as_str(),
        None => "",
    };
    proof {
        reveal_strlit("");
        assert(""@ =~= Seq::<char>::empty());
        assert(loader_version@ == opt_or(instance.loader_version, Seq::empty()));
    }
    push_pair(&mut pats, &mut vals, "${natives_directory}", natives);
    push_pair(&mut pats, &mut vals, "${library_directory}", library_dir);
    push_pair(&mut pats, &mut vals, "${classpath}", classpath);
    push_pair(
        &mut pats,
        &mut vals,
        "${classpath_separator}",
        crate::platform::get_classpath_separator(os),
    );
    push_pair(&mut pats, &mut vals, "${game_directory}", game_dir);
    push_pair(&mut pats, &mut vals, "${version_name}", version_name.as_str());
    push_pair(&mut pats, &mut vals, "${version}", loader_version);
    push_pair(&mut pats, &mut vals, "${mc_version}", instance.minecraft_version.as_str());
    push_pair(&mut pats, &mut vals, "${launcher_name}", "InterfaceOficial");
    push_pair(&mut pats, &mut vals, "${launcher_version}", "0.1.0");
    proof {
        reveal_strlit("");
        assert(string_views(pats@) =~= jvm_patterns());
        assert(string_views(vals@) =~= jvm_values(
            *instance,
            natives@,
            game_dir@,
            library_dir@,
            classpath@,
            os,
        ));
    }
    sanitize_args(raw_args, &pats, &vals, true)
}

/// The placeholders of game arguments, in the order they are replaced.
pub open spec fn game_patterns() -> Seq<Seq<char>> {
    seq![
        "${auth_player_name}"@,
        "${version_name}"@,
        "${version}"@,
        "${mc_version}"@,
        "${game_directory}"@,
        "${assets_root}"@,
        "${assets_index_name}"@,
        "${auth_uuid}"@,
        "${auth_access_token}"@,
        "${auth_xuid}"@,
        "${clientid}"@,
        "${user_properties}"@,
        "${user_type}"@,
        "${version_type}"@,
    ]
}

/// What each game placeholder stands for.
pub open spec fn game_values(
    instance: Instance,
    game_dir: Seq<char>,
    assets_dir: Seq<char>,
    account: crate::auth::LaunchAccountProfile,
) -> Seq<Seq<char>> {
    seq![
        account.username@,
        launch_version_name_of(instance),
        opt_or(instance.loader_version, Seq::empty()),
        instance.minecraft_version@,
        game_dir,
        assets_dir,
        opt_or(instance.asset_index, "legacy"@),
        account.uuid@,
        account.access_token@,
        account.xuid@,
        account.client_id@,
        "{}"@,
        account.user_type@,
        "release"@,
    ]
}

/// The game arguments of a launch: placeholders filled in from the instance
/// and the account, unresolvable ones dropped, bad window sizes dropped, and
/// the FML flags Forge-like loaders need added.
pub fn sanitize_game_args(
    instance: &Instance,
    raw_args: &Vec<String>,
    game_dir: &str,
    assets_dir: &str,
    account: &crate::auth::LaunchAccountProfile,
) -> (r: Vec<String>)
    ensures
        string_views(r@) == fml_args_of(
            *instance,
            window_args_from(
                sanitized_from(
                    string_views(raw_args@),
                    0,
                    Seq::empty(),
                    game_patterns(),
                    game_values(*instance, game_dir@, assets_dir@, *account),
                    false,
                ),
                0,
            ),
        ),
{
    let mut pats: Vec<String> = Vec::new();
    let mut vals: Vec<String> = Vec::new();
    let version_name = launch_version_name(instance);
    let loader_version: &str = match &instance.loader_version {
        Some(v) => v.as_str(),
        None => "",
    };
    proof {
        reveal_strlit("");
        assert(""@ =~= Seq::<char>::empty());
        assert(loader_version@ == opt_or(instance.loader_version, Seq::empty()));
    }
    let asset_index: &str = match &instance.asset_index {
        Some(v) => v.as_str(),
        None => "legacy",
    };
    push_pair(&mut pats, &mut vals, "${auth_player_name}", account.username.as_str());
    push_pair(&mut pats, &mut vals, "${version_name}", version_name.as_str());
    push_pair(&mut pats, &mut vals, "${version}", loader_version);
    push_pair(&mut pats, &mut vals, "${mc_version}", instance.minecraft_version.as_str());
    push_pair(&mut pats, &mut vals, "${game_directory}", game_dir);
    push_pair(&mut pats, &mut vals, "${assets_root}", assets_dir);
    push_pair(&mut pats, &mut vals, "${assets_index_name}", asset_index);
    push_pair(&mut pats, &mut vals, "${auth_uuid}", account.uuid.as_str());
    push_pair(&mut pats, &mut vals, "${auth_access_token}", account.access_token.as_str());
    push_pair(&mut pats, &mut vals, "${auth_xuid}", account.xuid.as_str());
    push_pair(&mut pats, &mut vals, "${clientid}", account.client_id.as_str());
    push_pair(&mut pats, &mut vals, "${user_properties}", "{}");
    push_pair(&mut pats, &mut vals, "${user_type}", account.user_type.as_str());
    push_pair(&mut pats, &mut vals, "${version_type}", "release");
    proof {
        reveal_strlit("");
        assert(string_views(pats@) =~= game_patterns());
        assert(string_views(vals@) =~= game_values(*instance, game_dir@, assets_dir@, *account));
    }
    let resolved = sanitize_args(raw_args, &pats, &vals, false);
    let windowed = sanitize_numeric_window_args(resolved);
    ensure_required_fml_game_args(instance, windowed)
}

/// The `--add-modules`/`--add-opens`/`--add-exports` pairs modern Forge needs
/// on Java 17 and later.
pub open spec fn modern_forge_pairs() -> Seq<(Seq<char>, Seq<char>)> {
    seq![
        ("--add-modules"@, "ALL-SYSTEM"@),
        ("--add-opens"@, "java.base/java.util.jar=ALL-UNNAMED"@),
        ("--add-opens"@, "java.base/java.lang=ALL-UNNAMED"@),
        ("--add-opens"@, "java.base/java.util=ALL-UNNAMED"@),
        ("--add-opens"@, "java.base/java.lang.invoke=ALL-UNNAMED"@),
        ("--add-opens"@, "java.base/java.lang.reflect=ALL-UNNAMED"@),
        ("--add-opens"@, "java.base/java.nio.file=ALL-UNNAMED"@),
        ("--add-opens"@, "java.base/sun.security.util=ALL-UNNAMED"@),
        ("--add-exports"@, "java.base/sun.security.action=ALL-UNNAMED"@),
        ("--add-opens"@, "java.base/java.io=ALL-UNNAMED"@),
        ("--add-opens"@, "java.base/java.net=ALL-UNNAMED"@),
        ("--add-opens"@, "java.base/sun.nio.ch=ALL-UNNAMED"@),
    ]
}

pub open spec fn pair_views(v: Seq<(&str, &str)>) -> Seq<(Seq<char>, Seq<char>)> {
    v.map_values(|p: (&str, &str)| (p.0@, p.1@))
}

/// The JVM flag/value pairs modern Forge-like loaders need.
pub fn modern_forge_jvm_arg_pairs() -> (r: Vec<(&'static str, &'static str)>)
    ensures
        pair_views(r@) == modern_forge_pairs(),
{
    let r = vec![
        ("--add-modules", "ALL-SYSTEM"),
        ("--add-opens", "java.base/java.util.jar=ALL-UNNAMED"),
        ("--add-opens", "java.base/java.lang=ALL-UNNAMED"),
        ("--add-opens", "java.base/java.util=ALL-UNNAMED"),
        ("--add-opens", "java.base/java.lang.invoke=ALL-UNNAMED"),
        ("--add-opens", "java.base/java.lang.reflect=ALL-UNNAMED"),
        ("--add-opens", "java.base/java.nio.file=ALL-UNNAMED"),
        ("--add-opens", "java.base/sun.security.util=ALL-UNNAMED"),
        ("--add-exports", "java.base/sun.security.action=ALL-UNNAMED"),
        ("--add-opens", "java.base/java.io=ALL-UNNAMED"),
        ("--add-opens", "java.base/java.net=ALL-UNNAMED"),
        ("--add-opens", "java.base/sun.nio.ch=ALL-UNNAMED"),
    ];
    assert(pair_views(r@) =~= modern_forge_pairs());
    r
}

/// `flag=value` appears, or `flag` directly followed by `value`.
pub open spec fn has_pair(a: Seq<Seq<char>>, flag: Seq<char>, value: Seq<char>) -> bool {
    has_arg(a, flag + "="@ + value) || exists|i: int|
        0 <= i && i + 1 < a.len() && #[trigger] a[i] == flag && a[i + 1] == value
}

pub open spec fn with_pair(a: Seq<Seq<char>>, flag: Seq<char>, value: Seq<char>) -> Seq<Seq<char>> {
    if has_pair(a, flag, value) {
        a
    } else {
        a + seq![flag, value]
    }
}

/// Appends `flag value` unless the pair is already there, in either form.
pub fn ensure_jvm_arg_pair_present(args: &mut Vec<String>, flag: &str, value: &str)
    ensures
        string_views(final(args)@) == with_pair(string_views(old(args)@), flag@, value@),
{
    let ghost a = string_views(args@);
    let mut combined = String::from_str(flag);
    combined.append("=");
    combined.append(value);
    if contains_flag(args, combined.as_str()) {
        return;
    }
    let mut i: usize = 0;
    while args.len() > 1 && i < args.len() - 1
        invariant
            i <= args.len(),
            a == string_views(args@),
            args@ == old(args)@,
            !has_arg(a, flag@ + "="@ + value@),
            forall|j: int| 0 <= j < i && j + 1 < a.len() ==> !(#[trigger] a[j] == flag@ && a[j + 1] == value@),
        decreases args.len() - i,
    {
        if str_eq(args[i].as_str(), flag) && str_eq(args[i + 1].as_str(), value) {
            assert(a[i as int] == flag@ && a[i + 1] == value@);
            return;
        }
        i += 1;
    }
    args.push(String::from_str(flag));
    args.push(String::from_str(value));
    assert(string_views(args@) =~= a + seq![flag@, value@]);
}

pub open spec fn with_arg(a: Seq<Seq<char>>, arg: Seq<char>) -> Seq<Seq<char>> {
    if has_arg(a, arg) {
        a
    } else {
        a.push(arg)
    }
}

/// Appends `flag_with_value` unless it is already one of the arguments.
pub fn ensure_jvm_arg_present(args: &mut Vec<String>, flag_with_value: &str)
    ensures
        string_views(final(args)@) == with_arg(string_views(old(args)@), flag_with_value@),
{
    let ghost a = string_views(args@);
    if contains_flag(args, flag_with_value) {
        return;
    }
    args.push(String::from_str(flag_with_value));
    assert(string_views(args@) =~= a.push(flag_with_value@));
}

/// The arguments that do not start with `prefix`, in order.
pub open spec fn without_prefix(a: Seq<Seq<char>>, prefix: Seq<char>) -> Seq<Seq<char>>
    decreases a.len(),
{
    if a.len() == 0 {
        Seq::empty()
    } else {
        let rest = without_prefix(a.drop_last(), prefix);
        if seq_starts_with(a.last(), prefix) {
            rest
        } else {
            rest.push(a.last())
        }
    }
}

/// `-D<property>=`.
pub open spec fn property_prefix(property: Seq<char>) -> Seq<char> {
    "-D"@ + property + "="@
}

pub open spec fn with_property(a: Seq<Seq<char>>, property: Seq<char>, value: Seq<char>) -> Seq<Seq<char>> {
    without_prefix(a, property_prefix(property)).push(property_prefix(property) + value)
}

/// Sets the system property `property` to `value`: every earlier setting of
/// it is removed and `-D<property>=<value>` goes last.
pub fn set_jvm_system_property(args: &mut Vec<String>, property: &str, value: &str)
    ensures
        string_views(final(args)@) == with_property(string_views(old(args)@), property@, value@),
{
    let ghost a = string_views(args@);
    let mut prefix = String::from_str("-D");
    prefix.append(property);
    prefix.append("=");
    let mut kept: Vec<String> = Vec::new();
    let mut i: usize = 0;
    while i < args.len()
        invariant
            i <= args.len(),
            a == string_views(args@),
            prefix@ == property_prefix(property@),
            string_views(kept@) == without_prefix(a.take(i as int), prefix@),
        decreases args.len() - i,
    {
        assert(a.take(i + 1).drop_last() =~= a.take(i as int));
        let ghost before = string_views(kept@);
        if !str_starts_with(args[i].as_str(), prefix.as_str()) {
            kept.push(args[i].clone());
            assert(string_views(kept@) =~= before.push(a[i as int]));
        }
        i += 1;
    }
    assert(a.take(args.len() as int) =~= a);
    let mut setting = prefix.clone();
    setting.append(value);
    let ghost before = string_views(kept@);
    kept.push(setting);
    assert(string_views(kept@) =~= before.push(property_prefix(property@) + value@));
    *args = kept;
}

/// Each of `pairs`, in turn, made present.
pub open spec fn with_pairs(a: Seq<Seq<char>>, pairs: Seq<(Seq<char>, Seq<char>)>) -> Seq<Seq<char>>
    decreases pairs.len(),
{
    if pairs.len() == 0 {
        a
    } else {
        with_pair(with_pairs(a, pairs.drop_last()), pairs.last().0, pairs.last().1)
    }
}

/// Makes every modern Forge module flag present.
pub fn ensure_modern_forge_jvm_args(args: &mut Vec<String>)
    ensures
        string_views(final(args)@) == with_pairs(string_views(old(args)@), modern_forge_pairs()),
{
    let pairs = modern_forge_jvm_arg_pairs();
    let ghost ps = pair_views(pairs@);
    let ghost a = string_views(args@);
    let mut k: usize = 0;
    assert(ps.take(0) =~= Seq::<(Seq<char>, Seq<char>)>::empty());
    while k < pairs.len()
        invariant
            k <= pairs.len(),
            ps == pair_views(pairs@),
            ps == modern_forge_pairs(),
            string_views(args@) == with_pairs(a, ps.take(k as int)),
        decreases pairs.len() - k,
    {
        assert(ps.take(k + 1).drop_last() =~= ps.take(k as int));
        let (flag, value) = pairs[k];
        ensure_jvm_arg_pair_present(args, flag, value);
        k += 1;
    }
    assert(ps.take(pairs.len() as int) =~= ps);
}

/// What the launch adds for Forge-like loaders: the module flags when the
/// game runs on Java 17 or later, and for NeoForge its module flags, its
/// ignore list, and the early-window switches turned off.
pub open spec fn workarounds_of(instance: Instance, a: Seq<Seq<char>>) -> Seq<Seq<char>> {
    if !(instance.loader == LoaderType::Forge || instance.loader == LoaderType::NeoForge) {
        a
    } else {
        let b = if crate::version_parts::java_for_minecraft(instance.minecraft_version@) >= 17 {
            with_pairs(a, modern_forge_pairs())
        } else {
            a
        };
        if instance.loader != LoaderType::NeoForge {
            b
        } else {
            neoforge_workarounds(b)
        }
    }
}

pub open spec fn neoforge_workarounds(b: Seq<Seq<char>>) -> Seq<Seq<char>> {
    let c = with_arg(
        with_arg(b, "--add-modules=jdk.naming.dns"@),
        "--add-opens=java.base/java.util.jar=ALL-UNNAMED"@,
    );
    with_property(
        with_property(
            with_property(
                with_property(c, "ignoreList"@, "bootstraplauncher,neon-fml"@),
                "fml.earlyprogresswindow"@,
                "false"@,
            ),
            "forge.earlywindow"@,
            "false"@,
        ),
        "neoforge.earlydisplay"@,
        "false"@,
    )
}

/// Adds the JVM options Forge and NeoForge need to start.
pub fn ensure_loader_jvm_workarounds(instance: &Instance, args: &mut Vec<String>)
    ensures
        string_views(final(args)@) == workarounds_of(*instance, string_views(old(args)@)),
{
    let forge_like = match instance.loader {
        LoaderType::Forge | LoaderType::NeoForge => true,
        _ => false,
    };
    if !forge_like {
        return;
    }
    if crate::version_parts::required_java_for_minecraft_version(instance.minecraft_version.as_str())
        >= 17 {
        ensure_modern_forge_jvm_args(args);
    }
    match instance.loader {
        LoaderType::NeoForge => {},
        _ => {
            return;
        },
    }
    ensure_jvm_arg_present(args, "--add-modules=jdk.naming.dns");
    ensure_jvm_arg_present(args, "--add-opens=java.base/java.util.jar=ALL-UNNAMED");
    set_jvm_system_property(args, "ignoreList", "bootstraplauncher,neon-fml");
    set_jvm_system_property(args, "fml.earlyprogresswindow", "false");
    set_jvm_system_property(args, "forge.earlywindow", "false");
    set_jvm_system_property(args, "neoforge.earlydisplay", "false");
}

/// The Java major version a launch needs: the one the version JSON named,
/// or else the one the Minecraft version calls for.
pub fn launch_java_major(instance: &Instance) -> (r: u32)
    ensures
        r == match instance.required_java_major {
            Some(m) => m,
            None => crate::version_parts::java_for_minecraft(instance.minecraft_version@),
        },
{
    match instance.required_java_major {
        Some(m) => m,
        None => crate::version_parts::required_java_for_minecraft_version(
            instance.minecraft_version.as_str(),
        ),
    }
}

/// The directories a launch passes to the game, as it passes them.
pub struct LaunchDirs {
    /// Where native libraries were extracted.
    pub natives: String,
    /// The instance's game directory.
    pub game_dir: String,
    /// The shared libraries directory.
    pub library_dir: String,
    /// The game directory's `assets` folder.
    pub assets_dir: String,
}

/// The options every launch starts with.
pub open spec fn base_jvm_args(instance: Instance, dirs: LaunchDirs) -> Seq<Seq<char>> {
    seq![
        "-Xmx"@ + crate::text::decimal(instance.max_memory_mb as nat) + "M"@,
        "-Xms512M"@,
        "-Djava.library.path="@ + dirs.natives@,
        "-DlibraryDirectory="@ + dirs.library_dir@,
        "-Dminecraft.launcher.brand=InterfaceOficial"@,
        "-Dminecraft.launcher.version=0.1.0"@,
    ]
}

/// The full argument list of a launch, after the Java binary.
pub open spec fn launch_args_of(
    instance: Instance,
    classpath: Seq<char>,
    dirs: LaunchDirs,
    os: crate::platform::HostOs,
) -> Seq<Seq<char>> {
    base_jvm_args(instance, dirs) + workarounds_of(
        instance,
        sanitized_from(
            string_views(instance.jvm_args@),
            0,
            Seq::empty(),
            jvm_patterns(),
            jvm_values(instance, dirs.natives@, dirs.game_dir@, dirs.library_dir@, classpath, os),
            true,
        ),
    ) + seq!["-cp"@, classpath, opt_or(instance.main_class, Seq::empty())] + fml_args_of(
        instance,
        window_args_from(
            sanitized_from(
                string_views(instance.game_args@),
                0,
                Seq::empty(),
                game_patterns(),
                game_values(instance, dirs.game_dir@, dirs.assets_dir@, instance.account),
                false,
            ),
            0,
        ),
    )
}

fn push_all(out: &mut Vec<String>, more: Vec<String>)
    ensures
        string_views(final(out)@) == string_views(old(out)@) + string_views(more@),
{
    let ghost start = string_views(out@);
    let mut i: usize = 0;
    while i < more.len()
        invariant
            i <= more.len(),
            string_views(out@) == start + string_views(more@).take(i as int),
        decreases more.len() - i,
    {
        let ghost before = string_views(out@);
        out.push(more[i].clone());
        assert(string_views(out@) =~= before.push(more@[i as int]@));
        assert(string_views(more@).take(i + 1) =~= string_views(more@).take(i as int).push(
            more@[i as int]@,
        ));
        i += 1;
    }
    assert(string_views(more@).take(more.len() as int) =~= string_views(more@));
}

/// The arguments the game is started with, after the Java binary. Without a
/// main class, or with a blank classpath, nothing is launched.
pub fn build_launch_args(
    instance: &Instance,
    classpath: &str,
    dirs: &LaunchDirs,
    os: crate::platform::HostOs,
) -> (r: Result<Vec<String>, crate::error::LauncherError>)
    ensures
        instance.main_class is None ==> r is Err && match r->Err_0 {
            crate::error::LauncherError::Other(m) => m@ == "Main class not set on instance"@,
            _ => false,
        },
        instance.main_class is Some && trim_spec(classpath@).len() == 0 ==> r is Err
            && match r->Err_0 {
            crate::error::LauncherError::Other(m) => m@
                == "Classpath vacío: se cancela el arranque para evitar 'java -cp' inválido"@,
            _ => false,
        },
        instance.main_class is Some && trim_spec(classpath@).len() != 0 ==> r is Ok
            && string_views(r->Ok_0@) == launch_args_of(*instance, classpath@, *dirs, os),
{
    let main_class = match &instance.main_class {
        Some(m) => m,
        None => {
            return Err(
                crate::error::LauncherError::Other(
                    String::from_str("Main class not set on instance"),
                ),
            );
        },
    };
    let mut args: Vec<String> = Vec::new();
    let mut xmx = String::from_str("-Xmx");
    xmx.append(crate::text::u64_to_decimal(instance.max_memory_mb as u64).as_str());
    xmx.append("M");
    args.push(xmx);
    args.push(String::from_str("-Xms512M"));
    let mut lib_path = String::from_str("-Djava.library.path=");
    lib_path.append(dirs.natives.as_str());
    args.push(lib_path);
    let mut lib_dir = String::from_str("-DlibraryDirectory=");
    lib_dir.append(dirs.library_dir.as_str());
    args.push(lib_dir);
    args.push(String::from_str("-Dminecraft.launcher.brand=InterfaceOficial"));
    args.push(String::from_str("-Dminecraft.launcher.version=0.1.0"));
    assert(string_views(args@) =~= base_jvm_args(*instance, *dirs));
    let mut jvm = sanitize_jvm_args(
        instance,
        &instance.jvm_args,
        dirs.natives.as_str(),
        dirs.game_dir.as_str(),
        dirs.library_dir.as_str(),
        classpath,
        os,
    );
    ensure_loader_jvm_workarounds(instance, &mut jvm);
    push_all(&mut args, jvm);
    if str_is_blank(classpath) {
        return Err(
            crate::error::LauncherError::Other(
                String::from_str(
                    "Classpath vacío: se cancela el arranque para evitar 'java -cp' inválido",
                ),
            ),
        );
    }
    let ghost before = string_views(args@);
    args.push(String::from_str("-cp"));
    args.push(String::from_str(classpath));
    args.push(main_class.clone());
    assert(string_views(args@) =~= before + seq!["-cp"@, classpath@, main_class@]);
    let game = sanitize_game_args(
        instance,
        &instance.game_args,
        dirs.game_dir.as_str(),
        dirs.assets_dir.as_str(),
        &instance.account,
    );
    push_all(&mut args, game);
    Ok(args)
}

/// The variable through which the host finds native libraries.
pub open spec fn native_library_var_of(os: crate::platform::HostOs) -> Seq<char> {
    match os {
        crate::platform::HostOs::Windows => "PATH"@,
        crate::platform::HostOs::Linux => "LD_LIBRARY_PATH"@,
        crate::platform::HostOs::MacOs => "DYLD_LIBRARY_PATH"@,
    }
}

/// `PATH` on Windows, `LD_LIBRARY_PATH` on Linux, `DYLD_LIBRARY_PATH` on macOS.
pub fn native_library_var(os: crate::platform::HostOs) -> (r: &'static str)
    ensures
        r@ == native_library_var_of(os),
{
    match os {
        crate::platform::HostOs::Windows => "PATH",
        crate::platform::HostOs::Linux => "LD_LIBRARY_PATH",
        crate::platform::HostOs::MacOs => "DYLD_LIBRARY_PATH",
    }
}

/// `value`, followed by the variable's current value (if it has a non-blank one)
/// after the host's list separator.
pub open spec fn env_path_of(existing: Option<Seq<char>>, value: Seq<char>, os: crate::platform::HostOs) -> Seq<char> {
    match existing {
        Some(e) => if trim_spec(e).len() != 0 {
            value + crate::platform::classpath_separator(os) + e
        } else {
            value
        },
        None => value,
    }
}

/// Puts `value` in front of a path-list variable's current value.
pub fn append_env_path(existing: Option<&str>, value: &str, os: crate::platform::HostOs) -> (r: String)
    ensures
        r@ == env_path_of(
            match existing {
                Some(e) => Some(e@),
                None => None,
            },
            value@,
            os,
        ),
{
    match existing {
        Some(e) => {
            if !str_is_blank(e) {
                let mut r = String::from_str(value);
                r.append(crate::platform::get_classpath_separator(os));
                r.append(e);
                r
            } else {
                String::from_str(value)
            }
        },
        None => String::from_str(value),
    }
}

/// Characters that need no quoting in a logged command.
pub open spec fn is_shell_plain(c: char) -> bool {
    is_ascii_alnum(c) || c == '-' || c == '_' || c == '.' || c == '/' || c == ':' || c == '\\'
        || c == '='
}

fn shell_plain(c: char) -> (b: bool)
    ensures
        b == is_shell_plain(c),
{
    ('0' <= c && c <= '9') || ('a' <= c && c <= 'z') || ('A' <= c && c <= 'Z') || c == '-' || c
        == '_' || c == '.' || c == '/' || c == ':' || c == '\\' || c == '='
}

/// An argument as a shell would need it: `""` for an empty one, unchanged
/// when every character is plain, else in double quotes with `"` escaped.
pub open spec fn shell_escaped(raw: Seq<char>) -> Seq<char> {
    if raw.len() == 0 {
        "\"\""@
    } else if forall|i: int| 0 <= i < raw.len() ==> is_shell_plain(#[trigger] raw[i]) {
        raw
    } else {
        "\""@ + spec_replace_all(raw, "\""@, "\\\""@) + "\""@
    }
}

/// Quotes an argument for a copy-and-paste command line in the logs.
pub fn shell_escape(raw: &str) -> (r: String)
    ensures
        r@ == shell_escaped(raw@),
{
    let v = chars_of(raw);
    if v.len() == 0 {
        return String::from_str("\"\"");
    }
    let mut i: usize = 0;
    while i < v.len() && shell_plain(v[i])
        invariant
            i <= v.len(),
            v@ == raw@,
            forall|j: int| 0 <= j < i ==> is_shell_plain(#[trigger] v@[j]),
        decreases v.len() - i,
    {
        i += 1;
    }
    if i == v.len() {
        return String::from_str(raw);
    }
    proof {
        reveal_strlit("\"");
        assert(!is_shell_plain(raw@[i as int]));
    }
    let mut r = String::from_str("\"");
    r.append(crate::text::str_replace(raw, "\"", "\\\"").as_str());
    r.append("\"");
    r
}

/// The program and its arguments, each quoted as needed, separated by spaces.
pub open spec fn command_line_of(program: Seq<char>, args: Seq<Seq<char>>) -> Seq<char> {
    if args.len() == 0 {
        shell_escaped(program)
    } else {
        shell_escaped(program) + " "@ + crate::text::join_spec(args.map_values(|a: Seq<char>| shell_escaped(a)), " "@)
    }
}

/// A command line for the logs that can be pasted into a shell.
pub fn format_command_for_logs(program: &str, args: &Vec<String>) -> (r: String)
    ensures
        r@ == command_line_of(program@, string_views(args@)),
{
    let p = shell_escape(program);
    if args.len() == 0 {
        return p;
    }
    let mut escaped: Vec<String> = Vec::new();
    let mut i: usize = 0;
    while i < args.len()
        invariant
            i <= args.len(),
            escaped@.len() == i,
            forall|j: int| 0 <= j < i ==> #[trigger] escaped@[j]@ == shell_escaped(args@[j]@),
        decreases args.len() - i,
    {
        escaped.push(shell_escape(args[i].as_str()));
        i += 1;
    }
    assert(string_views(escaped@) =~= string_views(args@).map_values(|a: Seq<char>| shell_escaped(a)));
    let joined = crate::text::join_strings(&escaped, " ");
    let mut r = p;
    r.append(" ");
    r.append(joined.as_str());
    r
}

/// On Windows the `\\?\` prefix of a canonical path is dropped: Java's
/// classpath handling fails on extended-length paths.
pub open spec fn launch_path_text_of(text: Seq<char>, os: crate::platform::HostOs) -> Seq<char> {
    if os == crate::platform::HostOs::Windows && seq_starts_with(text, "\\\\?\\"@) {
        text.skip(4)
    } else {
        text
    }
}

/// A canonical path as launch arguments carry it.
pub fn launch_path_text(text: &str, os: crate::platform::HostOs) -> (r: String)
    ensures
        r@ == launch_path_text_of(text@, os),
{
    if os == crate::platform::HostOs::Windows && str_starts_with(text, "\\\\?\\") {
        proof {
            reveal_strlit("\\\\?\\");
        }
        let v = chars_of(text);
        let rest = crate::text::copy_range(&v, 4, v.len());
        assert(rest@ =~= text@.skip(4));
        string_from_chars(rest.as_slice())
    } else {
        String::from_str(text)
    }
}

/// Replacing a pattern that does not occur leaves the text as it is.
proof fn lemma_replace_absent(s: Seq<char>, p: Seq<char>, v: Seq<char>)
    requires
        !seq_contains(s, p),
    ensures
        spec_replace_all(s, p, v) == s,
    decreases s.len(),
{
    if s.len() > 0 {
        assert(!crate::text::occurs_at(s, 0, p));
        let t = s.skip(1);
        assert forall|i: int| !crate::text::occurs_at(t, i, p) by {
            if crate::text::occurs_at(t, i, p) {
                assert(s.subrange(i + 1, i + 1 + p.len()) =~= t.subrange(i, i + p.len()));
                assert(crate::text::occurs_at(s, i + 1, p));
            }
        }
        lemma_replace_absent(t, p, v);
        assert(seq![s[0]] + t =~= s);
    }
}

/// Replacing a whole (non-empty) text by a value gives the value.
proof fn lemma_replace_whole(s: Seq<char>, v: Seq<char>)
    requires
        s.len() > 0,
    ensures
        spec_replace_all(s, s, v) == v,
{
    assert(s.subrange(0, s.len() as int) =~= s);
    assert(seq_starts_with(s, s));
    assert(s.skip(s.len() as int) =~= Seq::<char>::empty());
    assert(spec_replace_all(Seq::<char>::empty(), s, v) == Seq::<char>::empty());
    assert(spec_replace_all(s, s, v) == v + spec_replace_all(s.skip(s.len() as int), s, v));
    assert(v + Seq::<char>::empty() =~= v);
}

/// Resolving patterns none of which occurs leaves the text as it is.
proof fn lemma_resolve_absent(s: Seq<char>, pats: Seq<Seq<char>>, vals: Seq<Seq<char>>)
    requires
        forall|k: int| 0 <= k < pats.len() ==> !seq_contains(s, #[trigger] pats[k]),
    ensures
        resolve_all(s, pats, vals) == s,
    decreases pats.len(),
{
    if pats.len() > 0 {
        lemma_resolve_absent(s, pats.drop_last(), vals.drop_last());
        assert(!seq_contains(s, pats[pats.len() - 1]));
        lemma_replace_absent(s, pats.last(), vals.last());
    }
}

/// Resolving a list of patterns is resolving its first `k`, then the rest.
proof fn lemma_resolve_split(s: Seq<char>, pats: Seq<Seq<char>>, vals: Seq<Seq<char>>, k: int)
    requires
        0 <= k <= pats.len(),
        vals.len() == pats.len(),
    ensures
        resolve_all(s, pats, vals) == resolve_all(
            resolve_all(s, pats.take(k), vals.take(k)),
            pats.skip(k),
            vals.skip(k),
        ),
    decreases pats.len(),
{
    if k == pats.len() {
        assert(pats.take(k) =~= pats);
        assert(vals.take(k) =~= vals);
        assert(pats.skip(k) =~= Seq::<Seq<char>>::empty());
    } else {
        let dp = pats.drop_last();
        let dv = vals.drop_last();
        lemma_resolve_split(s, dp, dv, k);
        assert(dp.take(k) =~= pats.take(k));
        assert(dv.take(k) =~= vals.take(k));
        assert(pats.skip(k).drop_last() =~= dp.skip(k));
        assert(vals.skip(k).drop_last() =~= dv.skip(k));
        assert(pats.skip(k).last() == pats.last());
        assert(vals.skip(k).last() == vals.last());
    }
}

/// A pattern that starts with `${` occurs only where `${` does.
proof fn lemma_placeholder_needs_marker(v: Seq<char>, p: Seq<char>)
    requires
        p.len() >= 2,
        p[0] == '$',
        p[1] == '{',
        !seq_contains(v, "${"@),
    ensures
        !seq_contains(v, p),
{
    reveal_strlit("${");
    if seq_contains(v, p) {
        let i = choose|i: int| crate::text::occurs_at(v, i, p);
        assert(v.subrange(i, i + 2) =~= "${"@) by {
            assert(v.subrange(i, i + p.len())[0] == p[0]);
            assert(v.subrange(i, i + p.len())[1] == p[1]);
        }
        assert(crate::text::occurs_at(v, i, "${"@));
    }
}

/// In the game arguments, `${assets_root}` stands for the assets directory:
/// an argument that is just that placeholder resolves to exactly the assets
/// directory given (one holding no `${` of its own), whatever the instance,
/// the game directory and the account.
pub proof fn assets_root_resolves_to_assets_dir(
    instance: Instance,
    game_dir: Seq<char>,
    assets_dir: Seq<char>,
    account: crate::auth::LaunchAccountProfile,
)
    requires
        !seq_contains(assets_dir, "${"@),
    ensures
        resolve_all(
            "${assets_root}"@,
            game_patterns(),
            game_values(instance, game_dir, assets_dir, account),
        ) == assets_dir,
{
    reveal_strlit("${assets_root}");
    assert(game_patterns()[5] == "${assets_root}"@);
    assert(game_values(instance, game_dir, assets_dir, account)[5] == assets_dir);
    game_placeholder_resolves_to_its_value(instance, game_dir, assets_dir, account, 5);
}

/// `p` reads `${...}`: `$` only at its start, `}` only at its end.
pub open spec fn is_placeholder_text(p: Seq<char>) -> bool {
    &&& p.len() >= 3
    &&& p[0] == '$'
    &&& p[1] == '{'
    &&& p[p.len() - 1] == '}'
    &&& forall|i: int| 1 <= i < p.len() ==> #[trigger] p[i] != '$'
    &&& forall|i: int| 0 <= i < p.len() - 1 ==> #[trigger] p[i] != '}'
}

/// One `${...}` text occurs inside another only when they are the same.
proof fn lemma_placeholder_in_placeholder(s: Seq<char>, p: Seq<char>)
    requires
        is_placeholder_text(s),
        is_placeholder_text(p),
        s != p,
    ensures
        !seq_contains(s, p),
{
    if seq_contains(s, p) {
        let i = choose|i: int| crate::text::occurs_at(s, i, p);
        let sub = s.subrange(i, i + p.len());
        assert(sub[0] == p[0]);
        assert(s[i] == '$');
        assert(i == 0);
        assert(sub[p.len() - 1] == p[p.len() - 1]);
        assert(s[p.len() - 1] == '}');
        assert(p.len() == s.len());
        assert(s =~= sub);
    }
}

proof fn lemma_game_patterns_are_placeholders()
    ensures
        forall|k: int| 0 <= k < game_patterns().len() ==> is_placeholder_text(#[trigger] game_patterns()[k]),
        forall|j: int, k: int|
            0 <= j < k < game_patterns().len() ==> #[trigger] game_patterns()[j] != #[trigger] game_patterns()[k],
{
    reveal_strlit("${auth_player_name}");
    reveal_strlit("${version_name}");
    reveal_strlit("${version}");
    reveal_strlit("${mc_version}");
    reveal_strlit("${game_directory}");
    reveal_strlit("${assets_root}");
    reveal_strlit("${assets_index_name}");
    reveal_strlit("${auth_uuid}");
    reveal_strlit("${auth_access_token}");
    reveal_strlit("${auth_xuid}");
    reveal_strlit("${clientid}");
    reveal_strlit("${user_properties}");
    reveal_strlit("${user_type}");
    reveal_strlit("${version_type}");
    let ps = game_patterns();
    assert forall|k: int| 0 <= k < ps.len() implies is_placeholder_text(#[trigger] ps[k]) by {
        let p = ps[k];
        assert forall|i: int| 1 <= i < p.len() implies #[trigger] p[i] != '$' by {}
        assert forall|i: int| 0 <= i < p.len() - 1 implies #[trigger] p[i] != '}' by {}
    }
    assert forall|j: int, k: int| 0 <= j < k < ps.len() implies #[trigger] ps[j] != #[trigger] ps[k] by {
        if ps[j].len() == ps[k].len() {
            assert(ps[j][2] != ps[k][2] || ps[j][3] != ps[k][3] || ps[j][7] != ps[k][7] || ps[j][10] != ps[k][10]);
        }
    }
}

/// Every game placeholder stands for its own value: an argument that is just
/// the `k`-th placeholder resolves to exactly the `k`-th value (one holding
/// no `${` of its own), whatever the instance, directories and account.
pub proof fn game_placeholder_resolves_to_its_value(
    instance: Instance,
    game_dir: Seq<char>,
    assets_dir: Seq<char>,
    account: crate::auth::LaunchAccountProfile,
    k: int,
)
    requires
        0 <= k < game_patterns().len(),
        !seq_contains(game_values(instance, game_dir, assets_dir, account)[k], "${"@),
    ensures
        resolve_all(
            game_patterns()[k],
            game_patterns(),
            game_values(instance, game_dir, assets_dir, account),
        ) == game_values(instance, game_dir, assets_dir, account)[k],
{
    let pats = game_patterns();
    let vals = game_values(instance, game_dir, assets_dir, account);
    let s = pats[k];
    let v = vals[k];
    lemma_game_patterns_are_placeholders();
    assert forall|j: int| 0 <= j < pats.take(k).len() implies !seq_contains(s, #[trigger] pats.take(k)[j]) by {
        assert(pats.take(k)[j] == pats[j]);
        lemma_placeholder_in_placeholder(s, pats[j]);
    }
    lemma_resolve_absent(s, pats.take(k), vals.take(k));
    lemma_resolve_split(s, pats, vals, k + 1);
    assert(pats.take(k + 1).drop_last() =~= pats.take(k));
    assert(vals.take(k + 1).drop_last() =~= vals.take(k));
    assert(pats.take(k + 1).last() == s);
    assert(vals.take(k + 1).last() == v);
    lemma_replace_whole(s, v);
    assert forall|j: int| 0 <= j < pats.skip(k + 1).len() implies !seq_contains(
        v,
        #[trigger] pats.skip(k + 1)[j],
    ) by {
        assert(pats.skip(k + 1)[j] == pats[j + k + 1]);
        lemma_placeholder_needs_marker(v, pats[j + k + 1]);
    }
    lemma_resolve_absent(v, pats.skip(k + 1), vals.skip(k + 1));
}

} // verus!
