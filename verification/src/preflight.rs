//! Checks before a launch, the repairs they lead to, and the hints drawn
//! from the game's error output.
use vstd::prelude::*;

use crate::error::LauncherError;
use crate::model::{Instance, InstanceState, LauncherSettings, LoaderType};
use crate::text::{
    chars_of, copy_range, find_char_in, first_index_of, matches_at, occurs_at, seq_contains,
    str_contains, string_from_chars, string_views,
};

verus! {

/// Known failure patterns in the game's error output.
#[derive(Debug, Clone, Copy, PartialEq, Eq, Structural)]
pub enum LaunchDiagnostic {
    NeoForgeEarlyDisplayRendererFuture,
    NeoForgeEarlyDisplayStillEnabled,
    CorruptedLibraryArchive,
    LoaderAsmTooOldForJava21,
}

pub open spec fn diagnostic_of(line: Seq<char>) -> Option<LaunchDiagnostic> {
    if seq_contains(line, "rendererFuture"@) || seq_contains(
        line,
        "DisplayWindow.takeOverGlfwWindow"@,
    ) {
        Some(LaunchDiagnostic::NeoForgeEarlyDisplayRendererFuture)
    } else if seq_contains(line, "Loading ImmediateWindowProvider fmlearlywindow"@) {
        Some(LaunchDiagnostic::NeoForgeEarlyDisplayStillEnabled)
    } else if seq_contains(line, "ZipException: zip END header not found"@) {
        Some(LaunchDiagnostic::CorruptedLibraryArchive)
    } else if seq_contains(line, "Unsupported class file major version 65"@) || seq_contains(
        line,
        "org.objectweb.asm.ClassReader"@,
    ) {
        Some(LaunchDiagnostic::LoaderAsmTooOldForJava21)
    } else {
        None
    }
}

/// Recognises a known failure in a line of the game's error output.
pub fn detect_launch_diagnostic(line: &str) -> (r: Option<LaunchDiagnostic>)
    ensures
        r == diagnostic_of(line@),
{
    if str_contains(line, "rendererFuture") || str_contains(
        line,
        "DisplayWindow.takeOverGlfwWindow",
    ) {
        Some(LaunchDiagnostic::NeoForgeEarlyDisplayRendererFuture)
    } else if str_contains(line, "Loading ImmediateWindowProvider fmlearlywindow") {
        Some(LaunchDiagnostic::NeoForgeEarlyDisplayStillEnabled)
    } else if str_contains(line, "ZipException: zip END header not found") {
        Some(LaunchDiagnostic::CorruptedLibraryArchive)
    } else if str_contains(line, "Unsupported class file major version 65") || str_contains(
        line,
        "org.objectweb.asm.ClassReader",
    ) {
        Some(LaunchDiagnostic::LoaderAsmTooOldForJava21)
    } else {
        None
    }
}

pub open spec fn diagnostic_text(d: LaunchDiagnostic) -> Seq<char> {
    match d {
        LaunchDiagnostic::NeoForgeEarlyDisplayRendererFuture => "[DIAGNÓSTICO] NeoForge falló en early display (rendererFuture nulo). Usa JVM args (antes de -cp): -Dfml.earlyprogresswindow=false. Si el log muestra 'Loading ImmediateWindowProvider fmlearlywindow', el flag no está entrando."@,
        LaunchDiagnostic::NeoForgeEarlyDisplayStillEnabled => "[DIAGNÓSTICO] El early window sigue activo ('Loading ImmediateWindowProvider fmlearlywindow'). Revisa que el JVM arg sea exactamente -Dfml.earlyprogresswindow=false y que se inyecte antes de -cp."@,
        LaunchDiagnostic::CorruptedLibraryArchive => "[DIAGNÓSTICO] Se detectó una librería dañada (zip END header not found). Cierra la instancia, borra la ruta `libraries/net/neoforged/neoform/...` indicada en el log y reinicia para forzar una descarga limpia."@,
        LaunchDiagnostic::LoaderAsmTooOldForJava21 => "[DIAGNÓSTICO] El loader usa ASM antiguo y no soporta bytecode Java 21 (major 65). Actualiza Forge/NeoForge de esta línea de Minecraft a una build más reciente (ASM 9.7+)."@,
    }
}

/// The advice shown for a recognised failure.
pub fn diagnostic_message(diagnostic: LaunchDiagnostic) -> (r: &'static str)
    ensures
        r@ == diagnostic_text(diagnostic),
{
    match diagnostic {
        LaunchDiagnostic::NeoForgeEarlyDisplayRendererFuture => "[DIAGNÓSTICO] NeoForge falló en early display (rendererFuture nulo). Usa JVM args (antes de -cp): -Dfml.earlyprogresswindow=false. Si el log muestra 'Loading ImmediateWindowProvider fmlearlywindow', el flag no está entrando.",
        LaunchDiagnostic::NeoForgeEarlyDisplayStillEnabled => "[DIAGNÓSTICO] El early window sigue activo ('Loading ImmediateWindowProvider fmlearlywindow'). Revisa que el JVM arg sea exactamente -Dfml.earlyprogresswindow=false y que se inyecte antes de -cp.",
        LaunchDiagnostic::CorruptedLibraryArchive => "[DIAGNÓSTICO] Se detectó una librería dañada (zip END header not found). Cierra la instancia, borra la ruta `libraries/net/neoforged/neoform/...` indicada en el log y reinicia para forzar una descarga limpia.",
        LaunchDiagnostic::LoaderAsmTooOldForJava21 => "[DIAGNÓSTICO] El loader usa ASM antiguo y no soporta bytecode Java 21 (major 65). Actualiza Forge/NeoForge de esta línea de Minecraft a una build más reciente (ASM 9.7+).",
    }
}

/// Which hints were shown already while reading one run's error output;
/// the two NeoForge early-display failures share one hint.
#[derive(Debug, Clone, Copy)]
pub struct DiagnosticHints {
    pub neoforge_hint_emitted: bool,
    pub corrupted_zip_hint_emitted: bool,
    pub asm_hint_emitted: bool,
}

impl DiagnosticHints {
    pub fn new() -> (r: DiagnosticHints)
        ensures
            !r.neoforge_hint_emitted && !r.corrupted_zip_hint_emitted && !r.asm_hint_emitted,
    {
        DiagnosticHints {
            neoforge_hint_emitted: false,
            corrupted_zip_hint_emitted: false,
            asm_hint_emitted: false,
        }
    }

    /// The hint to show for a line of error output, shown once per kind of failure.
    pub fn observe(&mut self, line: &str) -> (r: Option<&'static str>)
        ensures
            match diagnostic_of(line@) {
                None => r is None && *final(self) == *old(self),
                Some(d) => {
                    let seen = match d {
                        LaunchDiagnostic::NeoForgeEarlyDisplayRendererFuture
                        | LaunchDiagnostic::NeoForgeEarlyDisplayStillEnabled => old(
                            self,
                        ).neoforge_hint_emitted,
                        LaunchDiagnostic::CorruptedLibraryArchive => old(
                            self,
                        ).corrupted_zip_hint_emitted,
                        LaunchDiagnostic::LoaderAsmTooOldForJava21 => old(self).asm_hint_emitted,
                    };
                    &&& seen ==> r is None
                    &&& !seen ==> r is Some && r->0@ == diagnostic_text(d)
                    &&& final(self).neoforge_hint_emitted == (old(self).neoforge_hint_emitted || (
                    d == LaunchDiagnostic::NeoForgeEarlyDisplayRendererFuture || d
                        == LaunchDiagnostic::NeoForgeEarlyDisplayStillEnabled))
                    &&& final(self).corrupted_zip_hint_emitted == (
                    old(self).corrupted_zip_hint_emitted || d
                        == LaunchDiagnostic::CorruptedLibraryArchive)
                    &&& final(self).asm_hint_emitted == (old(self).asm_hint_emitted || d
                        == LaunchDiagnostic::LoaderAsmTooOldForJava21)
                },
            },
    {
        let d = match detect_launch_diagnostic(line) {
            Some(d) => d,
            None => return None,
        };
        let should_emit = match d {
            LaunchDiagnostic::NeoForgeEarlyDisplayRendererFuture
            | LaunchDiagnostic::NeoForgeEarlyDisplayStillEnabled => {
                if self.neoforge_hint_emitted {
                    false
                } else {
                    self.neoforge_hint_emitted = true;
                    true
                }
            },
            LaunchDiagnostic::CorruptedLibraryArchive => {
                if self.corrupted_zip_hint_emitted {
                    false
                } else {
                    self.corrupted_zip_hint_emitted = true;
                    true
                }
            },
            LaunchDiagnostic::LoaderAsmTooOldForJava21 => {
                if self.asm_hint_emitted {
                    false
                } else {
                    self.asm_hint_emitted = true;
                    true
                }
            },
        };
        if should_emit {
            Some(diagnostic_message(d))
        } else {
            None
        }
    }
}

/// The versions of the `org.ow2.asm` libraries among the coordinates, in order.
pub open spec fn asm_versions_of(coords: Seq<Seq<char>>) -> Seq<Seq<char>>
    decreases coords.len(),
{
    if coords.len() == 0 {
        Seq::empty()
    } else {
        let rest = asm_versions_of(coords.drop_last());
        match crate::maven::parse_coordinate(coords.last()) {
            Some(a) => if a.group_id == "org.ow2.asm"@ {
                rest.push(a.version)
            } else {
                rest
            },
            None => rest,
        }
    }
}

/// The loader's name as `{:?}` writes it.
pub open spec fn loader_debug_name(l: LoaderType) -> Seq<char> {
    match l {
        LoaderType::Vanilla => "Vanilla"@,
        LoaderType::Forge => "Forge"@,
        LoaderType::Fabric => "Fabric"@,
        LoaderType::NeoForge => "NeoForge"@,
        LoaderType::Quilt => "Quilt"@,
    }
}

fn loader_debug(l: LoaderType) -> (r: &'static str)
    ensures
        r@ == loader_debug_name(l),
{
    match l {
        LoaderType::Vanilla => "Vanilla",
        LoaderType::Forge => "Forge",
        LoaderType::Fabric => "Fabric",
        LoaderType::NeoForge => "NeoForge",
        LoaderType::Quilt => "Quilt",
    }
}

pub open spec fn asm_issue_message(instance: Instance, versions: Seq<Seq<char>>) -> Seq<char> {
    "El loader seleccionado requiere Java de herramientas diferente al de ejecución. Loader incompatible con Java 21 detectado: ASM antiguo en librerías ["@
        + crate::text::join_spec(versions, ", "@) + "]. Actualiza la versión de "@
        + loader_debug_name(instance.loader) + " para "@ + instance.minecraft_version@ + "."@
}

/// Forge and NeoForge running on Java 21 with an ASM library older than 9.7
/// cannot read Java 21 classes: the problem, if there is one.
pub open spec fn asm_issue_of(instance: Instance, required_java_major: u32) -> Option<Seq<char>> {
    let versions = asm_versions_of(string_views(instance.libraries@));
    if required_java_major < 21 {
        None
    } else if !(instance.loader == LoaderType::Forge || instance.loader == LoaderType::NeoForge) {
        None
    } else if !(exists|i: int|
        0 <= i < versions.len() && !crate::version_parts::asm_supports_java_21(
            #[trigger] versions[i],
        )) {
        None
    } else {
        Some(asm_issue_message(instance, versions))
    }
}

/// Describes an ASM too old for Java 21 among the instance's libraries.
pub fn detect_loader_asm_incompatibility(instance: &Instance, required_java_major: u32) -> (r: Option<String>)
    ensures
        match r {
            Some(m) => asm_issue_of(*instance, required_java_major) == Some(m@),
            None => asm_issue_of(*instance, required_java_major) is None,
        },
{
    if required_java_major < 21 {
        return None;
    }
    match instance.loader {
        LoaderType::Forge | LoaderType::NeoForge => {},
        _ => return None,
    }
    let ghost cv = string_views(instance.libraries@);
    let mut versions: Vec<String> = Vec::new();
    let mut i: usize = 0;
    while i < instance.libraries.len()
        invariant
            i <= instance.libraries.len(),
            cv == string_views(instance.libraries@),
            string_views(versions@) == asm_versions_of(cv.take(i as int)),
        decreases instance.libraries.len() - i,
    {
        assert(cv.take(i + 1).drop_last() =~= cv.take(i as int));
        match crate::maven::MavenArtifact::parse(instance.libraries[i].as_str()) {
            Ok(a) => {
                if crate::text::str_eq(a.group_id.as_str(), "org.ow2.asm") {
                    let ghost before = string_views(versions@);
                    versions.push(a.version);
                    assert(string_views(versions@) =~= before.push(a.version@));
                }
            },
            Err(_) => {},
        }
        i += 1;
    }
    assert(cv.take(instance.libraries.len() as int) =~= cv);
    let ghost vv = string_views(versions@);
    let mut old_found = false;
    let mut k: usize = 0;
    while k < versions.len()
        invariant
            k <= versions.len(),
            vv == string_views(versions@),
            old_found == exists|m: int|
                0 <= m < k && !crate::version_parts::asm_supports_java_21(#[trigger] vv[m]),
        decreases versions.len() - k,
    {
        let ok = crate::version_parts::asm_version_supports_java_21(versions[k].as_str());
        proof {
            if !ok {
                assert(!crate::version_parts::asm_supports_java_21(vv[k as int]));
            }
            if old_found || !ok {
                assert(exists|m: int|
                    0 <= m < k + 1 && !crate::version_parts::asm_supports_java_21(
                        #[trigger] vv[m],
                    ));
            } else {
                assert forall|m: int| 0 <= m < k + 1 implies crate::version_parts::asm_supports_java_21(
                    #[trigger] vv[m],
                ) by {}
            }
        }
        old_found = old_found || !ok;
        k += 1;
    }
    if !old_found {
        return None;
    }
    let joined = crate::text::join_strings(&versions, ", ");
    let mut m = String::from_str(
        "El loader seleccionado requiere Java de herramientas diferente al de ejecución. Loader incompatible con Java 21 detectado: ASM antiguo en librerías [",
    );
    m.append(joined.as_str());
    m.append("]. Actualiza la versión de ");
    m.append(loader_debug(instance.loader));
    m.append(" para ");
    m.append(instance.minecraft_version.as_str());
    m.append(".");
    Some(m)
}

/// The first position from `i` on where `p` occurs in `s`, or -1.
pub open spec fn find_from(s: Seq<char>, p: Seq<char>, i: int) -> int
    decreases s.len() + 1 - i,
{
    if i < 0 || i > s.len() || i + p.len() > s.len() {
        -1
    } else if occurs_at(s, i, p) {
        i
    } else {
        find_from(s, p, i + 1)
    }
}

pub proof fn lemma_find_from(s: Seq<char>, p: Seq<char>, i: int)
    requires
        0 <= i,
    ensures
        find_from(s, p, i) == -1 || (i <= find_from(s, p, i) && find_from(s, p, i) + p.len()
            <= s.len()),
    decreases s.len() + 1 - i,
{
    if i <= s.len() && i + p.len() <= s.len() && !occurs_at(s, i, p) {
        lemma_find_from(s, p, i + 1);
    }
}

/// The `${name}` tokens of a text, in order; an opening without a closing
/// `}` ends the search.
pub open spec fn placeholders_of(s: Seq<char>) -> Seq<Seq<char>>
    decreases s.len(),
{
    let start = find_from(s, "${"@, 0);
    if start < 0 {
        Seq::empty()
    } else {
        let after = s.skip(start + 2);
        let end = first_index_of(after, '}');
        if end < 0 || end >= after.len() {
            Seq::empty()
        } else {
            proof {
                reveal_strlit("${");
                lemma_find_from(s, "${"@, 0);
            }
            seq!["${"@ + after.take(end) + "}"@] + placeholders_of(after.skip(end + 1))
        }
    }
}

/// The `${name}` placeholders in an argument, in order.
pub fn collect_placeholders(arg: &str) -> (r: Vec<String>)
    ensures
        string_views(r@) == placeholders_of(arg@),
{
    let v = chars_of(arg);
    let open = chars_of("${");
    proof {
        reveal_strlit("${");
    }
    let mut out: Vec<String> = Vec::new();
    let mut pos: usize = 0;
    assert(v@.skip(0) =~= v@);
    while pos <= v.len()
        invariant
            pos <= v.len() + 1,
            v@ == arg@,
            open@ == "${"@,
            open@.len() == 2,
            pos <= v.len() ==> placeholders_of(arg@) == string_views(out@) + placeholders_of(
                v@.skip(pos as int),
            ),
            pos > v.len() ==> placeholders_of(arg@) == string_views(out@),
        decreases v.len() + 1 - pos,
    {
        let ghost rest = v@.skip(pos as int);
        let mut st: usize = pos;
        while st < v.len() && v.len() - st >= 2 && !matches_at(&v, st, &open)
            invariant
                pos <= st,
                st <= v.len(),
                open@ == "${"@,
                open@.len() == 2,
                rest == v@.skip(pos as int),
                find_from(rest, "${"@, 0) == find_from(rest, "${"@, st - pos),
            decreases v.len() - st,
        {
            assert(occurs_at(rest, st - pos, "${"@) == occurs_at(v@, st as int, open@)) by {
                if st + 2 <= v.len() {
                    assert(rest.subrange(st - pos, st - pos + 2) =~= v@.subrange(st as int, st + 2));
                }
            }
            st += 1;
        }
        if st >= v.len() || v.len() - st < 2 {
            assert(find_from(rest, "${"@, st - pos) == -1);
            return out;
        }
        assert(occurs_at(rest, st - pos, "${"@)) by {
            assert(rest.subrange(st - pos, st - pos + 2) =~= v@.subrange(st as int, st + 2));
        }
        let ghost after = rest.skip(st - pos + 2);
        assert(after =~= v@.skip(st + 2));
        let e = find_char_in(&v, '}', st + 2, v.len());
        assert(v@.subrange(st + 2, v.len() as int) =~= after);
        if e == v.len() {
            return out;
        }
        let name = copy_range(&v, st + 2, e);
        let mut token = String::from_str("${");
        token.append(string_from_chars(name.as_slice()).as_str());
        token.append("}");
        assert(name@ =~= after.take(e - (st + 2)));
        let ghost before = string_views(out@);
        out.push(token);
        assert(string_views(out@) =~= before.push("${"@ + after.take(e - (st + 2)) + "}"@));
        assert(after.skip(e - (st + 2) + 1) =~= v@.skip(e + 1));
        pos = e + 1;
    }
    out
}

/// The placeholders a launch fills in among JVM arguments.
pub open spec fn known_jvm_placeholders() -> Seq<Seq<char>> {
    crate::launch_args::jvm_patterns()
}

/// The placeholders a launch fills in (or knows of) among game arguments.
pub open spec fn known_game_placeholders() -> Seq<Seq<char>> {
    crate::launch_args::game_patterns() + seq![
        "${quickPlayMultiplayer}"@,
        "${quickPlaySingleplayer}"@,
        "${quickPlayRealms}"@,
        "${quickPlayPath}"@,
        "${resolution_width}"@,
        "${resolution_height}"@,
    ]
}

/// Every placeholder of `args` that is not among `known`.
pub open spec fn is_unresolved(args: Seq<Seq<char>>, known: Seq<Seq<char>>, x: Seq<char>) -> bool {
    (exists|i: int| 0 <= i < args.len() && placeholders_of(#[trigger] args[i]).contains(x))
        && !known.contains(x)
}

/// The placeholders of `args` outside `known`, each once, sorted.
pub fn unresolved_placeholders(args: &Vec<String>, known: &Vec<String>) -> (r: Vec<String>)
    ensures
        crate::sorting::strictly_ascending(string_views(r@), crate::sorting::Rank::Text),
        forall|x: Seq<char>|
            string_views(r@).contains(x) <==> is_unresolved(
                string_views(args@),
                string_views(known@),
                x,
            ),
{
    let ghost av = string_views(args@);
    let ghost kv = string_views(known@);
    let mut found: Vec<String> = Vec::new();
    let mut i: usize = 0;
    while i < args.len()
        invariant
            i <= args.len(),
            av == string_views(args@),
            kv == string_views(known@),
            forall|x: Seq<char>|
                string_views(found@).contains(x) <==> is_unresolved(av.take(i as int), kv, x),
        decreases args.len() - i,
    {
        let tokens = collect_placeholders(args[i].as_str());
        let ghost start = string_views(found@);
        let mut k: usize = 0;
        while k < tokens.len()
            invariant
                k <= tokens.len(),
                kv == string_views(known@),
                string_views(tokens@) == placeholders_of(av[i as int]),
                forall|x: Seq<char>|
                    string_views(found@).contains(x) <==> (start.contains(x) || (
                    string_views(tokens@).take(k as int).contains(x) && !kv.contains(x))),
            decreases tokens.len() - k,
        {
            let mut is_known = false;
            let mut j: usize = 0;
            while j < known.len()
                invariant
                    j <= known.len(),
                    k < tokens.len(),
                    kv == string_views(known@),
                    is_known == exists|m: int| 0 <= m < j && kv[m] == tokens@[k as int]@,
                decreases known.len() - j,
            {
                if crate::text::str_eq(known[j].as_str(), tokens[k].as_str()) {
                    assert(kv[j as int] == tokens@[k as int]@);
                    is_known = true;
                }
                j += 1;
            }
            let ghost tv = string_views(tokens@);
            let ghost before = string_views(found@);
            proof {
                if is_known {
                    let m = choose|m: int| 0 <= m < known.len() && kv[m] == tokens@[k as int]@;
                    assert(kv.contains(tv[k as int]));
                } else {
                    assert(!kv.contains(tv[k as int]));
                }
                assert(tv.take(k + 1) =~= tv.take(k as int).push(tv[k as int]));
            }
            if !is_known {
                found.push(tokens[k].clone());
                assert(string_views(found@) =~= before.push(tv[k as int]));
            }
            proof {
                let now = string_views(found@);
                assert forall|x: Seq<char>| now.contains(x) <==> (start.contains(x) || (tv.take(
                    k + 1,
                ).contains(x) && !kv.contains(x))) by {
                    if tv.take(k + 1).contains(x) {
                        let n = choose|n: int| 0 <= n < k + 1 && #[trigger] tv.take(k + 1)[n] == x;
                        if n < k {
                            assert(tv.take(k as int)[n] == x);
                        }
                    }
                    if tv.take(k as int).contains(x) {
                        let n = choose|n: int| 0 <= n < k && #[trigger] tv.take(k as int)[n] == x;
                        assert(tv.take(k + 1)[n] == x);
                    }
                    if !is_known {
                        if now.contains(x) {
                            let n = choose|n: int| 0 <= n < now.len() && now[n] == x;
                            if n < before.len() {
                                assert(before[n] == x);
                            }
                        }
                        if before.contains(x) {
                            let n = choose|n: int| 0 <= n < before.len() && before[n] == x;
                            assert(now[n] == x);
                        }
                        assert(now[before.len() as int] == tv[k as int]);
                        assert(tv.take(k + 1)[k as int] == tv[k as int]);
                    }
                }
            }
            k += 1;
        }
        proof {
            let tv = string_views(tokens@);
            assert(tv.take(tokens.len() as int) =~= tv);
            assert(av.take(i + 1) =~= av.take(i as int).push(av[i as int]));
            assert forall|x: Seq<char>| string_views(found@).contains(x) <==> is_unresolved(
                av.take(i + 1),
                kv,
                x,
            ) by {
                let t1 = av.take(i + 1);
                if is_unresolved(t1, kv, x) {
                    let n = choose|n: int| 0 <= n < t1.len() && placeholders_of(#[trigger] t1[n]).contains(x);
                    if n < i {
                        assert(av.take(i as int)[n] == t1[n]);
                    }
                }
                if is_unresolved(av.take(i as int), kv, x) {
                    let n = choose|n: int|
                        0 <= n < i && placeholders_of(#[trigger] av.take(i as int)[n]).contains(x);
                    assert(t1[n] == av.take(i as int)[n]);
                }
                if tv.contains(x) && !kv.contains(x) {
                    assert(t1[i as int] == av[i as int]);
                }
            }
        }
        i += 1;
    }
    assert(av.take(args.len() as int) =~= av);
    crate::sorting::sorted_unique(&found, crate::sorting::Rank::Text)
}

/// Why a launch is not ready.
#[derive(Debug, Clone, Copy, PartialEq, Eq, Structural)]
pub enum PreflightFailure {
    MissingJava,
    WrongJavaVersion,
    MissingStructure,
    MissingLibraries,
    CorruptedFiles,
    InvalidLoader,
    IncompatibleLoaderJava,
    Unknown,
}

pub open spec fn failure_label(f: PreflightFailure) -> Seq<char> {
    match f {
        PreflightFailure::MissingJava => "MissingJava"@,
        PreflightFailure::WrongJavaVersion => "WrongJavaVersion"@,
        PreflightFailure::MissingStructure => "MissingStructure"@,
        PreflightFailure::MissingLibraries => "MissingLibraries"@,
        PreflightFailure::CorruptedFiles => "CorruptedFiles"@,
        PreflightFailure::InvalidLoader => "InvalidLoader"@,
        PreflightFailure::IncompatibleLoaderJava => "IncompatibleLoaderJava"@,
        PreflightFailure::Unknown => "Unknown"@,
    }
}

impl PreflightFailure {
    /// The failure's name, as logs show it.
    pub fn label(self) -> (r: &'static str)
        ensures
            r@ == failure_label(self),
    {
        match self {
            PreflightFailure::MissingJava => "MissingJava",
            PreflightFailure::WrongJavaVersion => "WrongJavaVersion",
            PreflightFailure::MissingStructure => "MissingStructure",
            PreflightFailure::MissingLibraries => "MissingLibraries",
            PreflightFailure::CorruptedFiles => "CorruptedFiles",
            PreflightFailure::InvalidLoader => "InvalidLoader",
            PreflightFailure::IncompatibleLoaderJava => "IncompatibleLoaderJava",
            PreflightFailure::Unknown => "Unknown",
        }
    }
}

/// Whether the loader cannot run on the launch's Java.
pub fn has_loader_java_incompatibility(failures: &Vec<PreflightFailure>) -> (b: bool)
    ensures
        b == failures@.contains(PreflightFailure::IncompatibleLoaderJava),
{
    let mut i: usize = 0;
    while i < failures.len()
        invariant
            i <= failures.len(),
            forall|j: int| 0 <= j < i ==> failures@[j] != PreflightFailure::IncompatibleLoaderJava,
        decreases failures.len() - i,
    {
        if failures[i] == PreflightFailure::IncompatibleLoaderJava {
            assert(failures@[i as int] == PreflightFailure::IncompatibleLoaderJava);
            return true;
        }
        i += 1;
    }
    false
}

pub open spec fn failure_labels(failures: Seq<PreflightFailure>) -> Seq<Seq<char>> {
    failures.map_values(|f: PreflightFailure| failure_label(f))
}

/// The failures' names, separated by `, `.
pub fn joined_labels(failures: &Vec<PreflightFailure>) -> (r: String)
    ensures
        r@ == crate::text::join_spec(failure_labels(failures@), ", "@),
{
    let mut labels: Vec<String> = Vec::new();
    let mut i: usize = 0;
    while i < failures.len()
        invariant
            i <= failures.len(),
            labels@.len() == i,
            forall|j: int| 0 <= j < i ==> #[trigger] labels@[j]@ == failure_label(failures@[j]),
        decreases failures.len() - i,
    {
        labels.push(String::from_str(failures[i].label()));
        i += 1;
    }
    assert(string_views(labels@) =~= failure_labels(failures@));
    crate::text::join_strings(&labels, ", ")
}

/// What the file system and the Java probe showed before a launch.
#[derive(Debug, Clone)]
pub struct PreflightFacts {
    pub instance_dir_ok: bool,
    pub game_dir_ok: bool,
    pub assets_ok: bool,
    pub client_jar_ok: bool,
    /// The client jar exists but is empty.
    pub client_jar_corrupted: bool,
    pub java_exists: bool,
    /// What probing the instance's Java gave.
    pub java_info: Option<crate::java::JavaInstallation>,
    /// Maven libraries of the instance missing from the libraries directory.
    pub missing_maven_artifacts: u64,
}

/// A Java of `actual` major version serves a launch that needs `required`.
pub open spec fn java_compatible(actual: u32, required: u32) -> bool {
    actual == required
}

/// Whether a Java of major version `actual` serves a launch needing `required`.
pub fn is_java_compatible_major(actual: u32, required: u32) -> (b: bool)
    ensures
        b == java_compatible(actual, required),
{
    actual == required
}

/// The loader is usable: vanilla, or a non-blank loader version.
pub open spec fn loader_ready(instance: Instance) -> bool {
    instance.loader == LoaderType::Vanilla || match instance.loader_version {
        Some(v) => crate::text::trim_spec(v@).len() != 0,
        None => false,
    }
}

pub open spec fn required_major_of(instance: Instance) -> u32 {
    match instance.required_java_major {
        Some(m) => m,
        None => crate::version_parts::java_for_minecraft(instance.minecraft_version@),
    }
}

/// The failures that the facts show, in a fixed order.
pub open spec fn failures_of(instance: Instance, facts: PreflightFacts, args_ok: bool) -> Seq<PreflightFailure> {
    let required = required_major_of(instance);
    let java_major_ok = match facts.java_info {
        Some(j) => java_compatible(j.major, required),
        None => false,
    };
    let java_64_ok = match facts.java_info {
        Some(j) => j.is_64bit,
        None => false,
    };
    let f1: Seq<PreflightFailure> = if !facts.java_exists {
        seq![PreflightFailure::MissingJava]
    } else {
        Seq::empty()
    };
    let f2 = if facts.java_exists && (!java_major_ok || !java_64_ok) {
        f1.push(PreflightFailure::WrongJavaVersion)
    } else {
        f1
    };
    let f3 = if !facts.instance_dir_ok || !facts.game_dir_ok || !facts.assets_ok
        || !facts.client_jar_ok {
        f2.push(PreflightFailure::MissingStructure)
    } else {
        f2
    };
    let f4 = if facts.missing_maven_artifacts != 0 {
        f3.push(PreflightFailure::MissingLibraries)
    } else {
        f3
    };
    let f5 = if facts.client_jar_corrupted {
        f4.push(PreflightFailure::CorruptedFiles)
    } else {
        f4
    };
    let f6 = if !loader_ready(instance) || instance.main_class is None {
        f5.push(PreflightFailure::InvalidLoader)
    } else {
        f5
    };
    let f7 = if asm_issue_of(instance, required) is Some {
        f6.push(PreflightFailure::IncompatibleLoaderJava)
    } else {
        f6
    };
    if !args_ok {
        f7.push(PreflightFailure::Unknown)
    } else {
        f7
    }
}

/// Whether every placeholder of the instance's arguments is one a launch fills in.
pub open spec fn args_resolved(instance: Instance) -> bool {
    forall|x: Seq<char>|
        !is_unresolved(string_views(instance.jvm_args@), known_jvm_placeholders(), x)
            && !is_unresolved(string_views(instance.game_args@), known_game_placeholders(), x)
}

fn spec_strings_jvm() -> (r: Vec<String>)
    ensures
        string_views(r@) == known_jvm_placeholders(),
{
    let mut r: Vec<String> = Vec::new();
    r.push(String::from_str("${natives_directory}"));
    r.push(String::from_str("${library_directory}"));
    r.push(String::from_str("${classpath}"));
    r.push(String::from_str("${classpath_separator}"));
    r.push(String::from_str("${game_directory}"));
    r.push(String::from_str("${version_name}"));
    r.push(String::from_str("${version}"));
    r.push(String::from_str("${mc_version}"));
    r.push(String::from_str("${launcher_name}"));
    r.push(String::from_str("${launcher_version}"));
    assert(string_views(r@) =~= known_jvm_placeholders());
    r
}

fn spec_strings_game() -> (r: Vec<String>)
    ensures
        string_views(r@) == known_game_placeholders(),
{
    let mut r: Vec<String> = Vec::new();
    r.push(String::from_str("${auth_player_name}"));
    r.push(String::from_str("${version_name}"));
    r.push(String::from_str("${version}"));
    r.push(String::from_str("${mc_version}"));
    r.push(String::from_str("${game_directory}"));
    r.push(String::from_str("${assets_root}"));
    r.push(String::from_str("${assets_index_name}"));
    r.push(String::from_str("${auth_uuid}"));
    r.push(String::from_str("${auth_access_token}"));
    r.push(String::from_str("${auth_xuid}"));
    r.push(String::from_str("${clientid}"));
    r.push(String::from_str("${user_properties}"));
    r.push(String::from_str("${user_type}"));
    r.push(String::from_str("${version_type}"));
    r.push(String::from_str("${quickPlayMultiplayer}"));
    r.push(String::from_str("${quickPlaySingleplayer}"));
    r.push(String::from_str("${quickPlayRealms}"));
    r.push(String::from_str("${quickPlayPath}"));
    r.push(String::from_str("${resolution_width}"));
    r.push(String::from_str("${resolution_height}"));
    assert(string_views(r@) =~= known_game_placeholders());
    r
}

/// The placeholders of the instance's JVM and game arguments that a launch
/// cannot fill in.
pub fn unresolved_launch_placeholders(instance: &Instance) -> (r: (Vec<String>, Vec<String>))
    ensures
        forall|x: Seq<char>|
            string_views(r.0@).contains(x) <==> is_unresolved(
                string_views(instance.jvm_args@),
                known_jvm_placeholders(),
                x,
            ),
        forall|x: Seq<char>|
            string_views(r.1@).contains(x) <==> is_unresolved(
                string_views(instance.game_args@),
                known_game_placeholders(),
                x,
            ),
        crate::sorting::strictly_ascending(string_views(r.0@), crate::sorting::Rank::Text),
        crate::sorting::strictly_ascending(string_views(r.1@), crate::sorting::Rank::Text),
{
    let jvm_known = spec_strings_jvm();
    let game_known = spec_strings_game();
    (
        unresolved_placeholders(&instance.jvm_args, &jvm_known),
        unresolved_placeholders(&instance.game_args, &game_known),
    )
}

/// What stands in the way of launching the instance, given the facts
/// gathered about it.
pub fn preflight_failures(instance: &Instance, facts: &PreflightFacts) -> (r: Vec<PreflightFailure>)
    ensures
        r@ == failures_of(*instance, *facts, args_resolved(*instance)),
{
    let required = match instance.required_java_major {
        Some(m) => m,
        None => crate::version_parts::required_java_for_minecraft_version(
            instance.minecraft_version.as_str(),
        ),
    };
    let loader_ok = match instance.loader {
        LoaderType::Vanilla => true,
        _ => match &instance.loader_version {
            Some(v) => !crate::text::str_is_blank(v.as_str()),
            None => false,
        },
    };
    let main_class_ok = instance.main_class.is_some();
    let loader_java_ok = detect_loader_asm_incompatibility(instance, required).is_none();
    let java_major_ok = match &facts.java_info {
        Some(j) => is_java_compatible_major(j.major, required),
        None => false,
    };
    let java_64_ok = match &facts.java_info {
        Some(j) => j.is_64bit,
        None => false,
    };
    let (uj, ug) = unresolved_launch_placeholders(instance);
    let args_ok = uj.len() == 0 && ug.len() == 0;
    proof {
        if args_ok {
            assert forall|x: Seq<char>|
                !is_unresolved(string_views(instance.jvm_args@), known_jvm_placeholders(), x)
                    && !is_unresolved(
                    string_views(instance.game_args@),
                    known_game_placeholders(),
                    x,
                ) by {
                assert(!string_views(uj@).contains(x));
                assert(!string_views(ug@).contains(x));
            }
        } else {
            if uj.len() > 0 {
                assert(string_views(uj@)[0] == uj@[0]@);
                assert(string_views(uj@).contains(uj@[0]@));
            } else {
                assert(string_views(ug@)[0] == ug@[0]@);
                assert(string_views(ug@).contains(ug@[0]@));
            }
        }
    }
    let mut failures: Vec<PreflightFailure> = Vec::new();
    if !facts.java_exists {
        failures.push(PreflightFailure::MissingJava);
    }
    if facts.java_exists && (!java_major_ok || !java_64_ok) {
        failures.push(PreflightFailure::WrongJavaVersion);
    }
    if !facts.instance_dir_ok || !facts.game_dir_ok || !facts.assets_ok || !facts.client_jar_ok {
        failures.push(PreflightFailure::MissingStructure);
    }
    if facts.missing_maven_artifacts != 0 {
        failures.push(PreflightFailure::MissingLibraries);
    }
    if facts.client_jar_corrupted {
        failures.push(PreflightFailure::CorruptedFiles);
    }
    if !loader_ok || !main_class_ok {
        failures.push(PreflightFailure::InvalidLoader);
    }
    if !loader_java_ok {
        failures.push(PreflightFailure::IncompatibleLoaderJava);
    }
    if !args_ok {
        failures.push(PreflightFailure::Unknown);
    }
    assert(failures@ =~= failures_of(*instance, *facts, args_resolved(*instance)));
    failures
}

/// The instance's state, as `{:?}` writes it.
pub open spec fn state_debug_name(s: InstanceState) -> Seq<char> {
    match s {
        InstanceState::Created => "Created"@,
        InstanceState::Installing => "Installing"@,
        InstanceState::Ready => "Ready"@,
        InstanceState::Running => "Running"@,
        InstanceState::Error => "Error"@,
    }
}

/// A launch starts from `Ready` (or from `Error`, to retry) and needs a main class.
pub fn validate_instance_state_before_launch(instance: &Instance) -> (r: Result<(), LauncherError>)
    ensures
        !(instance.state == InstanceState::Ready || instance.state == InstanceState::Error) ==> (
        r is Err && match r->Err_0 {
            LauncherError::Other(m) => m@ == "Instance "@ + instance.id@
                + " is not in Ready state (current: "@ + state_debug_name(instance.state) + ")"@,
            _ => false,
        }),
        (instance.state == InstanceState::Ready || instance.state == InstanceState::Error)
            && instance.main_class is None ==> (r is Err && match r->Err_0 {
            LauncherError::Other(m) => m@ == "Instancia inválida: falta main_class"@,
            _ => false,
        }),
        (instance.state == InstanceState::Ready || instance.state == InstanceState::Error)
            && instance.main_class is Some ==> r is Ok,
{
    if instance.state != InstanceState::Ready && instance.state != InstanceState::Error {
        let name = match instance.state {
            InstanceState::Created => "Created",
            InstanceState::Installing => "Installing",
            InstanceState::Ready => "Ready",
            InstanceState::Running => "Running",
            InstanceState::Error => "Error",
        };
        let mut m = String::from_str("Instance ");
        m.append(instance.id.as_str());
        m.append(" is not in Ready state (current: ");
        m.append(name);
        m.append(")");
        return Err(LauncherError::Other(m));
    }
    if instance.main_class.is_none() {
        return Err(LauncherError::Other(String::from_str("Instancia inválida: falta main_class")));
    }
    Ok(())
}

pub open spec fn gamma_only(settings: LauncherSettings) -> bool {
    match settings.selected_java_path {
        Some(p) => seq_contains(crate::text::ascii_lower_seq(p@), "java-gamma"@),
        None => false,
    }
}

/// The user chose a Java whose path names the `java-gamma` runtime.
pub fn user_forced_gamma_only(settings: &LauncherSettings, _instance: &Instance) -> (b: bool)
    ensures
        b == gamma_only(*settings),
{
    match &settings.selected_java_path {
        Some(p) => {
            let v = chars_of(p.as_str());
            let lower = crate::text::ascii_lower_chars(&v);
            let s = string_from_chars(lower.as_slice());
            str_contains(s.as_str(), "java-gamma")
        },
        None => false,
    }
}

/// What a repair does about a set of failures.
#[derive(Debug, Clone, Copy)]
pub struct RepairPlan {
    /// How many times the managed Java is resolved again (once per Java failure).
    pub java_resolutions: u64,
    /// The client jar is deleted, to be downloaded again.
    pub remove_client_jar: bool,
    /// The loader is marked as needing the tooling runtime.
    pub loader_requires_delta: bool,
    /// The main class is forgotten, so that installation runs in full.
    pub reset_main_class: bool,
    /// The instance is prepared (installed) again.
    pub prepare: bool,
}

pub open spec fn count_java_failures(fs: Seq<PreflightFailure>) -> nat
    decreases fs.len(),
{
    if fs.len() == 0 {
        0
    } else {
        count_java_failures(fs.drop_last()) + if fs.last() == PreflightFailure::MissingJava
            || fs.last() == PreflightFailure::WrongJavaVersion {
            1nat
        } else {
            0nat
        }
    }
}

pub open spec fn repair_plan_of(fs: Seq<PreflightFailure>) -> RepairPlan {
    let full = fs.contains(PreflightFailure::CorruptedFiles) || fs.contains(
        PreflightFailure::InvalidLoader,
    );
    RepairPlan {
        java_resolutions: count_java_failures(fs) as u64,
        remove_client_jar: fs.contains(PreflightFailure::CorruptedFiles),
        loader_requires_delta: fs.contains(PreflightFailure::IncompatibleLoaderJava),
        reset_main_class: full,
        prepare: full || fs.contains(PreflightFailure::MissingStructure) || fs.contains(
            PreflightFailure::MissingLibraries,
        ) || fs.contains(PreflightFailure::Unknown),
    }
}

/// Decides the repair for a set of failures.
pub fn plan_repair(failures: &Vec<PreflightFailure>) -> (r: RepairPlan)
    ensures
        r == repair_plan_of(failures@),
{
    let mut java: u64 = 0;
    let mut remove = false;
    let mut delta = false;
    let mut full = false;
    let mut prepare = false;
    let mut i: usize = 0;
    while i < failures.len()
        invariant
            i <= failures.len(),
            java == count_java_failures(failures@.take(i as int)),
            java <= i,
            remove == failures@.take(i as int).contains(PreflightFailure::CorruptedFiles),
            delta == failures@.take(i as int).contains(PreflightFailure::IncompatibleLoaderJava),
            full == (failures@.take(i as int).contains(PreflightFailure::CorruptedFiles)
                || failures@.take(i as int).contains(PreflightFailure::InvalidLoader)),
            prepare == (failures@.take(i as int).contains(PreflightFailure::MissingStructure)
                || failures@.take(i as int).contains(PreflightFailure::MissingLibraries)
                || failures@.take(i as int).contains(PreflightFailure::Unknown)),
        decreases failures.len() - i,
    {
        let ghost t = failures@.take(i as int);
        let ghost t1 = failures@.take(i + 1);
        assert(t1 =~= t.push(failures@[i as int]));
        assert(t1.drop_last() =~= t);
        assert forall|f: PreflightFailure| t1.contains(f) <==> (t.contains(f) || failures@[i as int] == f) by {
            if t1.contains(f) {
                let n = choose|n: int| 0 <= n < t1.len() && t1[n] == f;
                if n < i {
                    assert(t[n] == f);
                }
            }
            if t.contains(f) {
                let n = choose|n: int| 0 <= n < t.len() && t[n] == f;
                assert(t1[n] == f);
            }
            if failures@[i as int] == f {
                assert(t1[i as int] == f);
            }
        }
        match failures[i] {
            PreflightFailure::MissingJava | PreflightFailure::WrongJavaVersion => {
                java = java + 1;
            },
            PreflightFailure::MissingStructure | PreflightFailure::MissingLibraries => {
                prepare = true;
            },
            PreflightFailure::CorruptedFiles => {
                remove = true;
                full = true;
            },
            PreflightFailure::InvalidLoader => {
                full = true;
            },
            PreflightFailure::IncompatibleLoaderJava => {
                delta = true;
            },
            PreflightFailure::Unknown => {
                prepare = true;
            },
        }
        i += 1;
    }
    assert(failures@.take(failures.len() as int) =~= failures@);
    RepairPlan {
        java_resolutions: java,
        remove_client_jar: remove,
        loader_requires_delta: delta,
        reset_main_class: full,
        prepare: full || prepare,
    }
}

/// Where a launch's preflight stands.
#[derive(Debug, Clone, Copy, PartialEq, Eq, Structural)]
pub enum PreflightStage {
    /// Nothing checked yet.
    Initial,
    /// One repair of a loader/Java incompatibility was tried (it gets no second).
    AfterLoaderRepair,
    /// That many repairs of other failures were tried (at most two).
    AfterRepair(u8),
}

/// What the launch does next.
#[derive(Debug, Clone)]
pub enum PreflightAction {
    /// Launch.
    Proceed,
    /// Run the repair for the failures found, then check again.
    Repair,
    /// Give up with this error.
    Fail(LauncherError),
}

pub open spec fn persistent_message(failures: Seq<PreflightFailure>, after_repairs: bool) -> Seq<char> {
    if after_repairs {
        "Preflight fallido tras autoreparación. Fallos persistentes: "@ + crate::text::join_spec(
            failure_labels(failures),
            ", "@,
        )
    } else {
        "Preflight fallido. Fallos persistentes: "@ + crate::text::join_spec(
            failure_labels(failures),
            ", "@,
        )
    }
}

pub open spec fn gamma_conflict_message() -> Seq<char> {
    "El loader requiere Delta para bootstrap, pero el usuario forzó solo Gamma."@
}

pub open spec fn fails_with(a: PreflightAction, m: Seq<char>) -> bool {
    match a {
        PreflightAction::Fail(LauncherError::Other(x)) => x@ == m,
        _ => false,
    }
}

/// The next step of a launch's preflight, given the failures just found.
/// A loader/Java incompatibility gets one repair (none when the user forced
/// the game runtime only); other failures get up to two.
pub fn preflight_step(stage: PreflightStage, failures: &Vec<PreflightFailure>, gamma_forced: bool) -> (r: (PreflightStage, PreflightAction))
    requires
        match stage {
            PreflightStage::AfterRepair(n) => 1 <= n <= 2,
            _ => true,
        },
    ensures
        failures@.len() == 0 ==> r.1 is Proceed && r.0 == stage,
        failures@.len() > 0 ==> match stage {
            PreflightStage::Initial => if failures@.contains(PreflightFailure::IncompatibleLoaderJava) {
                if gamma_forced {
                    fails_with(r.1, gamma_conflict_message())
                } else {
                    r.1 is Repair && r.0 == PreflightStage::AfterLoaderRepair
                }
            } else {
                r.1 is Repair && r.0 == PreflightStage::AfterRepair(1)
            },
            PreflightStage::AfterLoaderRepair => fails_with(
                r.1,
                persistent_message(failures@, false),
            ),
            PreflightStage::AfterRepair(n) => if n < 2 {
                r.1 is Repair && r.0 == PreflightStage::AfterRepair((n + 1) as u8)
            } else {
                fails_with(r.1, persistent_message(failures@, true))
            },
        },
        match r.0 {
            PreflightStage::AfterRepair(n) => 1 <= n <= 2,
            _ => true,
        },
        r.1 is Repair ==> 0 <= repairs_left(r.0) < repairs_left(stage),
{
    if failures.len() == 0 {
        return (stage, PreflightAction::Proceed);
    }
    match stage {
        PreflightStage::Initial => {
            if has_loader_java_incompatibility(failures) {
                if gamma_forced {
                    (
                        stage,
                        PreflightAction::Fail(
                            LauncherError::Other(
                                String::from_str(
                                    "El loader requiere Delta para bootstrap, pero el usuario forzó solo Gamma.",
                                ),
                            ),
                        ),
                    )
                } else {
                    (PreflightStage::AfterLoaderRepair, PreflightAction::Repair)
                }
            } else {
                (PreflightStage::AfterRepair(1), PreflightAction::Repair)
            }
        },
        PreflightStage::AfterLoaderRepair => {
            let mut m = String::from_str("Preflight fallido. Fallos persistentes: ");
            m.append(joined_labels(failures).as_str());
            (stage, PreflightAction::Fail(LauncherError::Other(m)))
        },
        PreflightStage::AfterRepair(n) => {
            if n < 2 {
                (PreflightStage::AfterRepair(n + 1), PreflightAction::Repair)
            } else {
                let mut m = String::from_str(
                    "Preflight fallido tras autoreparación. Fallos persistentes: ",
                );
                m.append(joined_labels(failures).as_str());
                (stage, PreflightAction::Fail(LauncherError::Other(m)))
            }
        },
    }
}

/// How many more repairs a preflight at this stage can ask for.
pub open spec fn repairs_left(stage: PreflightStage) -> int {
    match stage {
        PreflightStage::Initial => 2,
        PreflightStage::AfterLoaderRepair => 0,
        PreflightStage::AfterRepair(n) => 2 - n,
    }
}

/// Where the game's Java comes from.
#[derive(Debug, Clone, Copy, PartialEq, Eq, Structural)]
pub enum JavaSource {
    /// The Java the user selected.
    Custom,
    /// `java` on the `PATH`.
    System,
    /// The runtime shipped with the launcher.
    Embedded,
    /// A managed runtime, installed when missing.
    Managed,
}

/// A probed Java serves a launch when it has a compatible major version and is 64-bit.
pub open spec fn java_serves(probe: Option<crate::java::JavaInstallation>, required: u32) -> bool {
    match probe {
        Some(j) => java_compatible(j.major, required) && j.is_64bit,
        None => false,
    }
}

/// Whether the probe of a candidate Java shows it can serve the launch.
pub fn java_candidate_valid(probe: &Option<crate::java::JavaInstallation>, required: u32) -> (b: bool)
    ensures
        b == java_serves(*probe, required),
{
    match probe {
        Some(j) => is_java_compatible_major(j.major, required) && j.is_64bit,
        None => false,
    }
}

pub open spec fn system_java_missing_message() -> Seq<char> {
    "Preferencia Java=System configurada pero no se encontró una Java compatible en PATH."@
}

/// Picks the game's Java: a valid selected Java first; then by preference the
/// system Java (which must be valid), the embedded one (when valid), or a
/// managed runtime. `custom_valid` is `None` when no Java is selected.
pub fn choose_java_source(
    preference: crate::model::JavaRuntimePreference,
    custom_valid: Option<bool>,
    system_valid: bool,
    embedded_valid: bool,
) -> (r: Result<JavaSource, LauncherError>)
    ensures
        custom_valid == Some(true) ==> r == Ok::<JavaSource, LauncherError>(JavaSource::Custom),
        custom_valid != Some(true) ==> match preference {
            crate::model::JavaRuntimePreference::System => if system_valid {
                r == Ok::<JavaSource, LauncherError>(JavaSource::System)
            } else {
                r is Err && match r->Err_0 {
                    LauncherError::Other(m) => m@ == system_java_missing_message(),
                    _ => false,
                }
            },
            crate::model::JavaRuntimePreference::Embedded => if embedded_valid {
                r == Ok::<JavaSource, LauncherError>(JavaSource::Embedded)
            } else {
                r == Ok::<JavaSource, LauncherError>(JavaSource::Managed)
            },
            crate::model::JavaRuntimePreference::Auto => r == Ok::<JavaSource, LauncherError>(
                JavaSource::Managed,
            ),
        },
{
    if custom_valid == Some(true) {
        return Ok(JavaSource::Custom);
    }
    match preference {
        crate::model::JavaRuntimePreference::System => {
            if system_valid {
                Ok(JavaSource::System)
            } else {
                Err(
                    LauncherError::Other(
                        String::from_str(
                            "Preferencia Java=System configurada pero no se encontró una Java compatible en PATH.",
                        ),
                    ),
                )
            }
        },
        crate::model::JavaRuntimePreference::Embedded => {
            if embedded_valid {
                Ok(JavaSource::Embedded)
            } else {
                Ok(JavaSource::Managed)
            }
        },
        crate::model::JavaRuntimePreference::Auto => Ok(JavaSource::Managed),
    }
}

} // verus!
