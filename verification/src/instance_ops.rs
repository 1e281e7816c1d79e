//! What the instance commands decide: how installation results shape an
//! instance, which loader versions are offered, and how copies, stops and
//! deletions end.
use vstd::prelude::*;

use crate::error::LauncherError;
use crate::loaders::LoaderInstallResult;
use crate::model::{Instance, InstanceState};
use crate::payloads::DeleteInstanceResponse;
use crate::platform::{path_join_result, HostOs};
use crate::sorting::{same_texts, sorted_unique, sorted_unique_descending, strictly_ascending, strictly_descending, Rank};
use crate::text::{str_eq, string_views};

verus! {

fn copy_strings(v: &Vec<String>) -> (r: Vec<String>)
    ensures
        r@ == v@,
{
    let mut out: Vec<String> = Vec::new();
    let mut i: usize = 0;
    while i < v.len()
        invariant
            i <= v.len(),
            out@ == v@.take(i as int),
        decreases v.len() - i,
    {
        out.push(v[i].clone());
        i += 1;
        assert(out@ =~= v@.take(i as int));
    }
    assert(v@.take(v.len() as int) =~= v@);
    out
}

fn append_all(dst: &mut Vec<String>, src: &Vec<String>)
    ensures
        final(dst)@ == old(dst)@ + src@,
{
    let ghost start = dst@;
    let mut i: usize = 0;
    while i < src.len()
        invariant
            i <= src.len(),
            dst@ == start + src@.take(i as int),
        decreases src.len() - i,
    {
        dst.push(src[i].clone());
        i += 1;
        assert(dst@ =~= start + src@.take(i as int));
    }
    assert(src@.take(src.len() as int) =~= src@);
}

/// Takes over what the vanilla installer reports: main class, asset index,
/// libraries, arguments and Java version.
pub fn apply_vanilla_result(instance: &mut Instance, vanilla: &LoaderInstallResult)
    ensures
        final(instance).libraries@ == vanilla.libraries@,
        final(instance).jvm_args@ == vanilla.extra_jvm_args@,
        final(instance).game_args@ == vanilla.extra_game_args@,
        *final(instance) == (Instance {
            main_class: Some(vanilla.main_class),
            asset_index: vanilla.asset_index_id,
            required_java_major: vanilla.java_major,
            libraries: final(instance).libraries,
            jvm_args: final(instance).jvm_args,
            game_args: final(instance).game_args,
            ..*old(instance)
        }),
{
    instance.main_class = Some(vanilla.main_class.clone());
    instance.asset_index = match &vanilla.asset_index_id {
        Some(a) => Some(a.clone()),
        None => None,
    };
    instance.libraries = copy_strings(&vanilla.libraries);
    instance.jvm_args = copy_strings(&vanilla.extra_jvm_args);
    instance.game_args = copy_strings(&vanilla.extra_game_args);
    instance.required_java_major = vanilla.java_major;
}

/// Takes over what a loader installer reports: its main class, its arguments
/// and libraries after the vanilla ones, and its asset index if it names one.
pub fn apply_loader_result(instance: &mut Instance, loader: &LoaderInstallResult)
    ensures
        final(instance).jvm_args@ == old(instance).jvm_args@ + loader.extra_jvm_args@,
        final(instance).game_args@ == old(instance).game_args@ + loader.extra_game_args@,
        final(instance).libraries@ == old(instance).libraries@ + loader.libraries@,
        *final(instance) == (Instance {
            main_class: Some(loader.main_class),
            asset_index: match loader.asset_index_id {
                Some(a) => Some(a),
                None => old(instance).asset_index,
            },
            libraries: final(instance).libraries,
            jvm_args: final(instance).jvm_args,
            game_args: final(instance).game_args,
            ..*old(instance)
        }),
{
    instance.main_class = Some(loader.main_class.clone());
    append_all(&mut instance.jvm_args, &loader.extra_jvm_args);
    append_all(&mut instance.game_args, &loader.extra_game_args);
    append_all(&mut instance.libraries, &loader.libraries);
    match &loader.asset_index_id {
        Some(a) => {
            instance.asset_index = Some(a.clone());
        },
        None => {},
    }
}

/// Keeps each library once, sorted (`sort` then `dedup`).
pub fn normalize_libraries(instance: &mut Instance)
    ensures
        strictly_ascending(string_views(final(instance).libraries@), Rank::Text),
        same_texts(string_views(final(instance).libraries@), string_views(old(instance).libraries@)),
        *final(instance) == (Instance { libraries: final(instance).libraries, ..*old(instance) }),
{
    let libs = sorted_unique(&instance.libraries, Rank::Text);
    instance.libraries = libs;
}

/// An instance needs installing when its main class or Java version is
/// unknown, its client jar is missing, or one of its Maven libraries is.
pub open spec fn install_needed(instance: Instance, client_jar_exists: bool, missing_maven_library: bool) -> bool {
    instance.main_class is None || instance.required_java_major is None || !client_jar_exists
        || missing_maven_library
}

pub fn needs_install(instance: &Instance, client_jar_exists: bool, missing_maven_library: bool) -> (b: bool)
    ensures
        b == install_needed(*instance, client_jar_exists, missing_maven_library),
{
    instance.main_class.is_none() || instance.required_java_major.is_none() || !client_jar_exists
        || missing_maven_library
}

/// After preparation an instance must know its main class and Java version.
pub fn check_prepared(instance: &Instance) -> (r: Result<(), LauncherError>)
    ensures
        (instance.main_class is None || instance.required_java_major is None) ==> r is Err && match r->Err_0 {
            LauncherError::Other(m) => m@
                == "Instancia inválida: main_class o required_java_major no definidos"@,
            _ => false,
        },
        (instance.main_class is Some && instance.required_java_major is Some) ==> r is Ok,
{
    if instance.main_class.is_none() || instance.required_java_major.is_none() {
        return Err(
            LauncherError::Other(
                String::from_str("Instancia inválida: main_class o required_java_major no definidos"),
            ),
        );
    }
    Ok(())
}

/// The vanilla installer's report, from the version JSON it installed.
pub fn vanilla_install_result(version: &crate::version_file::VersionJson, libraries: Vec<String>, os: HostOs) -> (r: LoaderInstallResult)
    ensures
        r.main_class == version.main_class,
        r.libraries == libraries,
        string_views(r.extra_jvm_args@) == crate::version_file::simple_jvm_args_of(*version, os),
        string_views(r.extra_game_args@) == crate::version_file::simple_game_args_of(*version, os),
        r.asset_index_id == match version.asset_index {
            Some(a) => Some(a.id),
            None => None::<String>,
        },
        r.asset_index_url == match version.asset_index {
            Some(a) => Some(a.url),
            None => None::<String>,
        },
        r.java_major == Some(
            match version.java_version {
                Some(j) => j.major_version,
                None => 17u32,
            },
        ),
{
    let (asset_index_id, asset_index_url) = match &version.asset_index {
        Some(a) => (Some(a.id.clone()), Some(a.url.clone())),
        None => (None, None),
    };
    LoaderInstallResult {
        main_class: version.main_class.clone(),
        extra_jvm_args: version.simple_jvm_args(os),
        extra_game_args: version.simple_game_args(os),
        libraries,
        asset_index_id,
        asset_index_url,
        java_major: Some(version.required_java_major()),
    }
}

/// `Minecraft version <mc> not found in manifest`.
pub fn version_not_found(minecraft_version: &str) -> (e: LauncherError)
    ensures
        match e {
            LauncherError::Other(m) => m@ == "Minecraft version "@ + minecraft_version@
                + " not found in manifest"@,
            _ => false,
        },
{
    let mut m = String::from_str("Minecraft version ");
    m.append(minecraft_version);
    m.append(" not found in manifest");
    LauncherError::Other(m)
}

/// The stable Fabric loader versions, in order.
pub open spec fn stable_versions(entries: Seq<(String, bool)>) -> Seq<Seq<char>>
    decreases entries.len(),
{
    if entries.len() == 0 {
        Seq::empty()
    } else {
        let rest = stable_versions(entries.drop_last());
        if entries.last().1 {
            rest.push(entries.last().0@)
        } else {
            rest
        }
    }
}

/// Keeps the stable ones among `(version, stable)` Fabric loader entries.
pub fn fabric_stable_versions(entries: &Vec<(String, bool)>) -> (r: Vec<String>)
    ensures
        string_views(r@) == stable_versions(entries@),
{
    let mut out: Vec<String> = Vec::new();
    let mut i: usize = 0;
    while i < entries.len()
        invariant
            i <= entries.len(),
            string_views(out@) == stable_versions(entries@.take(i as int)),
        decreases entries.len() - i,
    {
        assert(entries@.take(i + 1).drop_last() =~= entries@.take(i as int));
        if entries[i].1 {
            let ghost before = string_views(out@);
            out.push(entries[i].0.clone());
            assert(string_views(out@) =~= before.push(entries@[i as int].0@));
        }
        i += 1;
    }
    assert(entries@.take(entries.len() as int) =~= entries@);
    out
}

/// The Forge versions of a Minecraft version: those named `<mc>-<forge>`,
/// without the prefix.
pub open spec fn forge_versions_of(all: Seq<Seq<char>>, mc: Seq<char>) -> Seq<Seq<char>>
    decreases all.len(),
{
    if all.len() == 0 {
        Seq::empty()
    } else {
        let rest = forge_versions_of(all.drop_last(), mc);
        let p = mc + "-"@;
        if crate::text::seq_starts_with(all.last(), p) {
            rest.push(all.last().skip(p.len() as int))
        } else {
            rest
        }
    }
}

/// Picks the Forge versions made for `minecraft_version` out of Forge's list.
pub fn forge_versions_for(all: &Vec<String>, minecraft_version: &str) -> (r: Vec<String>)
    ensures
        string_views(r@) == forge_versions_of(string_views(all@), minecraft_version@),
{
    let ghost av = string_views(all@);
    let mut prefix = String::from_str(minecraft_version);
    prefix.append("-");
    let pv = crate::text::chars_of(prefix.as_str());
    let mut out: Vec<String> = Vec::new();
    let mut i: usize = 0;
    while i < all.len()
        invariant
            i <= all.len(),
            av == string_views(all@),
            pv@ == minecraft_version@ + "-"@,
            string_views(out@) == forge_versions_of(av.take(i as int), minecraft_version@),
        decreases all.len() - i,
    {
        assert(av.take(i + 1).drop_last() =~= av.take(i as int));
        assert(av.take(i + 1).last() == all@[i as int]@);
        let v = crate::text::chars_of(all[i].as_str());
        if crate::text::matches_at(&v, 0, &pv) {
            let rest = crate::text::copy_range(&v, pv.len(), v.len());
            assert(rest@ =~= v@.skip(pv@.len() as int));
            let ghost before = string_views(out@);
            out.push(crate::text::string_from_chars(rest.as_slice()));
            assert(string_views(out@) =~= before.push(rest@));
        }
        i += 1;
    }
    assert(av.take(all.len() as int) =~= av);
    out
}

/// The NeoForge versions of a Minecraft version, in order.
pub open spec fn neoforge_versions_of(all: Seq<Seq<char>>, mc: Seq<char>) -> Seq<Seq<char>>
    decreases all.len(),
{
    if all.len() == 0 {
        Seq::empty()
    } else {
        let rest = neoforge_versions_of(all.drop_last(), mc);
        if crate::version_parts::neoforge_compatible(all.last(), mc) {
            rest.push(all.last())
        } else {
            rest
        }
    }
}

/// Picks the NeoForge versions of the same `major.minor` line as `minecraft_version`.
pub fn neoforge_versions_for(all: &Vec<String>, minecraft_version: &str) -> (r: Vec<String>)
    ensures
        string_views(r@) == neoforge_versions_of(string_views(all@), minecraft_version@),
{
    let ghost av = string_views(all@);
    let mut out: Vec<String> = Vec::new();
    let mut i: usize = 0;
    while i < all.len()
        invariant
            i <= all.len(),
            av == string_views(all@),
            string_views(out@) == neoforge_versions_of(av.take(i as int), minecraft_version@),
        decreases all.len() - i,
    {
        assert(av.take(i + 1).drop_last() =~= av.take(i as int));
        assert(av.take(i + 1).last() == all@[i as int]@);
        if crate::version_parts::is_neoforge_compatible(all[i].as_str(), minecraft_version) {
            let ghost before = string_views(out@);
            out.push(all[i].clone());
            assert(string_views(out@) =~= before.push(av[i as int]));
        }
        i += 1;
    }
    assert(av.take(all.len() as int) =~= av);
    out
}

/// Minecraft 1.20.1 also offers the NeoForge builds published under the legacy
/// `forge` artifact.
pub fn needs_legacy_neoforge(minecraft_version: &str) -> (b: bool)
    ensures
        b == (minecraft_version@ == "1.20.1"@),
{
    str_eq(minecraft_version, "1.20.1")
}

/// Loader versions as offered: newest first (by their numeric parts, then by
/// text), each once.
pub fn sort_loader_versions(versions: &Vec<String>) -> (r: Vec<String>)
    ensures
        strictly_descending(string_views(r@), Rank::LoaderVersion),
        same_texts(string_views(r@), string_views(versions@)),
{
    sorted_unique_descending(versions, Rank::LoaderVersion)
}

/// `<name> (Copia)`.
pub open spec fn copy_name_of(name: Seq<char>) -> Seq<char> {
    name + " (Copia)"@
}

/// A copy of an instance under a new id at `<instances dir>/<id>`, ready, never
/// played, created now; its files are copied by the caller.
pub fn cloned_instance(source: &Instance, instances_dir: &str) -> (r: Instance)
    ensures
        r.id@.len() == 36,
        r.name@ == copy_name_of(source.name@),
        r.path@ == path_join_result(instances_dir@, r.id@),
        r.state == InstanceState::Ready,
        r.last_played is None,
        r.minecraft_version == source.minecraft_version,
        r.loader == source.loader,
        r.loader_version == source.loader_version,
        r.java_path == source.java_path,
        r.max_memory_mb == source.max_memory_mb,
        r.main_class == source.main_class,
        r.asset_index == source.asset_index,
        r.libraries@ == source.libraries@,
        r.jvm_args@ == source.jvm_args@,
        r.game_args@ == source.game_args@,
        r.required_java_major == source.required_java_major,
        r.account == source.account,
{
    let fresh = Instance::new(
        source.name.clone(),
        source.minecraft_version.clone(),
        source.loader,
        match &source.loader_version {
            Some(v) => Some(v.clone()),
            None => None,
        },
        source.max_memory_mb,
        instances_dir,
    );
    let mut name = source.name.clone();
    name.append(" (Copia)");
    Instance {
        name,
        path: fresh.path,
        minecraft_version: fresh.minecraft_version,
        loader: source.loader,
        loader_version: fresh.loader_version,
        java_path: match &source.java_path {
            Some(p) => Some(p.clone()),
            None => None,
        },
        max_memory_mb: source.max_memory_mb,
        id: fresh.id,
        state: InstanceState::Ready,
        created_at: fresh.created_at,
        last_played: None,
        main_class: match &source.main_class {
            Some(m) => Some(m.clone()),
            None => None,
        },
        asset_index: match &source.asset_index {
            Some(a) => Some(a.clone()),
            None => None,
        },
        libraries: copy_strings(&source.libraries),
        jvm_args: copy_strings(&source.jvm_args),
        game_args: copy_strings(&source.game_args),
        account: crate::auth::LaunchAccountProfile {
            mode: source.account.mode,
            username: source.account.username.clone(),
            uuid: source.account.uuid.clone(),
            access_token: source.account.access_token.clone(),
            xuid: source.account.xuid.clone(),
            user_type: source.account.user_type.clone(),
            client_id: source.account.client_id.clone(),
        },
        required_java_major: source.required_java_major,
    }
}

/// What deleting an instance answers: done, a request for elevation when
/// permission was denied (on Windows, or a refusal elsewhere), or the error.
pub fn delete_outcome(
    result: Result<(), LauncherError>,
    permission_denied: bool,
    request_elevation: bool,
    os: HostOs,
) -> (r: Result<DeleteInstanceResponse, LauncherError>)
    ensures
        result is Ok ==> r == Ok::<DeleteInstanceResponse, LauncherError>(DeleteInstanceResponse::Deleted),
        result is Err && !permission_denied ==> r is Err && r->Err_0 == result->Err_0,
        result is Err && permission_denied && !request_elevation ==> r == Ok::<
            DeleteInstanceResponse,
            LauncherError,
        >(DeleteInstanceResponse::NeedsElevation),
        result is Err && permission_denied && request_elevation && os == HostOs::Windows ==> r == Ok::<
            DeleteInstanceResponse,
            LauncherError,
        >(DeleteInstanceResponse::ElevationRequested),
        result is Err && permission_denied && request_elevation && os != HostOs::Windows ==> r is Err
            && match r->Err_0 {
            LauncherError::Other(m) => m@
                == "La elevación de privilegios para eliminar instancias sólo está disponible en Windows."@,
            _ => false,
        },
{
    match result {
        Ok(()) => Ok(DeleteInstanceResponse::Deleted),
        Err(e) => {
            if !permission_denied {
                return Err(e);
            }
            if !request_elevation {
                return Ok(DeleteInstanceResponse::NeedsElevation);
            }
            if os == HostOs::Windows {
                Ok(DeleteInstanceResponse::ElevationRequested)
            } else {
                Err(
                    LauncherError::Other(
                        String::from_str(
                            "La elevación de privilegios para eliminar instancias sólo está disponible en Windows.",
                        ),
                    ),
                )
            }
        },
    }
}

/// Stopping an instance with no process on record: a `Running` state is
/// corrected to `Ready`, and the answer is an error naming the instance.
pub fn stop_without_process(instance: &mut Instance) -> (e: LauncherError)
    ensures
        *final(instance) == (Instance {
            state: if old(instance).state == InstanceState::Running {
                InstanceState::Ready
            } else {
                old(instance).state
            },
            ..*old(instance)
        }),
        match e {
            LauncherError::Other(m) => m@ == "No hay proceso activo para la instancia "@ + old(
                instance,
            ).id@,
            _ => false,
        },
{
    if instance.state == InstanceState::Running {
        instance.state = InstanceState::Ready;
    }
    let mut m = String::from_str("No hay proceso activo para la instancia ");
    m.append(instance.id.as_str());
    LauncherError::Other(m)
}

/// `https://meta.fabricmc.net/v2/versions/loader/<mc>`.
pub fn fabric_versions_url(minecraft_version: &str) -> (r: String)
    ensures
        r@ == "https://meta.fabricmc.net/v2/versions/loader/"@ + minecraft_version@,
{
    let mut u = String::from_str("https://meta.fabricmc.net/v2/versions/loader/");
    u.append(minecraft_version);
    u
}

} // verus!
