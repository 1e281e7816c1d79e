//! Mod loader installation: what each installer fetches, where it puts it,
//! and what it reports.
use vstd::prelude::*;

use crate::error::LauncherError;
use crate::maven::{local_path_of, parse_coordinate, url_of, MavenArtifact};
use crate::platform::{path_join, path_join_result};
use crate::text::{str_eq, string_views};

verus! {

/// The HTTP client installers share (`reqwest::Client`); it is only carried.
#[verifier::external_type_specification]
#[verifier::external_body]
pub struct ExHttpClient(reqwest::Client);

/// What installing a loader gives: the main class, the extra arguments and
/// libraries, and what only the vanilla installer knows.
#[derive(Debug, Clone)]
pub struct LoaderInstallResult {
    pub main_class: String,
    pub extra_jvm_args: Vec<String>,
    pub extra_game_args: Vec<String>,
    pub libraries: Vec<String>,
    pub asset_index_id: Option<String>,
    pub asset_index_url: Option<String>,
    pub java_major: Option<u32>,
}

pub const FABRIC_MAVEN: &'static str = "https://maven.fabricmc.net";
pub const QUILT_MAVEN: &'static str = "https://maven.quiltmc.org/repository/release";
pub const MOJANG_LIBRARIES: &'static str = "https://libraries.minecraft.net";
pub const FORGE_MAVEN: &'static str = "https://maven.minecraftforge.net";
pub const NEOFORGE_MAVEN: &'static str = "https://maven.neoforged.net/releases";
pub const MAVEN_CENTRAL: &'static str = "https://repo1.maven.org/maven2";

/// Installs Vanilla: the official version JSON, client jar, libraries and assets.
pub struct VanillaInstaller {
    pub client: reqwest::Client,
}

impl VanillaInstaller {
    pub fn new(client: reqwest::Client) -> (r: VanillaInstaller)
        ensures
            r.client == client,
    {
        VanillaInstaller { client }
    }
}

/// A Fabric launch profile.
#[derive(Debug, Clone)]
pub struct FabricProfile {
    pub id: Option<String>,
    pub main_class: String,
    pub libraries: Vec<FabricLibrary>,
    pub arguments: Option<FabricArguments>,
}

#[derive(Debug, Clone)]
pub struct FabricLibrary {
    pub name: String,
    pub url: Option<String>,
}

#[derive(Debug, Clone)]
pub struct FabricArguments {
    pub jvm: Vec<String>,
    pub game: Vec<String>,
}

/// Installs Fabric through the Fabric Meta API.
pub struct FabricInstaller {
    pub client: reqwest::Client,
}

/// `<base>/versions/loader/<mc>/<loader>/profile/json`.
pub open spec fn profile_url_of(base: Seq<char>, mc: Seq<char>, loader: Seq<char>) -> Seq<char> {
    base + "/versions/loader/"@ + mc + "/"@ + loader + "/profile/json"@
}

fn profile_url(base: &str, mc: &str, loader: &str) -> (r: String)
    ensures
        r@ == profile_url_of(base@, mc@, loader@),
{
    let mut u = String::from_str(base);
    u.append("/versions/loader/");
    u.append(mc);
    u.append("/");
    u.append(loader);
    u.append("/profile/json");
    u
}

/// `<instance dir>/<prefix>-<mc>-<loader>.json`: where a loader profile is kept.
pub open spec fn profile_path_of(instance_dir: Seq<char>, prefix: Seq<char>, mc: Seq<char>, loader: Seq<char>) -> Seq<char> {
    path_join_result(instance_dir, prefix + "-"@ + mc + "-"@ + loader + ".json"@)
}

fn profile_path(instance_dir: &str, prefix: &str, mc: &str, loader: &str) -> (r: String)
    ensures
        r@ == profile_path_of(instance_dir@, prefix@, mc@, loader@),
{
    let mut name = String::from_str(prefix);
    name.append("-");
    name.append(mc);
    name.append("-");
    name.append(loader);
    name.append(".json");
    path_join(instance_dir, name.as_str())
}

/// `net.fabricmc:fabric-loader:<version>`.
pub open spec fn fabric_loader_coordinate(loader_version: Seq<char>) -> Seq<char> {
    "net.fabricmc:fabric-loader:"@ + loader_version
}

impl FabricInstaller {
    pub fn new(client: reqwest::Client) -> (r: FabricInstaller)
        ensures
            r.client == client,
    {
        FabricInstaller { client }
    }

    /// The Fabric Meta URL of the launch profile for a Minecraft and loader version.
    pub fn profile_url(minecraft_version: &str, loader_version: &str) -> (r: String)
        ensures
            r@ == profile_url_of("https://meta.fabricmc.net/v2"@, minecraft_version@, loader_version@),
    {
        profile_url("https://meta.fabricmc.net/v2", minecraft_version, loader_version)
    }

    /// Where the instance keeps its Fabric profile.
    pub fn profile_path(instance_dir: &str, minecraft_version: &str, loader_version: &str) -> (r: String)
        ensures
            r@ == profile_path_of(instance_dir@, "fabric"@, minecraft_version@, loader_version@),
    {
        profile_path(instance_dir, "fabric", minecraft_version, loader_version)
    }

    /// A profile without a main class cannot be launched.
    pub fn check_profile(profile: FabricProfile) -> (r: Result<FabricProfile, LauncherError>)
        ensures
            profile.main_class@.len() == 0 ==> r is Err && match r->Err_0 {
                LauncherError::LoaderApi(m) => m@ == "Fabric profile missing main_class"@,
                _ => false,
            },
            profile.main_class@.len() != 0 ==> r == Ok::<FabricProfile, LauncherError>(profile),
    {
        if crate::text::chars_of(profile.main_class.as_str()).len() == 0 {
            Err(LauncherError::LoaderApi(String::from_str("Fabric profile missing main_class")))
        } else {
            Ok(profile)
        }
    }

    /// Makes sure the Fabric loader itself is among the libraries.
    pub fn ensure_loader_artifact(libraries: &mut Vec<String>, loader_version: &str)
        ensures
            crate::launch_args::has_arg(string_views(old(libraries)@), fabric_loader_coordinate(loader_version@))
                ==> final(libraries)@ == old(libraries)@,
            !crate::launch_args::has_arg(string_views(old(libraries)@), fabric_loader_coordinate(loader_version@))
                ==> string_views(final(libraries)@) == string_views(old(libraries)@).push(
                fabric_loader_coordinate(loader_version@),
            ),
    {
        let mut coord = String::from_str("net.fabricmc:fabric-loader:");
        coord.append(loader_version);
        if crate::launch_args::contains_flag(libraries, coord.as_str()) {
            return;
        }
        let ghost before = string_views(libraries@);
        libraries.push(coord);
        assert(string_views(libraries@) =~= before.push(fabric_loader_coordinate(loader_version@)));
    }

    /// What installing Fabric reports: the profile's main class and
    /// arguments, and the installed libraries.
    pub fn install_result(profile: FabricProfile, libraries: Vec<String>) -> (r: LoaderInstallResult)
        ensures
            r.main_class == profile.main_class,
            r.libraries == libraries,
            match profile.arguments {
                Some(a) => r.extra_jvm_args == a.jvm && r.extra_game_args == a.game,
                None => r.extra_jvm_args@.len() == 0 && r.extra_game_args@.len() == 0,
            },
            r.asset_index_id is None,
            r.asset_index_url is None,
            r.java_major is None,
    {
        let (jvm, game) = match profile.arguments {
            Some(a) => (a.jvm, a.game),
            None => (Vec::new(), Vec::new()),
        };
        LoaderInstallResult {
            main_class: profile.main_class,
            extra_jvm_args: jvm,
            extra_game_args: game,
            libraries,
            asset_index_id: None,
            asset_index_url: None,
            java_major: None,
        }
    }
}

/// A library to fetch from a Maven repository when its file is missing.
#[derive(Debug, Clone)]
pub struct MavenFetch {
    /// The library's coordinate, as declared.
    pub name: String,
    /// Where the file goes: `<libraries>/<repository path>`.
    pub dest: String,
    /// Where it is fetched from.
    pub url: String,
}

/// The fetch of one declared library from `repo` (the library's own
/// repository, or the default one).
#[verifier::opaque]
pub open spec fn fetch_of(name: Seq<char>, repo: Option<Seq<char>>, default_repo: Seq<char>, libs_dir: Seq<char>) -> Option<(Seq<char>, Seq<char>, Seq<char>)> {
    match parse_coordinate(name) {
        Some(a) => Some(
            (
                name,
                path_join_result(libs_dir, local_path_of(a)),
                url_of(
                    a,
                    match repo {
                        Some(r) => r,
                        None => default_repo,
                    },
                ),
            ),
        ),
        None => None,
    }
}

pub open spec fn fetch_view(f: MavenFetch) -> (Seq<char>, Seq<char>, Seq<char>) {
    (f.name@, f.dest@, f.url@)
}

fn fetch_one(name: &String, repo: &Option<String>, default_repo: &str, libs_dir: &str) -> (r: Option<MavenFetch>)
    ensures
        match r {
            Some(f) => fetch_of(name@, crate::maven::opt_view(*repo), default_repo@, libs_dir@)
                == Some(fetch_view(f)),
            None => fetch_of(name@, crate::maven::opt_view(*repo), default_repo@, libs_dir@) is None,
        },
{
    reveal(fetch_of);
    let artifact = match MavenArtifact::parse(name.as_str()) {
        Ok(a) => a,
        Err(_) => return None,
    };
    let r: &str = match repo {
        Some(x) => x.as_str(),
        None => default_repo,
    };
    let local = artifact.local_path();
    Some(MavenFetch { name: name.clone(), dest: path_join(libs_dir, local.as_str()), url: artifact.url(r) })
}

/// The fetches of a list of `(coordinate, repository)` libraries; the first
/// coordinate that does not parse is the error.
pub fn plan_maven_fetches(
    libraries: &Vec<(String, Option<String>)>,
    default_repo: &str,
    libs_dir: &str,
) -> (r: Result<Vec<MavenFetch>, LauncherError>)
    ensures
        match r {
            Ok(v) => v@.len() == libraries@.len() && forall|i: int|
                0 <= i < v@.len() ==> fetch_of(
                    libraries@[i].0@,
                    crate::maven::opt_view(libraries@[i].1),
                    default_repo@,
                    libs_dir@,
                ) == Some(fetch_view(#[trigger] v@[i])),
            Err(e) => exists|i: int|
                0 <= i < libraries@.len() && fetch_of(
                    libraries@[i].0@,
                    crate::maven::opt_view(libraries@[i].1),
                    default_repo@,
                    libs_dir@,
                ) is None && (forall|j: int|
                    0 <= j < i ==> fetch_of(
                        libraries@[j].0@,
                        crate::maven::opt_view(libraries@[j].1),
                        default_repo@,
                        libs_dir@,
                    ) is Some) && match e {
                    LauncherError::InvalidMavenCoordinate(c) => c == libraries@[i].0,
                    _ => false,
                },
        },
{
    let mut out: Vec<MavenFetch> = Vec::new();
    let mut i: usize = 0;
    while i < libraries.len()
        invariant
            i <= libraries.len(),
            out@.len() == i,
            forall|j: int|
                0 <= j < i ==> fetch_of(
                    libraries@[j].0@,
                    crate::maven::opt_view(libraries@[j].1),
                    default_repo@,
                    libs_dir@,
                ) == Some(fetch_view(#[trigger] out@[j])),
        decreases libraries.len() - i,
    {
        let f = match fetch_one(&libraries[i].0, &libraries[i].1, default_repo, libs_dir) {
            Some(f) => f,
            None => {
                let e = LauncherError::InvalidMavenCoordinate(libraries[i].0.clone());
                assert forall|j: int|
                    0 <= j < i implies #[trigger] fetch_of(
                        libraries@[j].0@,
                        crate::maven::opt_view(libraries@[j].1),
                        default_repo@,
                        libs_dir@,
                    ) is Some by {
                    assert(fetch_of(
                        libraries@[j].0@,
                        crate::maven::opt_view(libraries@[j].1),
                        default_repo@,
                        libs_dir@,
                    ) == Some(fetch_view(out@[j])));
                }
                assert(match e {
                    LauncherError::InvalidMavenCoordinate(c) => c == libraries@[i as int].0,
                    _ => false,
                });
                return Err(e);
            },
        };
        out.push(f);
        i += 1;
    }
    Ok(out)
}

/// A Quilt launch profile.
#[derive(Debug, Clone)]
pub struct QuiltProfile {
    pub id: String,
    pub main_class: String,
    pub libraries: Vec<QuiltLibrary>,
    pub arguments: Option<QuiltArguments>,
}

#[derive(Debug, Clone)]
pub struct QuiltLibrary {
    pub name: String,
    pub url: Option<String>,
}

#[derive(Debug, Clone)]
pub struct QuiltArguments {
    pub jvm: Vec<String>,
    pub game: Vec<String>,
}

/// Installs Quilt through the Quilt Meta API.
pub struct QuiltInstaller {
    pub client: reqwest::Client,
}

impl QuiltInstaller {
    pub fn new(client: reqwest::Client) -> (r: QuiltInstaller)
        ensures
            r.client == client,
    {
        QuiltInstaller { client }
    }

    /// The Quilt Meta URL of the launch profile.
    pub fn profile_url(minecraft_version: &str, loader_version: &str) -> (r: String)
        ensures
            r@ == profile_url_of("https://meta.quiltmc.org/v3"@, minecraft_version@, loader_version@),
    {
        profile_url("https://meta.quiltmc.org/v3", minecraft_version, loader_version)
    }

    /// Where the instance keeps its Quilt profile.
    pub fn profile_path(instance_dir: &str, minecraft_version: &str, loader_version: &str) -> (r: String)
        ensures
            r@ == profile_path_of(instance_dir@, "quilt"@, minecraft_version@, loader_version@),
    {
        profile_path(instance_dir, "quilt", minecraft_version, loader_version)
    }

    /// The Quilt Meta URL that lists loader versions for a Minecraft version.
    pub fn versions_url(minecraft_version: &str) -> (r: String)
        ensures
            r@ == "https://meta.quiltmc.org/v3/versions/loader/"@ + minecraft_version@,
    {
        let mut u = String::from_str("https://meta.quiltmc.org/v3/versions/loader/");
        u.append(minecraft_version);
        u
    }

    /// What installing Quilt reports.
    pub fn install_result(profile: QuiltProfile, libraries: Vec<String>) -> (r: LoaderInstallResult)
        ensures
            r.main_class == profile.main_class,
            r.libraries == libraries,
            match profile.arguments {
                Some(a) => r.extra_jvm_args == a.jvm && r.extra_game_args == a.game,
                None => r.extra_jvm_args@.len() == 0 && r.extra_game_args@.len() == 0,
            },
            r.asset_index_id is None,
            r.asset_index_url is None,
            r.java_major is None,
    {
        let (jvm, game) = match profile.arguments {
            Some(a) => (a.jvm, a.game),
            None => (Vec::new(), Vec::new()),
        };
        LoaderInstallResult {
            main_class: profile.main_class,
            extra_jvm_args: jvm,
            extra_game_args: game,
            libraries,
            asset_index_id: None,
            asset_index_url: None,
            java_major: None,
        }
    }
}

/// A library named by a Forge or NeoForge installer.
#[derive(Debug, Clone)]
pub struct ForgeLibrary {
    pub name: String,
}

/// A processor an installer runs.
#[derive(Debug, Clone)]
pub struct ForgeProcessor {
    pub sides: Option<Vec<String>>,
    pub jar: String,
    pub classpath: Vec<String>,
    pub args: Vec<String>,
}

/// One entry of an install profile's `data` object: the strings found under
/// `client`, under `value`, or as the entry itself.
#[derive(Debug, Clone)]
pub struct ProfileDataEntry {
    pub key: String,
    pub client: Option<String>,
    pub value: Option<String>,
    pub text: Option<String>,
}

/// Forge's `install_profile.json`, as far as installation reads it.
#[derive(Debug, Clone)]
pub struct ForgeInstallProfile {
    pub libraries: Vec<ForgeLibrary>,
    pub processors: Vec<ForgeProcessor>,
    /// The `data` object (empty when it is not an object).
    pub data: Vec<ProfileDataEntry>,
}

/// The `version.json` inside a Forge installer.
#[derive(Debug, Clone)]
pub struct ForgeVersionJson {
    pub main_class: String,
    pub libraries: Vec<ForgeLibrary>,
}

/// Installs Forge by running its official installer.
pub struct ForgeInstaller;

impl ForgeInstaller {
    pub fn new(_client: reqwest::Client) -> (r: ForgeInstaller) {
        ForgeInstaller
    }
}

/// Where a Forge installer comes from and goes.
#[derive(Debug, Clone)]
pub struct InstallerLocation {
    /// `<mc>-<loader>`.
    pub forge_id: String,
    /// `forge-<id>-installer.jar`.
    pub installer_name: String,
    pub installer_url: String,
    pub installer_path: String,
}

/// `<mc>-<loader>`.
pub open spec fn forge_id_of(mc: Seq<char>, loader: Seq<char>) -> Seq<char> {
    mc + "-"@ + loader
}

/// The Forge installer of a Minecraft and loader version: its name, its URL
/// on Forge's Maven, and where it is saved in the instance.
pub fn forge_installer_location(minecraft_version: &str, loader_version: &str, instance_dir: &str) -> (r: InstallerLocation)
    ensures
        r.forge_id@ == forge_id_of(minecraft_version@, loader_version@),
        r.installer_name@ == "forge-"@ + r.forge_id@ + "-installer.jar"@,
        r.installer_url@ == FORGE_MAVEN@ + "/net/minecraftforge/forge/"@ + r.forge_id@ + "/"@
            + r.installer_name@,
        r.installer_path@ == path_join_result(instance_dir@, r.installer_name@),
{
    let mut forge_id = String::from_str(minecraft_version);
    forge_id.append("-");
    forge_id.append(loader_version);
    let mut installer_name = String::from_str("forge-");
    installer_name.append(forge_id.as_str());
    installer_name.append("-installer.jar");
    let mut installer_url = String::from_str(FORGE_MAVEN);
    installer_url.append("/net/minecraftforge/forge/");
    installer_url.append(forge_id.as_str());
    installer_url.append("/");
    installer_url.append(installer_name.as_str());
    let installer_path = path_join(instance_dir, installer_name.as_str());
    InstallerLocation { forge_id, installer_name, installer_url, installer_path }
}

/// `<instance>/minecraft/versions/<id>/<id>.json`: the version JSON an installer writes.
pub fn installed_version_path(instance_dir: &str, version_id: &str) -> (r: String)
    ensures
        r@ == path_join_result(
            path_join_result(
                path_join_result(path_join_result(instance_dir@, "minecraft"@), "versions"@),
                version_id@,
            ),
            version_id@ + ".json"@,
        ),
{
    let mc = path_join(instance_dir, "minecraft");
    let versions = path_join(mc.as_str(), "versions");
    let dir = path_join(versions.as_str(), version_id);
    let mut name = String::from_str(version_id);
    name.append(".json");
    path_join(dir.as_str(), name.as_str())
}

/// The exit code as `{:?}` writes an `Option<i32>`.
pub open spec fn exit_code_text(code: Option<i32>) -> Seq<char> {
    match code {
        Some(c) => "Some("@ + (if c < 0 {
            "-"@ + crate::text::decimal((-c) as nat)
        } else {
            crate::text::decimal(c as nat)
        }) + ")"@,
        None => "None"@,
    }
}

fn exit_code_debug(code: Option<i32>) -> (r: String)
    ensures
        r@ == exit_code_text(code),
{
    match code {
        Some(c) => {
            let mut r = String::from_str("Some(");
            if c < 0 {
                r.append("-");
                let m: i64 = -(c as i64);
                r.append(crate::text::u64_to_decimal(m as u64).as_str());
            } else {
                r.append(crate::text::u64_to_decimal(c as u64).as_str());
            }
            r.append(")");
            r
        },
        None => String::from_str("None"),
    }
}

/// `<what> failed (code <code>)\nSTDOUT:\n<out>\nSTDERR:\n<err>`.
pub open spec fn failure_text(what: Seq<char>, code: Option<i32>, stdout: Seq<char>, stderr: Seq<char>) -> Seq<char> {
    what + " failed (code "@ + exit_code_text(code) + ")\nSTDOUT:\n"@ + stdout + "\nSTDERR:\n"@
        + stderr
}

/// The loader error of a failed installer or processor run; `what` names it
/// (such as `Forge installer` or `Forge processor <jar>`).
pub fn run_failure(what: &str, code: Option<i32>, stdout: &str, stderr: &str) -> (e: LauncherError)
    ensures
        match e {
            LauncherError::Loader(m) => m@ == failure_text(what@, code, stdout@, stderr@),
            _ => false,
        },
{
    let mut m = String::from_str(what);
    m.append(" failed (code ");
    m.append(exit_code_debug(code).as_str());
    m.append(")\nSTDOUT:\n");
    m.append(stdout);
    m.append("\nSTDERR:\n");
    m.append(stderr);
    LauncherError::Loader(m)
}

pub open spec fn library_names(libs: Seq<ForgeLibrary>) -> Seq<Seq<char>> {
    libs.map_values(|l: ForgeLibrary| l.name@)
}

fn push_names(out: &mut Vec<String>, libs: &Vec<ForgeLibrary>)
    ensures
        string_views(final(out)@) == string_views(old(out)@) + library_names(libs@),
{
    let ghost start = string_views(out@);
    let mut i: usize = 0;
    while i < libs.len()
        invariant
            i <= libs.len(),
            string_views(out@) == start + library_names(libs@).take(i as int),
        decreases libs.len() - i,
    {
        let ghost before = string_views(out@);
        out.push(libs[i].name.clone());
        assert(string_views(out@) =~= before.push(libs@[i as int].name@));
        assert(library_names(libs@).take(i + 1) =~= library_names(libs@).take(i as int).push(
            libs@[i as int].name@,
        ));
        i += 1;
    }
    assert(library_names(libs@).take(libs.len() as int) =~= library_names(libs@));
}

/// The libraries an installation records: those of the install profile, of
/// the installer's version JSON, and `more` (those of the installed version),
/// each once and sorted.
pub fn installer_library_set(profile_libs: &Vec<ForgeLibrary>, version_libs: &Vec<ForgeLibrary>, more: &Vec<String>) -> (r: Vec<String>)
    ensures
        crate::sorting::strictly_ascending(string_views(r@), crate::sorting::Rank::Text),
        forall|x: Seq<char>|
            #[trigger] string_views(r@).contains(x) <==> (library_names(profile_libs@).contains(x)
                || library_names(version_libs@).contains(x) || string_views(more@).contains(x)),
{
    let mut all: Vec<String> = Vec::new();
    push_names(&mut all, profile_libs);
    push_names(&mut all, version_libs);
    let ghost a = library_names(profile_libs@);
    let ghost b = library_names(version_libs@);
    let ghost c = string_views(more@);
    let mut i: usize = 0;
    let ghost start = string_views(all@);
    while i < more.len()
        invariant
            i <= more.len(),
            c == string_views(more@),
            string_views(all@) == start + c.take(i as int),
        decreases more.len() - i,
    {
        let ghost before = string_views(all@);
        all.push(more[i].clone());
        assert(string_views(all@) =~= before.push(c[i as int]));
        assert(c.take(i + 1) =~= c.take(i as int).push(c[i as int]));
        i += 1;
    }
    assert(c.take(more.len() as int) =~= c);
    assert(string_views(all@) =~= a + b + c);
    let r = crate::sorting::sorted_unique(&all, crate::sorting::Rank::Text);
    proof {
        let all_v = a + b + c;
        assert forall|x: Seq<char>| #[trigger] all_v.contains(x) == (a.contains(x) || b.contains(x)
            || c.contains(x)) by {
            if all_v.contains(x) {
                let q = choose|q: int| 0 <= q < all_v.len() && all_v[q] == x;
                if q < a.len() {
                    assert(a[q] == x);
                } else if q < a.len() + b.len() {
                    assert(b[q - a.len()] == x);
                } else {
                    assert(c[q - a.len() - b.len()] == x);
                }
            }
            if a.contains(x) {
                let q = choose|q: int| 0 <= q < a.len() && a[q] == x;
                assert(all_v[q] == x);
            }
            if b.contains(x) {
                let q = choose|q: int| 0 <= q < b.len() && b[q] == x;
                assert(all_v[q + a.len()] == x);
            }
            if c.contains(x) {
                let q = choose|q: int| 0 <= q < c.len() && c[q] == x;
                assert(all_v[q + a.len() + b.len()] == x);
            }
        }
        assert(crate::sorting::same_texts(string_views(r@), all_v));
    }
    r
}

/// A library to fetch from a primary repository, then a fallback one.
#[derive(Debug, Clone)]
pub struct FallbackFetch {
    pub dest: String,
    pub primary_url: String,
    pub fallback_url: String,
}

/// The fetch of a library coordinate, if it is one (paths are left alone).
pub open spec fn fallback_fetch_of(name: Seq<char>, libs_dir: Seq<char>, primary: Seq<char>, fallback: Seq<char>) -> Option<(Seq<char>, Seq<char>, Seq<char>)> {
    match parse_coordinate(name) {
        Some(a) => Some((path_join_result(libs_dir, local_path_of(a)), url_of(a, primary), url_of(a, fallback))),
        None => None,
    }
}

pub open spec fn fallback_fetches(names: Seq<Seq<char>>, libs_dir: Seq<char>, primary: Seq<char>, fallback: Seq<char>) -> Seq<(Seq<char>, Seq<char>, Seq<char>)>
    decreases names.len(),
{
    if names.len() == 0 {
        Seq::empty()
    } else {
        let rest = fallback_fetches(names.drop_last(), libs_dir, primary, fallback);
        match fallback_fetch_of(names.last(), libs_dir, primary, fallback) {
            Some(f) => rest.push(f),
            None => rest,
        }
    }
}

fn fallback_fetch_one(name: &str, libs_dir: &str, primary: &str, fallback: &str) -> (r: Option<FallbackFetch>)
    ensures
        match r {
            Some(f) => fallback_fetch_of(name@, libs_dir@, primary@, fallback@) == Some(
                (f.dest@, f.primary_url@, f.fallback_url@),
            ),
            None => fallback_fetch_of(name@, libs_dir@, primary@, fallback@) is None,
        },
{
    match MavenArtifact::parse(name) {
        Ok(a) => {
            let local = a.local_path();
            Some(
                FallbackFetch {
                    dest: path_join(libs_dir, local.as_str()),
                    primary_url: a.url(primary),
                    fallback_url: a.url(fallback),
                },
            )
        },
        Err(_) => None,
    }
}

/// The fetches of the recorded libraries that are Maven coordinates, in order:
/// from `primary`, else from `fallback`.
pub fn plan_fallback_fetches(names: &Vec<String>, libs_dir: &str, primary: &str, fallback: &str) -> (r: Vec<FallbackFetch>)
    ensures
        r@.map_values(|f: FallbackFetch| (f.dest@, f.primary_url@, f.fallback_url@))
            == fallback_fetches(string_views(names@), libs_dir@, primary@, fallback@),
{
    let ghost nv = string_views(names@);
    let mut out: Vec<FallbackFetch> = Vec::new();
    let mut i: usize = 0;
    while i < names.len()
        invariant
            i <= names.len(),
            nv == string_views(names@),
            out@.map_values(|f: FallbackFetch| (f.dest@, f.primary_url@, f.fallback_url@))
                == fallback_fetches(nv.take(i as int), libs_dir@, primary@, fallback@),
        decreases names.len() - i,
    {
        assert(nv.take(i + 1).drop_last() =~= nv.take(i as int));
        let ghost before = out@.map_values(|f: FallbackFetch| (f.dest@, f.primary_url@, f.fallback_url@));
        match fallback_fetch_one(names[i].as_str(), libs_dir, primary, fallback) {
            Some(f) => {
                out.push(f);
                assert(out@.map_values(|f: FallbackFetch| (f.dest@, f.primary_url@, f.fallback_url@))
                    =~= before.push((out@[out@.len() - 1].dest@, out@[out@.len() - 1].primary_url@, out@[out@.len() - 1].fallback_url@)));
            },
            None => {},
        }
        i += 1;
    }
    assert(nv.take(names.len() as int) =~= nv);
    out
}

/// Position of the entry for `key`, or -1.
pub open spec fn var_pos(vars: Seq<(Seq<char>, Seq<char>)>, key: Seq<char>, i: int) -> int
    decreases vars.len() - i,
{
    if i < 0 || i >= vars.len() {
        -1
    } else if vars[i].0 == key {
        i
    } else {
        var_pos(vars, key, i + 1)
    }
}

/// The variables with `key` set to `value`: an existing entry is changed in
/// place, a new one goes last.
pub open spec fn insert_var(vars: Seq<(Seq<char>, Seq<char>)>, key: Seq<char>, value: Seq<char>) -> Seq<(Seq<char>, Seq<char>)> {
    let p = var_pos(vars, key, 0);
    if p < 0 {
        vars.push((key, value))
    } else {
        vars.update(p, (key, value))
    }
}

pub open spec fn var_views(v: Seq<(String, String)>) -> Seq<(Seq<char>, Seq<char>)> {
    v.map_values(|e: (String, String)| (e.0@, e.1@))
}

proof fn lemma_var_pos_bounds(vars: Seq<(Seq<char>, Seq<char>)>, key: Seq<char>, i: int)
    requires
        0 <= i,
    ensures
        var_pos(vars, key, i) == -1 || (i <= var_pos(vars, key, i) < vars.len() && vars[var_pos(
            vars,
            key,
            i,
        )].0 == key),
    decreases vars.len() - i,
{
    if i < vars.len() && vars[i].0 != key {
        lemma_var_pos_bounds(vars, key, i + 1);
    }
}

/// Sets a processor variable.
pub fn set_var(vars: &mut Vec<(String, String)>, key: &str, value: &str)
    ensures
        var_views(final(vars)@) == insert_var(var_views(old(vars)@), key@, value@),
{
    let ghost vv = var_views(vars@);
    let mut i: usize = 0;
    while i < vars.len()
        invariant
            i <= vars.len(),
            vv == var_views(vars@),
            vars@ == old(vars)@,
            var_pos(vv, key@, 0) == var_pos(vv, key@, i as int),
        decreases vars.len() - i,
    {
        if str_eq(vars[i].0.as_str(), key) {
            proof {
                assert(vv[i as int].0 == key@);
                assert(var_pos(vv, key@, i as int) == i);
            }
            vars.set(i, (String::from_str(key), String::from_str(value)));
            assert(var_views(vars@) =~= vv.update(i as int, (key@, value@)));
            return;
        }
        i += 1;
    }
    vars.push((String::from_str(key), String::from_str(value)));
    assert(var_views(vars@) =~= vv.push((key@, value@)));
}

/// The string a data entry stands for: under `client`, else under `value`,
/// else the entry itself when it is a string.
pub open spec fn data_value(e: ProfileDataEntry) -> Option<Seq<char>> {
    match e.client {
        Some(c) => Some(c@),
        None => match e.value {
            Some(v) => Some(v@),
            None => match e.text {
                Some(t) => Some(t@),
                None => None,
            },
        },
    }
}

pub open spec fn with_data(vars: Seq<(Seq<char>, Seq<char>)>, data: Seq<ProfileDataEntry>) -> Seq<(Seq<char>, Seq<char>)>
    decreases data.len(),
{
    if data.len() == 0 {
        vars
    } else {
        let prev = with_data(vars, data.drop_last());
        match data_value(data.last()) {
            Some(v) => insert_var(prev, data.last().key@, v),
            None => prev,
        }
    }
}

/// Adds the install profile's data entries to the processor variables.
pub fn merge_profile_data_variables(vars: &mut Vec<(String, String)>, data: &Vec<ProfileDataEntry>)
    ensures
        var_views(final(vars)@) == with_data(var_views(old(vars)@), data@),
{
    let ghost start = var_views(vars@);
    let mut i: usize = 0;
    while i < data.len()
        invariant
            i <= data.len(),
            var_views(vars@) == with_data(start, data@.take(i as int)),
        decreases data.len() - i,
    {
        assert(data@.take(i + 1).drop_last() =~= data@.take(i as int));
        let e = &data[i];
        let v: Option<&String> = match &e.client {
            Some(c) => Some(c),
            None => match &e.value {
                Some(x) => Some(x),
                None => match &e.text {
                    Some(t) => Some(t),
                    None => None,
                },
            },
        };
        match v {
            Some(v) => set_var(vars, e.key.as_str(), v.as_str()),
            None => {},
        }
        i += 1;
    }
    assert(data@.take(data.len() as int) =~= data@);
}

pub open spec fn with_vars(vars: Seq<(Seq<char>, Seq<char>)>, more: Seq<(Seq<char>, Seq<char>)>) -> Seq<(Seq<char>, Seq<char>)>
    decreases more.len(),
{
    if more.len() == 0 {
        vars
    } else {
        insert_var(with_vars(vars, more.drop_last()), more.last().0, more.last().1)
    }
}

/// Sets each of `runtime_vars`, in order.
pub fn merge_runtime_processor_variables(vars: &mut Vec<(String, String)>, runtime_vars: &Vec<(String, String)>)
    ensures
        var_views(final(vars)@) == with_vars(var_views(old(vars)@), var_views(runtime_vars@)),
{
    let ghost start = var_views(vars@);
    let ghost rv = var_views(runtime_vars@);
    let mut i: usize = 0;
    while i < runtime_vars.len()
        invariant
            i <= runtime_vars.len(),
            rv == var_views(runtime_vars@),
            var_views(vars@) == with_vars(start, rv.take(i as int)),
        decreases runtime_vars.len() - i,
    {
        assert(rv.take(i + 1).drop_last() =~= rv.take(i as int));
        set_var(vars, runtime_vars[i].0.as_str(), runtime_vars[i].1.as_str());
        i += 1;
    }
    assert(rv.take(runtime_vars.len() as int) =~= rv);
}

/// The variables the launcher itself gives processors.
pub open spec fn runtime_vars_of(instance_dir: Seq<char>, libs_dir: Seq<char>, installer_path: Seq<char>, binpatch: Option<Seq<char>>) -> Seq<(Seq<char>, Seq<char>)> {
    let base = seq![
        ("SIDE"@, "client"@),
        ("MINECRAFT_JAR"@, path_join_result(instance_dir, "client.jar"@)),
        ("LIBRARY_DIR"@, libs_dir),
        ("INSTALLER"@, installer_path),
        ("ROOT"@, instance_dir),
    ];
    match binpatch {
        Some(b) => base.push(("BINPATCH"@, b)),
        None => base,
    }
}

/// `SIDE`, `MINECRAFT_JAR`, `LIBRARY_DIR`, `INSTALLER`, `ROOT`, and `BINPATCH`
/// when the installer carries client patches.
pub fn build_processor_variables(instance_dir: &str, libs_dir: &str, installer_path: &str, binpatch: Option<String>) -> (r: Vec<(String, String)>)
    ensures
        var_views(r@) == runtime_vars_of(
            instance_dir@,
            libs_dir@,
            installer_path@,
            crate::maven::opt_view(binpatch),
        ),
{
    let mut r: Vec<(String, String)> = Vec::new();
    r.push((String::from_str("SIDE"), String::from_str("client")));
    r.push((String::from_str("MINECRAFT_JAR"), path_join(instance_dir, "client.jar")));
    r.push((String::from_str("LIBRARY_DIR"), String::from_str(libs_dir)));
    r.push((String::from_str("INSTALLER"), String::from_str(installer_path)));
    r.push((String::from_str("ROOT"), String::from_str(instance_dir)));
    match binpatch {
        Some(b) => r.push((String::from_str("BINPATCH"), b)),
        None => {},
    }
    assert(var_views(r@) =~= runtime_vars_of(
        instance_dir@,
        libs_dir@,
        installer_path@,
        crate::maven::opt_view(binpatch),
    ));
    r
}

/// The installer entry that holds the client's binary patches: the first
/// whose name ends with `client.lzma` or `client-binpatches.lzma`.
pub open spec fn binpatch_index(names: Seq<Seq<char>>, i: int) -> int
    decreases names.len() - i,
{
    if i < 0 || i >= names.len() {
        -1
    } else if crate::text::seq_ends_with(names[i], "client.lzma"@) || crate::text::seq_ends_with(
        names[i],
        "client-binpatches.lzma"@,
    ) {
        i
    } else {
        binpatch_index(names, i + 1)
    }
}

/// The position of the client binary patches among an installer's entries.
pub fn find_binpatch_entry(names: &Vec<String>) -> (r: Option<usize>)
    ensures
        match r {
            Some(i) => i == binpatch_index(string_views(names@), 0),
            None => binpatch_index(string_views(names@), 0) == -1,
        },
{
    let ghost nv = string_views(names@);
    let mut i: usize = 0;
    while i < names.len()
        invariant
            i <= names.len(),
            nv == string_views(names@),
            binpatch_index(nv, 0) == binpatch_index(nv, i as int),
        decreases names.len() - i,
    {
        if crate::text::str_ends_with(names[i].as_str(), "client.lzma")
            || crate::text::str_ends_with(names[i].as_str(), "client-binpatches.lzma") {
            return Some(i);
        }
        i += 1;
    }
    None
}

/// Whether a processor runs for the client: it names no sides, or `client`
/// among them.
pub open spec fn runs_on_client(p: ForgeProcessor) -> bool {
    match p.sides {
        None => true,
        Some(s) => string_views(s@).contains("client"@),
    }
}

impl ForgeProcessor {
    /// Whether the processor runs when installing a client.
    pub fn runs_on_client(&self) -> (b: bool)
        ensures
            b == runs_on_client(*self),
    {
        match &self.sides {
            None => true,
            Some(s) => {
                let r = crate::launch_args::contains_flag(s, "client");
                proof {
                    if r {
                        let i = choose|i: int| 0 <= i < s@.len() && string_views(s@)[i] == "client"@;
                        assert(string_views(s@).contains("client"@));
                    } else {
                        if string_views(s@).contains("client"@) {
                            let i = choose|i: int| 0 <= i < s@.len() && string_views(s@)[i] == "client"@;
                        }
                    }
                }
                r
            },
        }
    }
}

/// `{key}` for each variable, and its value.
pub open spec fn brace_patterns(vars: Seq<(Seq<char>, Seq<char>)>) -> Seq<Seq<char>> {
    vars.map_values(|e: (Seq<char>, Seq<char>)| "{"@ + e.0 + "}"@)
}

pub open spec fn var_values(vars: Seq<(Seq<char>, Seq<char>)>) -> Seq<Seq<char>> {
    vars.map_values(|e: (Seq<char>, Seq<char>)| e.1)
}

/// A processor argument with `{KEY}` replaced by each variable in turn; an
/// argument that is then a bracketed coordinate becomes that library's path.
pub open spec fn processor_arg_of(arg: Seq<char>, vars: Seq<(Seq<char>, Seq<char>)>, libs_dir: Seq<char>) -> Option<Seq<char>> {
    let out = crate::launch_args::resolve_all(arg, brace_patterns(vars), var_values(vars));
    if out.len() >= 2 && out[0] == '[' && out.last() == ']' {
        match parse_coordinate(out.subrange(1, out.len() - 1)) {
            Some(a) => Some(path_join_result(libs_dir, local_path_of(a))),
            None => None,
        }
    } else {
        Some(out)
    }
}

/// Resolves a processor argument; a bracketed coordinate that does not parse
/// is an invalid coordinate.
pub fn resolve_processor_arg(arg: &str, vars: &Vec<(String, String)>, libs_dir: &str) -> (r: Result<String, LauncherError>)
    ensures
        match r {
            Ok(s) => processor_arg_of(arg@, var_views(vars@), libs_dir@) == Some(s@),
            Err(e) => processor_arg_of(arg@, var_views(vars@), libs_dir@) is None && e is InvalidMavenCoordinate,
        },
{
    let mut pats: Vec<String> = Vec::new();
    let mut vals: Vec<String> = Vec::new();
    let ghost vv = var_views(vars@);
    let mut i: usize = 0;
    while i < vars.len()
        invariant
            i <= vars.len(),
            vv == var_views(vars@),
            string_views(pats@) == brace_patterns(vv).take(i as int),
            string_views(vals@) == var_values(vv).take(i as int),
            pats@.len() == i,
            vals@.len() == i,
        decreases vars.len() - i,
    {
        let mut p = String::from_str("{");
        p.append(vars[i].0.as_str());
        p.append("}");
        let ghost bp = string_views(pats@);
        let ghost bv = string_views(vals@);
        pats.push(p);
        vals.push(vars[i].1.clone());
        assert(string_views(pats@) =~= bp.push("{"@ + vv[i as int].0 + "}"@));
        assert(string_views(vals@) =~= bv.push(vv[i as int].1));
        assert(brace_patterns(vv).take(i + 1) =~= brace_patterns(vv).take(i as int).push(
            "{"@ + vv[i as int].0 + "}"@,
        ));
        assert(var_values(vv).take(i + 1) =~= var_values(vv).take(i as int).push(vv[i as int].1));
        i += 1;
    }
    assert(brace_patterns(vv).take(vars.len() as int) =~= brace_patterns(vv));
    assert(var_values(vv).take(vars.len() as int) =~= var_values(vv));
    let out = crate::launch_args::resolve_placeholders(arg, &pats, &vals);
    let v = crate::text::chars_of(out.as_str());
    let n = v.len();
    if n >= 2 && v[0] == '[' && v[n - 1] == ']' {
        let inner = crate::text::copy_range(&v, 1, n - 1);
        let coord = crate::text::string_from_chars(inner.as_slice());
        match MavenArtifact::parse(coord.as_str()) {
            Ok(a) => {
                let local = a.local_path();
                Ok(path_join(libs_dir, local.as_str()))
            },
            Err(e) => Err(e),
        }
    } else {
        Ok(out)
    }
}

/// A processor's jar and the candidate entries of its classpath, as paths
/// under the libraries directory.
#[derive(Debug, Clone)]
pub struct ProcessorPaths {
    pub jar_path: String,
    /// The classpath libraries' paths, in order; those that exist are used.
    pub classpath: Vec<String>,
}

/// Where a coordinate's file is under the libraries directory.
pub open spec fn library_path_of(coord: Seq<char>, libs_dir: Seq<char>) -> Option<Seq<char>> {
    match parse_coordinate(coord) {
        Some(a) => Some(path_join_result(libs_dir, local_path_of(a))),
        None => None,
    }
}

fn library_path(coord: &str, libs_dir: &str) -> (r: Result<String, LauncherError>)
    ensures
        match r {
            Ok(p) => library_path_of(coord@, libs_dir@) == Some(p@),
            Err(e) => library_path_of(coord@, libs_dir@) is None && e is InvalidMavenCoordinate,
        },
{
    match MavenArtifact::parse(coord) {
        Ok(a) => {
            let local = a.local_path();
            Ok(path_join(libs_dir, local.as_str()))
        },
        Err(e) => Err(e),
    }
}

/// The paths of a processor's jar and classpath; a coordinate that does not
/// parse is an error.
pub fn processor_paths(p: &ForgeProcessor, libs_dir: &str) -> (r: Result<ProcessorPaths, LauncherError>)
    ensures
        match r {
            Ok(pp) => library_path_of(p.jar@, libs_dir@) == Some(pp.jar_path@) && pp.classpath@.len()
                == p.classpath@.len() && forall|i: int|
                0 <= i < pp.classpath@.len() ==> library_path_of(p.classpath@[i]@, libs_dir@)
                    == Some(#[trigger] pp.classpath@[i]@),
            Err(e) => e is InvalidMavenCoordinate && (library_path_of(p.jar@, libs_dir@) is None
                || exists|i: int|
                0 <= i < p.classpath@.len() && library_path_of(#[trigger] p.classpath@[i]@, libs_dir@)
                    is None),
        },
{
    let jar_path = match library_path(p.jar.as_str(), libs_dir) {
        Ok(x) => x,
        Err(e) => return Err(e),
    };
    let mut cp: Vec<String> = Vec::new();
    let mut i: usize = 0;
    while i < p.classpath.len()
        invariant
            i <= p.classpath.len(),
            cp@.len() == i,
            forall|j: int|
                0 <= j < i ==> library_path_of(p.classpath@[j]@, libs_dir@) == Some(#[trigger] cp@[j]@),
        decreases p.classpath.len() - i,
    {
        match library_path(p.classpath[i].as_str(), libs_dir) {
            Ok(x) => cp.push(x),
            Err(e) => {
                assert(library_path_of(p.classpath@[i as int]@, libs_dir@) is None);
                return Err(e);
            },
        }
        i += 1;
    }
    Ok(ProcessorPaths { jar_path, classpath: cp })
}

/// The paths whose flag says they exist, in order.
pub open spec fn existing_entries(paths: Seq<Seq<char>>, present: Seq<bool>) -> Seq<Seq<char>>
    decreases paths.len(),
{
    if paths.len() == 0 || present.len() == 0 {
        seq![]
    } else {
        let before = existing_entries(paths.drop_last(), present.drop_last());
        if present.last() {
            before.push(paths.last())
        } else {
            before
        }
    }
}

/// The classpath a processor runs with: its jar when it exists, then the
/// classpath libraries that exist.
pub open spec fn processor_entries(paths: ProcessorPaths, jar_exists: bool, present: Seq<bool>) -> Seq<Seq<char>> {
    (if jar_exists {
        seq![paths.jar_path@]
    } else {
        seq![]
    }) + existing_entries(string_views(paths.classpath@), present)
}

/// The classpath of a processor, given which of its files exist
/// (`present[i]` for `paths.classpath[i]`). A missing jar fails with
/// `Missing Forge processor JAR: <jar>` unless a main class can be had
/// without it (`has_fallback_main`); an empty classpath fails with
/// `Classpath vacío para procesador NeoForge <processor jar coordinate>`.
pub fn processor_classpath(
    processor_jar: &str,
    paths: &ProcessorPaths,
    jar_exists: bool,
    present: &Vec<bool>,
    has_fallback_main: bool,
) -> (r: Result<Vec<String>, LauncherError>)
    requires
        present@.len() == paths.classpath@.len(),
    ensures
        !jar_exists && !has_fallback_main ==> (r is Err && match r->Err_0 {
            LauncherError::Loader(m) => m@ == "Missing Forge processor JAR: "@ + paths.jar_path@,
            _ => false,
        }),
        (jar_exists || has_fallback_main) && processor_entries(*paths, jar_exists, present@).len() == 0
            ==> (r is Err && match r->Err_0 {
            LauncherError::Other(m) => m@ == "Classpath vacío para procesador NeoForge "@ + processor_jar@,
            _ => false,
        }),
        (jar_exists || has_fallback_main) && processor_entries(*paths, jar_exists, present@).len() > 0
            ==> (r is Ok && string_views(r->Ok_0@) == processor_entries(*paths, jar_exists, present@)),
{
    let mut entries: Vec<String> = Vec::new();
    if jar_exists {
        entries.push(paths.jar_path.clone());
    } else if !has_fallback_main {
        let mut m = String::from_str("Missing Forge processor JAR: ");
        m.append(paths.jar_path.as_str());
        return Err(LauncherError::Loader(m));
    }
    let ghost head = string_views(entries@);
    assert(head =~= (if jar_exists {
        seq![paths.jar_path@]
    } else {
        seq![]
    }));
    let ghost cp = string_views(paths.classpath@);
    let mut i: usize = 0;
    while i < paths.classpath.len()
        invariant
            i <= paths.classpath@.len(),
            present@.len() == paths.classpath@.len(),
            cp == string_views(paths.classpath@),
            string_views(entries@) == head + existing_entries(cp.take(i as int), present@.take(i as int)),
        decreases paths.classpath@.len() - i,
    {
        let ghost before = string_views(entries@);
        assert(cp.take(i + 1).drop_last() =~= cp.take(i as int));
        assert(present@.take(i + 1).drop_last() =~= present@.take(i as int));
        assert(cp.take(i + 1).last() == paths.classpath@[i as int]@);
        if present[i] {
            entries.push(paths.classpath[i].clone());
            assert(string_views(entries@) =~= before.push(paths.classpath@[i as int]@));
        }
        i += 1;
    }
    assert(cp.take(cp.len() as int) =~= cp);
    assert(present@.take(present@.len() as int) =~= present@);
    if entries.len() == 0 {
        let mut m = String::from_str("Classpath vacío para procesador NeoForge ");
        m.append(processor_jar);
        return Err(LauncherError::Other(m));
    }
    Ok(entries)
}

/// The main class a processor runs: the one its jar's manifest names, else
/// the fallback; with neither, the manifest's error.
pub fn processor_main_class(from_manifest: Result<String, LauncherError>, fallback: Option<&str>) -> (r: Result<
    String,
    LauncherError,
>)
    ensures
        match from_manifest {
            Ok(m) => r == Ok::<String, LauncherError>(m),
            Err(e) => match fallback {
                Some(f) => r is Ok && r->Ok_0@ == f@,
                None => r == Err::<String, LauncherError>(e),
            },
        },
{
    match from_manifest {
        Ok(m) => Ok(m),
        Err(e) => match fallback {
            Some(f) => Ok(String::from_str(f)),
            None => Err(e),
        },
    }
}

/// A line without the `\r` of a `\r\n` ending.
pub open spec fn strip_cr(l: Seq<char>) -> Seq<char> {
    if l.len() > 0 && l.last() == '\r' {
        l.drop_last()
    } else {
        l
    }
}

/// The lines of a text, as `str::lines` gives them.
pub open spec fn lines_of(text: Seq<char>) -> Seq<Seq<char>> {
    let segs = crate::text::split_spec(text, crate::text::Sep::Char('\n'));
    let ended = segs.drop_last().map_values(|l: Seq<char>| strip_cr(l));
    if segs.last().len() == 0 {
        ended
    } else {
        ended.push(segs.last())
    }
}

/// The lines of a text (`str::lines`).
pub fn text_lines(text: &str) -> (r: Vec<String>)
    ensures
        string_views(r@) == lines_of(text@),
{
    let v = crate::text::chars_of(text);
    let segs = crate::text::split_chars(&v, crate::text::Sep::Char('\n'));
    proof {
        crate::text::lemma_split_nonempty(text@, crate::text::Sep::Char('\n'));
    }
    let ghost sv = crate::text::views(segs@);
    let n = segs.len();
    let mut out: Vec<String> = Vec::new();
    let mut i: usize = 0;
    while i + 1 < n
        invariant
            n == segs.len(),
            n >= 1,
            i + 1 <= n,
            sv == crate::text::views(segs@),
            string_views(out@) == sv.drop_last().map_values(|l: Seq<char>| strip_cr(l)).take(i as int),
        decreases n - i,
    {
        let seg = &segs[i];
        let m = seg.len();
        let line = if m > 0 && seg[m - 1] == '\r' {
            crate::text::copy_range(seg, 0, m - 1)
        } else {
            crate::text::copy_range(seg, 0, m)
        };
        assert(line@ =~= strip_cr(sv[i as int]));
        let ghost before = string_views(out@);
        out.push(crate::text::string_from_chars(line.as_slice()));
        assert(string_views(out@) =~= before.push(strip_cr(sv[i as int])));
        assert(sv.drop_last().map_values(|l: Seq<char>| strip_cr(l)).take(i + 1) =~= sv.drop_last().map_values(
            |l: Seq<char>| strip_cr(l),
        ).take(i as int).push(strip_cr(sv[i as int])));
        i += 1;
    }
    assert(sv.drop_last().map_values(|l: Seq<char>| strip_cr(l)).take(i as int) =~= sv.drop_last().map_values(
        |l: Seq<char>| strip_cr(l),
    ));
    let last = &segs[n - 1];
    if last.len() > 0 {
        let ghost before = string_views(out@);
        out.push(crate::text::string_from_chars(last.as_slice()));
        assert(string_views(out@) =~= before.push(sv.last()));
    }
    out
}

/// What reading a manifest has found so far: the main class, and the key of
/// the last header line (continuation lines extend it).
pub open spec fn manifest_state(lines: Seq<Seq<char>>) -> (Option<Seq<char>>, Option<Seq<char>>)
    decreases lines.len(),
{
    if lines.len() == 0 {
        (None, None)
    } else {
        let (main, key) = manifest_state(lines.drop_last());
        let line = lines.last();
        if line.len() > 0 && line[0] == ' ' {
            if key == Some("Main-Class"@) && main is Some {
                (Some(main->0 + trim_spec_of(line.skip(1))), key)
            } else {
                (main, key)
            }
        } else {
            let c = crate::text::first_index_of(line, ':');
            if c < line.len() {
                let k = trim_spec_of(line.take(c));
                if k == "Main-Class"@ {
                    (Some(trim_spec_of(line.skip(c + 1))), Some(k))
                } else {
                    (main, Some(k))
                }
            } else {
                (main, key)
            }
        }
    }
}

pub open spec fn trim_spec_of(s: Seq<char>) -> Seq<char> {
    crate::text::trim_spec(s)
}

/// The `Main-Class` of a jar manifest, continuation lines included.
pub open spec fn manifest_main_class(text: Seq<char>) -> Option<Seq<char>> {
    manifest_state(lines_of(text)).0
}

/// Reads the `Main-Class` header of a jar manifest.
pub fn main_class_from_manifest(text: &str) -> (r: Option<String>)
    ensures
        match r {
            Some(m) => manifest_main_class(text@) == Some(m@),
            None => manifest_main_class(text@) is None,
        },
{
    let lines = text_lines(text);
    let ghost lv = string_views(lines@);
    let mut main: Option<String> = None;
    let mut key: Option<String> = None;
    let mut i: usize = 0;
    while i < lines.len()
        invariant
            i <= lines.len(),
            lv == string_views(lines@),
            lv == lines_of(text@),
            manifest_state(lv.take(i as int)) == (crate::maven::opt_view(main), crate::maven::opt_view(key)),
        decreases lines.len() - i,
    {
        assert(lv.take(i + 1).drop_last() =~= lv.take(i as int));
        assert(lv.take(i + 1).last() == lines@[i as int]@);
        let v = crate::text::chars_of(lines[i].as_str());
        if v.len() > 0 && v[0] == ' ' {
            let is_main = match &key {
                Some(k) => str_eq(k.as_str(), "Main-Class"),
                None => false,
            };
            if is_main {
                match main {
                    Some(m) => {
                        let rest = crate::text::copy_range(&v, 1, v.len());
                        assert(rest@ =~= v@.skip(1));
                        let t = crate::text::trim_chars(&rest);
                        let mut m2 = m;
                        m2.append(crate::text::string_from_chars(t.as_slice()).as_str());
                        main = Some(m2);
                    },
                    None => {
                        main = None;
                    },
                }
            }
        } else {
            let c = crate::text::find_char_in(&v, ':', 0, v.len());
            assert(v@.subrange(0, v.len() as int) =~= v@);
            if c < v.len() {
                let kpart = crate::text::copy_range(&v, 0, c);
                assert(kpart@ =~= v@.take(c as int));
                let kt = crate::text::trim_chars(&kpart);
                let k = crate::text::string_from_chars(kt.as_slice());
                if str_eq(k.as_str(), "Main-Class") {
                    let vpart = crate::text::copy_range(&v, c + 1, v.len());
                    assert(vpart@ =~= v@.skip(c + 1));
                    let vt = crate::text::trim_chars(&vpart);
                    main = Some(crate::text::string_from_chars(vt.as_slice()));
                }
                key = Some(k);
            }
        }
        i += 1;
    }
    assert(lv.take(lines.len() as int) =~= lv);
    main
}

/// NeoForge's `install_profile.json`, as far as installation reads it.
#[derive(Debug, Clone)]
pub struct NeoForgeInstallProfile {
    pub version: Option<String>,
    pub minecraft: Option<String>,
    pub libraries: Vec<NeoForgeLibrary>,
    pub processors: Vec<NeoForgeProcessor>,
    pub data: Vec<ProfileDataEntry>,
}

#[derive(Debug, Clone)]
pub struct NeoForgeLibrary {
    pub name: String,
}

#[derive(Debug, Clone)]
pub struct NeoForgeProcessor {
    pub sides: Option<Vec<String>>,
    pub jar: String,
    pub classpath: Vec<String>,
    pub args: Vec<String>,
}

/// The argument lists of NeoForge's `version.json`.
#[derive(Debug, Clone)]
pub struct NeoForgeArguments {
    pub game: Vec<crate::version_file::ArgumentEntry>,
    pub jvm: Vec<crate::version_file::ArgumentEntry>,
}

/// The `version.json` inside a NeoForge installer.
#[derive(Debug, Clone)]
pub struct NeoForgeVersionJson {
    pub main_class: String,
    pub libraries: Vec<NeoForgeLibrary>,
    pub arguments: Option<NeoForgeArguments>,
}

/// Installs NeoForge by running its official installer.
pub struct NeoForgeInstaller;

impl NeoForgeInstaller {
    pub fn new(_client: reqwest::Client) -> (r: NeoForgeInstaller) {
        NeoForgeInstaller
    }
}

/// `<repo>/net/neoforged/<artifact>/<id>/<artifact>-<id>-installer.jar`, and
/// the file name it is saved under.
pub open spec fn neoforge_candidate(instance_dir: Seq<char>, artifact: Seq<char>, id: Seq<char>) -> (Seq<char>, Seq<char>) {
    let name = artifact + "-"@ + id + "-installer.jar"@;
    (path_join_result(instance_dir, name), NEOFORGE_MAVEN@ + "/net/neoforged/"@ + artifact + "/"@ + id + "/"@ + name)
}

/// The places a NeoForge installer may be found, tried in order: the modern
/// `neoforge` artifact, the legacy `forge` artifact, each with the loader
/// version alone and with the Minecraft version in front.
pub open spec fn neoforge_candidates_of(instance_dir: Seq<char>, mc: Seq<char>, loader: Seq<char>) -> Seq<(Seq<char>, Seq<char>)> {
    let prefixed = mc + "-"@ + loader;
    seq![
        neoforge_candidate(instance_dir, "neoforge"@, loader),
        neoforge_candidate(instance_dir, "forge"@, loader),
        neoforge_candidate(instance_dir, "forge"@, prefixed),
        neoforge_candidate(instance_dir, "neoforge"@, prefixed),
    ]
}

fn neoforge_candidate_exec(instance_dir: &str, artifact: &str, id: &str) -> (r: (String, String))
    ensures
        (r.0@, r.1@) == neoforge_candidate(instance_dir@, artifact@, id@),
{
    let mut name = String::from_str(artifact);
    name.append("-");
    name.append(id);
    name.append("-installer.jar");
    let mut url = String::from_str(NEOFORGE_MAVEN);
    url.append("/net/neoforged/");
    url.append(artifact);
    url.append("/");
    url.append(id);
    url.append("/");
    url.append(name.as_str());
    (path_join(instance_dir, name.as_str()), url)
}

impl NeoForgeInstaller {
    /// Where the installer is kept once found: `<instance>/neoforge-<loader>-installer.jar`.
    pub fn installer_path(instance_dir: &str, loader_version: &str) -> (r: String)
        ensures
            r@ == path_join_result(instance_dir@, "neoforge-"@ + loader_version@ + "-installer.jar"@),
    {
        let mut name = String::from_str("neoforge-");
        name.append(loader_version);
        name.append("-installer.jar");
        path_join(instance_dir, name.as_str())
    }

    /// The `(download path, URL)` candidates for the installer, in the order tried.
    pub fn installer_candidates(instance_dir: &str, minecraft_version: &str, loader_version: &str) -> (r: Vec<(String, String)>)
        ensures
            r@.map_values(|c: (String, String)| (c.0@, c.1@)) == neoforge_candidates_of(
                instance_dir@,
                minecraft_version@,
                loader_version@,
            ),
    {
        let mut prefixed = String::from_str(minecraft_version);
        prefixed.append("-");
        prefixed.append(loader_version);
        let mut r: Vec<(String, String)> = Vec::new();
        r.push(neoforge_candidate_exec(instance_dir, "neoforge", loader_version));
        r.push(neoforge_candidate_exec(instance_dir, "forge", loader_version));
        r.push(neoforge_candidate_exec(instance_dir, "forge", prefixed.as_str()));
        r.push(neoforge_candidate_exec(instance_dir, "neoforge", prefixed.as_str()));
        assert(r@.map_values(|c: (String, String)| (c.0@, c.1@)) =~= neoforge_candidates_of(
            instance_dir@,
            minecraft_version@,
            loader_version@,
        ));
        r
    }

    /// The version ids NeoForge's installer may have written, in the order
    /// looked for; the loader version alone is also the fallback.
    pub fn installed_version_ids(minecraft_version: &str, loader_version: &str) -> (r: Vec<String>)
        ensures
            string_views(r@) == seq![
                minecraft_version@ + "-neoforge-"@ + loader_version@,
                "neoforge-"@ + loader_version@,
                minecraft_version@ + "-"@ + loader_version@,
                loader_version@,
            ],
    {
        let mut a = String::from_str(minecraft_version);
        a.append("-neoforge-");
        a.append(loader_version);
        let mut b = String::from_str("neoforge-");
        b.append(loader_version);
        let mut c = String::from_str(minecraft_version);
        c.append("-");
        c.append(loader_version);
        let mut r: Vec<String> = Vec::new();
        r.push(a);
        r.push(b);
        r.push(c);
        r.push(String::from_str(loader_version));
        assert(string_views(r@) =~= seq![
            minecraft_version@ + "-neoforge-"@ + loader_version@,
            "neoforge-"@ + loader_version@,
            minecraft_version@ + "-"@ + loader_version@,
            loader_version@,
        ]);
        r
    }

    /// The main class to launch: BootstrapLauncher when the installed version
    /// names none, or only Vanilla's.
    pub fn effective_main_class(resolved: String) -> (r: String)
        ensures
            (trim_spec_of(resolved@).len() == 0 || resolved@ == "net.minecraft.client.main.Main"@)
                ==> r@ == "cpw.mods.bootstraplauncher.BootstrapLauncher"@,
            !(trim_spec_of(resolved@).len() == 0 || resolved@ == "net.minecraft.client.main.Main"@)
                ==> r == resolved,
    {
        if crate::text::str_is_blank(resolved.as_str()) || str_eq(
            resolved.as_str(),
            "net.minecraft.client.main.Main",
        ) {
            String::from_str("cpw.mods.bootstraplauncher.BootstrapLauncher")
        } else {
            resolved
        }
    }

    /// What installing NeoForge reports; it runs on the Java the Minecraft version needs.
    pub fn install_result(main_class: String, extra_jvm_args: Vec<String>, extra_game_args: Vec<String>, libraries: Vec<String>, minecraft_version: &str) -> (r: LoaderInstallResult)
        ensures
            r.main_class == main_class,
            r.extra_jvm_args == extra_jvm_args,
            r.extra_game_args == extra_game_args,
            r.libraries == libraries,
            r.asset_index_id is None,
            r.asset_index_url is None,
            r.java_major == Some(crate::version_parts::java_for_minecraft(minecraft_version@)),
    {
        LoaderInstallResult {
            main_class,
            extra_jvm_args,
            extra_game_args,
            libraries,
            asset_index_id: None,
            asset_index_url: None,
            java_major: Some(crate::version_parts::required_java_for_minecraft_version(minecraft_version)),
        }
    }
}

/// Only `.jar` and `.zip` files are checked as archives (exact extension).
pub open spec fn archive_path(path: Seq<char>) -> bool {
    match crate::classpath::file_name_result(path) {
        Some(n) => match crate::classpath::extension_of(n) {
            Some(e) => e == "jar"@ || e == "zip"@,
            None => false,
        },
        None => false,
    }
}

/// Whether a downloaded file must be a valid archive.
pub fn is_archive_path(path: &str) -> (b: bool)
    ensures
        b == archive_path(path@),
{
    let name = match crate::classpath::path_file_name(path) {
        Some(n) => n,
        None => return false,
    };
    let v = crate::text::chars_of(name.as_str());
    let i = crate::text::rfind_char(&v, '.');
    proof {
        crate::text::lemma_last_index_of_bounds(v@, '.');
    }
    match i {
        Some(i) => {
            if i == 0 {
                return false;
            }
            let ext = crate::text::copy_range(&v, i + 1, v.len());
            assert(ext@ =~= v@.skip(i + 1));
            let s = crate::text::string_from_chars(ext.as_slice());
            str_eq(s.as_str(), "jar") || str_eq(s.as_str(), "zip")
        },
        None => false,
    }
}

/// A file is fetched (again) when it is missing, or is an archive that does not open.
pub fn should_download_or_replace_archive(path: &str, present: bool, opens_as_archive: bool) -> (b: bool)
    ensures
        b == (!present || (archive_path(path@) && !opens_as_archive)),
{
    !present || (is_archive_path(path) && !opens_as_archive)
}

/// The parent a version JSON inherits from: its `inheritsFrom`, trimmed, when not blank.
pub fn inherited_parent_id(inherits_from: Option<&str>) -> (r: Option<String>)
    ensures
        match inherits_from {
            Some(s) => if crate::text::trim_spec(s@).len() == 0 {
                r is None
            } else {
                r is Some && r->0@ == crate::text::trim_spec(s@)
            },
            None => r is None,
        },
{
    match inherits_from {
        Some(s) => {
            let t = crate::text::str_trim(s);
            if crate::text::chars_of(t.as_str()).len() == 0 {
                None
            } else {
                Some(t)
            }
        },
        None => None,
    }
}

} // verus!
