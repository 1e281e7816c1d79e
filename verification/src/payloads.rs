//! What the front end sends and receives, and the instance operations behind
//! its commands.
use vstd::prelude::*;

use crate::auth::{sanitized_profile, AccountMode, LaunchAccountProfile};
use crate::error::LauncherError;
use crate::model::{Instance, InstanceState, JavaRuntimePreference, LauncherSettings, LoaderType};
use crate::text::{str_is_blank, string_views, trim_spec};

verus! {

/// How a delete request ended.
#[derive(Debug, Clone, Copy, PartialEq, Eq, Structural)]
pub enum DeleteInstanceResponse {
    Deleted,
    NeedsElevation,
    ElevationRequested,
}

/// A Minecraft version as the version list shows it.
#[derive(Debug, Clone)]
pub struct MinecraftVersionInfo {
    pub id: String,
    pub release_time: String,
    pub version_type: String,
}

/// The release versions of a manifest, as the version list shows them.
pub fn release_infos(manifest: &crate::version_file::VersionManifest) -> (r: Vec<MinecraftVersionInfo>)
    ensures
        r@.len() == crate::version_file::releases_of(manifest.versions@).len(),
        forall|i: int|
            0 <= i < r@.len() ==> {
                let e = crate::version_file::releases_of(manifest.versions@)[i];
                &&& (#[trigger] r@[i]).id == e.id
                &&& r@[i].release_time == e.release_time
                &&& r@[i].version_type == e.version_type
            },
{
    let rel = manifest.releases();
    let mut out: Vec<MinecraftVersionInfo> = Vec::new();
    let mut i: usize = 0;
    while i < rel.len()
        invariant
            i <= rel.len(),
            rel@.len() == crate::version_file::releases_of(manifest.versions@).len(),
            forall|j: int| 0 <= j < rel@.len() ==> *(#[trigger] rel@[j]) == crate::version_file::releases_of(manifest.versions@)[j],
            out@.len() == i,
            forall|j: int|
                0 <= j < i ==> {
                    let e = crate::version_file::releases_of(manifest.versions@)[j];
                    &&& (#[trigger] out@[j]).id == e.id
                    &&& out@[j].release_time == e.release_time
                    &&& out@[j].version_type == e.version_type
                },
        decreases rel.len() - i,
    {
        let e = rel[i];
        out.push(
            MinecraftVersionInfo {
                id: e.id.clone(),
                release_time: e.release_time.clone(),
                version_type: e.version_type.clone(),
            },
        );
        i += 1;
    }
    out
}

/// A request to create an instance.
#[derive(Debug, Clone)]
pub struct CreateInstancePayload {
    pub name: String,
    pub minecraft_version: String,
    pub loader_type: LoaderType,
    pub loader_version: Option<String>,
    pub memory_max_mb: Option<u32>,
}

impl CreateInstancePayload {
    /// The memory to give the instance: the requested amount, 2048 MB by default.
    pub fn memory_mb(&self) -> (r: u32)
        ensures
            r == match self.memory_max_mb {
                Some(m) => m,
                None => 2048,
            },
    {
        match self.memory_max_mb {
            Some(m) => m,
            None => 2048,
        }
    }
}

/// An account as the front end sends it.
#[derive(Debug, Clone)]
pub struct AccountProfilePayload {
    pub mode: AccountMode,
    pub username: String,
    pub uuid: Option<String>,
    pub access_token: Option<String>,
    pub xuid: Option<String>,
    pub user_type: Option<String>,
    pub client_id: Option<String>,
}

pub open spec fn opt_text(o: Option<String>, d: Seq<char>) -> Seq<char> {
    match o {
        Some(s) => s@,
        None => d,
    }
}

/// The profile an account payload stands for, before sanitizing: offline
/// accounts keep only the (trimmed) name; Microsoft accounts keep every field,
/// missing ones empty and the user type `msa`.
pub open spec fn unsanitized_profile(p: AccountProfilePayload, q: LaunchAccountProfile) -> bool {
    match p.mode {
        AccountMode::Offline => {
            &&& q.mode == AccountMode::Offline
            &&& q.username@ == trim_spec(p.username@)
            &&& q.uuid@ == crate::auth::nil_uuid()
            &&& q.access_token@ == "offline_access_token"@
            &&& q.xuid@ == "0"@
            &&& q.user_type@ == "legacy"@
            &&& q.client_id@ == crate::auth::AZURE_CLIENT_ID_FALLBACK@
        },
        AccountMode::Microsoft => {
            &&& q.mode == AccountMode::Microsoft
            &&& q.username == p.username
            &&& q.uuid@ == opt_text(p.uuid, Seq::empty())
            &&& q.access_token@ == opt_text(p.access_token, Seq::empty())
            &&& q.xuid@ == opt_text(p.xuid, Seq::empty())
            &&& q.user_type@ == opt_text(p.user_type, "msa"@)
            &&& q.client_id@ == opt_text(p.client_id, Seq::empty())
        },
    }
}

fn or_empty(o: Option<String>) -> (r: String)
    ensures
        r@ == opt_text(o, Seq::empty()),
{
    match o {
        Some(s) => s,
        None => {
            let r = String::new();
            assert(r@ =~= Seq::<char>::empty());
            r
        },
    }
}

impl AccountProfilePayload {
    /// The launch profile of the account, with blank fields defaulted.
    pub fn into_profile(self) -> (r: LaunchAccountProfile)
        ensures
            exists|q: LaunchAccountProfile| unsanitized_profile(self, q) && sanitized_profile(q, r),
    {
        match self.mode {
            AccountMode::Offline => {
                let q = LaunchAccountProfile::offline(self.username.as_str());
                let ghost gq = q;
                let r = q.sanitized();
                assert(unsanitized_profile(self, gq));
                r
            },
            AccountMode::Microsoft => {
                let user_type = match self.user_type {
                    Some(t) => t,
                    None => String::from_str("msa"),
                };
                let q = LaunchAccountProfile {
                    mode: AccountMode::Microsoft,
                    username: self.username,
                    uuid: or_empty(self.uuid),
                    access_token: or_empty(self.access_token),
                    xuid: or_empty(self.xuid),
                    user_type,
                    client_id: or_empty(self.client_id),
                };
                let ghost gq = q;
                let r = q.sanitized();
                assert(unsanitized_profile(self, gq));
                r
            },
        }
    }

    /// The payload of a profile: every field present.
    pub fn from_profile(profile: &LaunchAccountProfile) -> (r: AccountProfilePayload)
        ensures
            r.mode == profile.mode,
            r.username == profile.username,
            r.uuid == Some(profile.uuid),
            r.access_token == Some(profile.access_token),
            r.xuid == Some(profile.xuid),
            r.user_type == Some(profile.user_type),
            r.client_id == Some(profile.client_id),
    {
        AccountProfilePayload {
            mode: profile.mode,
            username: profile.username.clone(),
            uuid: Some(profile.uuid.clone()),
            access_token: Some(profile.access_token.clone()),
            xuid: Some(profile.xuid.clone()),
            user_type: Some(profile.user_type.clone()),
            client_id: Some(profile.client_id.clone()),
        }
    }
}

/// A request to change an instance's account.
#[derive(Debug, Clone)]
pub struct UpdateInstanceAccountPayload {
    pub id: String,
    pub account: AccountProfilePayload,
}

/// An instance as the front end shows it.
#[derive(Debug, Clone)]
pub struct InstanceInfo {
    pub id: String,
    pub name: String,
    pub path: String,
    pub minecraft_version: String,
    pub loader_type: LoaderType,
    pub loader_version: Option<String>,
    pub state: InstanceState,
    pub required_java_major: Option<u32>,
    pub java_path: Option<String>,
    pub max_memory_mb: u32,
    pub account: AccountProfilePayload,
    pub jvm_args: Vec<String>,
    pub game_args: Vec<String>,
    pub total_size_bytes: u64,
    pub created_at: String,
    pub last_played: Option<String>,
}

fn copy_opt(o: &Option<String>) -> (r: Option<String>)
    ensures
        r == *o,
{
    match o {
        Some(s) => Some(s.clone()),
        None => None,
    }
}

fn copy_strings(v: &Vec<String>) -> (r: Vec<String>)
    ensures
        string_views(r@) == string_views(v@),
{
    let mut out: Vec<String> = Vec::new();
    let mut i: usize = 0;
    while i < v.len()
        invariant
            i <= v.len(),
            out@.len() == i,
            forall|j: int| 0 <= j < i ==> #[trigger] out@[j]@ == v@[j]@,
        decreases v.len() - i,
    {
        out.push(v[i].clone());
        i += 1;
    }
    assert(string_views(out@) =~= string_views(v@));
    out
}

impl InstanceInfo {
    /// What the front end shows of an instance whose directory holds
    /// `total_size_bytes`.
    pub fn from_instance(inst: &Instance, total_size_bytes: u64) -> (r: InstanceInfo)
        ensures
            r.id == inst.id,
            r.name == inst.name,
            r.path == inst.path,
            r.minecraft_version == inst.minecraft_version,
            r.loader_type == inst.loader,
            r.loader_version == inst.loader_version,
            r.state == inst.state,
            r.required_java_major == inst.required_java_major,
            r.java_path == inst.java_path,
            r.max_memory_mb == inst.max_memory_mb,
            r.account.username == inst.account.username,
            r.account.mode == inst.account.mode,
            r.account.uuid == Some(inst.account.uuid),
            r.account.access_token == Some(inst.account.access_token),
            r.account.xuid == Some(inst.account.xuid),
            r.account.user_type == Some(inst.account.user_type),
            r.account.client_id == Some(inst.account.client_id),
            string_views(r.jvm_args@) == string_views(inst.jvm_args@),
            string_views(r.game_args@) == string_views(inst.game_args@),
            r.total_size_bytes == total_size_bytes,
            r.created_at == inst.created_at,
            r.last_played == inst.last_played,
    {
        InstanceInfo {
            id: inst.id.clone(),
            name: inst.name.clone(),
            path: inst.path.clone(),
            minecraft_version: inst.minecraft_version.clone(),
            loader_type: inst.loader,
            loader_version: copy_opt(&inst.loader_version),
            state: inst.state,
            required_java_major: inst.required_java_major,
            java_path: copy_opt(&inst.java_path),
            max_memory_mb: inst.max_memory_mb,
            account: AccountProfilePayload::from_profile(&inst.account),
            jvm_args: copy_strings(&inst.jvm_args),
            game_args: copy_strings(&inst.game_args),
            total_size_bytes,
            created_at: inst.created_at.clone(),
            last_played: copy_opt(&inst.last_played),
        }
    }
}

/// A request to change how an instance is launched.
#[derive(Debug, Clone)]
pub struct UpdateInstanceLaunchConfigPayload {
    pub id: String,
    pub java_path: Option<String>,
    pub max_memory_mb: u32,
    pub jvm_args: Vec<String>,
    pub game_args: Vec<String>,
}

/// The non-blank texts, in order.
pub open spec fn non_blank_texts(v: Seq<Seq<char>>) -> Seq<Seq<char>>
    decreases v.len(),
{
    if v.len() == 0 {
        Seq::empty()
    } else {
        let rest = non_blank_texts(v.drop_last());
        if trim_spec(v.last()).len() == 0 {
            rest
        } else {
            rest.push(v.last())
        }
    }
}

fn keep_non_blank(v: Vec<String>) -> (r: Vec<String>)
    ensures
        string_views(r@) == non_blank_texts(string_views(v@)),
{
    let ghost a = string_views(v@);
    let mut out: Vec<String> = Vec::new();
    let mut i: usize = 0;
    while i < v.len()
        invariant
            i <= v.len(),
            a == string_views(v@),
            string_views(out@) == non_blank_texts(a.take(i as int)),
        decreases v.len() - i,
    {
        assert(a.take(i + 1).drop_last() =~= a.take(i as int));
        if !str_is_blank(v[i].as_str()) {
            let ghost before = string_views(out@);
            out.push(v[i].clone());
            assert(string_views(out@) =~= before.push(a[i as int]));
        }
        i += 1;
    }
    assert(a.take(v.len() as int) =~= a);
    out
}

/// Applies a launch configuration to an instance; less than 512 MB of
/// memory is refused and blank arguments are dropped.
pub fn apply_launch_config(instance: &mut Instance, payload: UpdateInstanceLaunchConfigPayload) -> (r: Result<(), LauncherError>)
    ensures
        payload.max_memory_mb < 512 ==> r is Err && *final(instance) == *old(instance) && match r->Err_0 {
            LauncherError::Other(m) => m@ == "La memoria mínima permitida es 512 MB"@,
            _ => false,
        },
        payload.max_memory_mb >= 512 ==> r is Ok && string_views(final(instance).jvm_args@)
            == non_blank_texts(string_views(payload.jvm_args@)) && string_views(
            final(instance).game_args@,
        ) == non_blank_texts(string_views(payload.game_args@)) && *final(instance) == (Instance {
            max_memory_mb: payload.max_memory_mb,
            java_path: payload.java_path,
            jvm_args: final(instance).jvm_args,
            game_args: final(instance).game_args,
            ..*old(instance)
        }),
{
    if payload.max_memory_mb < 512 {
        return Err(LauncherError::Other(String::from_str("La memoria mínima permitida es 512 MB")));
    }
    instance.max_memory_mb = payload.max_memory_mb;
    instance.jvm_args = keep_non_blank(payload.jvm_args);
    instance.game_args = keep_non_blank(payload.game_args);
    instance.java_path = payload.java_path;
    Ok(())
}

/// How aggressively an instance is tuned.
#[derive(Debug, Clone, Copy, PartialEq, Eq, Structural)]
pub enum OptimizationModePayload {
    Balanced,
    MaxPerformance,
    LowPower,
}

pub open spec fn mode_name_of(m: OptimizationModePayload) -> Seq<char> {
    match m {
        OptimizationModePayload::Balanced => "balanced"@,
        OptimizationModePayload::MaxPerformance => "max_performance"@,
        OptimizationModePayload::LowPower => "low_power"@,
    }
}

impl OptimizationModePayload {
    /// The mode's name in reports.
    pub fn name(&self) -> (r: String)
        ensures
            r@ == mode_name_of(*self),
    {
        match self {
            OptimizationModePayload::Balanced => String::from_str("balanced"),
            OptimizationModePayload::MaxPerformance => String::from_str("max_performance"),
            OptimizationModePayload::LowPower => String::from_str("low_power"),
        }
    }
}

/// A request to tune an instance.
#[derive(Debug, Clone)]
pub struct OptimizeInstancePayload {
    pub id: String,
    pub mode: Option<OptimizationModePayload>,
}

/// What tuning an instance found and changed.
#[derive(Debug, Clone)]
pub struct OptimizationReport {
    pub instance: InstanceInfo,
    pub recommended_xmx_mb: u32,
    pub recommended_xms_mb: u32,
    pub detected_mods: u64,
    pub duplicate_mods: Vec<String>,
    pub potentially_conflicting_mods: Vec<String>,
    pub missing_recommended_mods: Vec<String>,
    pub removed_logs: u64,
    pub freed_log_bytes: u64,
    pub mode: String,
    pub notes: Vec<String>,
}

/// The launcher's settings as the front end sees them.
#[derive(Debug, Clone)]
pub struct LauncherSettingsPayload {
    pub java_runtime: JavaRuntimePreference,
    pub selected_java_path: Option<String>,
    pub embedded_java_available: bool,
    pub data_dir: String,
}

impl LauncherSettingsPayload {
    /// The settings as shown, with an empty data directory.
    pub fn from_settings(settings: &LauncherSettings, embedded_java_available: bool) -> (r: LauncherSettingsPayload)
        ensures
            r.java_runtime == settings.java_runtime,
            r.selected_java_path == settings.selected_java_path,
            r.embedded_java_available == embedded_java_available,
            r.data_dir@ == Seq::<char>::empty(),
    {
        let data_dir = String::new();
        assert(data_dir@ =~= Seq::<char>::empty());
        LauncherSettingsPayload {
            java_runtime: settings.java_runtime,
            selected_java_path: copy_opt(&settings.selected_java_path),
            embedded_java_available,
            data_dir,
        }
    }
}

#[derive(Debug, Clone)]
pub struct FirstLaunchStatus {
    pub first_launch: bool,
    pub suggested_data_dir: String,
}

#[derive(Debug, Clone)]
pub struct JavaVersionReport {
    pub requested_minecraft_version: String,
    pub required_java_major: u32,
}

impl JavaVersionReport {
    /// The Java a Minecraft version needs.
    pub fn for_version(minecraft_version: String) -> (r: JavaVersionReport)
        ensures
            r.requested_minecraft_version == minecraft_version,
            r.required_java_major == crate::version_parts::java_for_minecraft(minecraft_version@),
    {
        let required_java_major = crate::version_parts::required_java_for_minecraft_version(
            minecraft_version.as_str(),
        );
        JavaVersionReport { requested_minecraft_version: minecraft_version, required_java_major }
    }
}

#[derive(Debug, Clone)]
pub struct JavaRuntimeMetadataPayload {
    pub required_java_major: u32,
    pub runtime_dir: String,
    pub managed_runtime: Option<crate::java::ManagedRuntimeInfo>,
}

#[derive(Debug, Clone)]
pub struct RuntimeListPayload {
    pub runtimes: Vec<crate::java::ManagedRuntimeInfo>,
}

/// The two runtimes a launch distinguishes: the game's and the tooling's.
#[derive(Debug, Clone, Copy, PartialEq, Eq, Structural)]
pub enum RuntimeRole {
    Gamma,
    Delta,
}

/// The Java major version a role runs: the tooling runtime stays on 17; the
/// game's follows the Minecraft version, 21 from 1.20.5 on and 17 before (and
/// when no version is known).
pub open spec fn role_major(role: RuntimeRole, minecraft_version: Option<Seq<char>>) -> u32 {
    match role {
        RuntimeRole::Delta => 17,
        RuntimeRole::Gamma => match minecraft_version {
            Some(v) => if crate::version_parts::java_for_minecraft(v) == 21 {
                21
            } else {
                17
            },
            None => 17,
        },
    }
}

/// The role's name as logs and messages write it.
pub open spec fn role_name(role: RuntimeRole) -> Seq<char> {
    match role {
        RuntimeRole::Gamma => "Gamma"@,
        RuntimeRole::Delta => "Delta"@,
    }
}

impl RuntimeRole {
    /// The Java major version this role needs for `minecraft_version`.
    pub fn expected_major(&self, minecraft_version: Option<&str>) -> (major: u32)
        ensures
            major == role_major(*self, match minecraft_version {
                Some(v) => Some(v@),
                None => None,
            }),
    {
        match self {
            RuntimeRole::Delta => 17,
            RuntimeRole::Gamma => match minecraft_version {
                Some(v) => {
                    if crate::version_parts::required_java_for_minecraft_version(v) == 21 {
                        21
                    } else {
                        17
                    }
                },
                None => 17,
            },
        }
    }
}

/// The directory of a role's runtimes under the runtimes root.
pub open spec fn role_dir_name(role: RuntimeRole) -> Seq<char> {
    match role {
        RuntimeRole::Gamma => "java-gamma"@,
        RuntimeRole::Delta => "java-delta"@,
    }
}

/// `<data dir>/runtimes/v1/java-gamma` or `.../java-delta`: each role keeps
/// its runtimes apart, so that installing one never replaces the other's.
pub fn role_runtimes_root(data_dir: &str, role: RuntimeRole) -> (r: String)
    ensures
        r@ == crate::platform::path_join_result(
            crate::platform::path_join_result(
                crate::platform::path_join_result(data_dir@, "runtimes"@),
                "v1"@,
            ),
            role_dir_name(role),
        ),
{
    let runtimes = crate::platform::path_join(data_dir, "runtimes");
    let v1 = crate::platform::path_join(runtimes.as_str(), "v1");
    match role {
        RuntimeRole::Gamma => crate::platform::path_join(v1.as_str(), "java-gamma"),
        RuntimeRole::Delta => crate::platform::path_join(v1.as_str(), "java-delta"),
    }
}

/// The phases of a launch, as far as the runtime they run on is concerned.
#[derive(Debug, Clone, Copy, PartialEq, Eq, Structural)]
pub enum LaunchPhase {
    /// Internal checks while preparing the instance.
    Preparation,
    /// The bootstrap of the loader.
    Bootstrap,
    /// Reading jars and manifests, detecting mods, checks before the launch.
    JarAnalysis,
    /// The game itself.
    GameLaunch,
}

/// Every phase of the launcher runs on the tooling runtime (Delta); the game
/// alone runs on the game runtime (Gamma).
pub fn phase_role(phase: LaunchPhase) -> (r: RuntimeRole)
    ensures
        r == (if phase == LaunchPhase::GameLaunch {
            RuntimeRole::Gamma
        } else {
            RuntimeRole::Delta
        }),
{
    match phase {
        LaunchPhase::GameLaunch => RuntimeRole::Gamma,
        _ => RuntimeRole::Delta,
    }
}

/// `Runtime de bootstrap inválido (<role>): <stderr>`: a bootstrap runtime
/// whose `-version` probe failed.
pub fn bootstrap_probe_error(role: RuntimeRole, stderr: &str) -> (e: LauncherError)
    ensures
        match e {
            LauncherError::Other(m) => m@ == "Runtime de bootstrap inválido ("@ + role_name(role) + "): "@
                + stderr@,
            _ => false,
        },
{
    let mut m = String::from_str("Runtime de bootstrap inválido (");
    match role {
        RuntimeRole::Gamma => m.append("Gamma"),
        RuntimeRole::Delta => m.append("Delta"),
    }
    m.append("): ");
    m.append(stderr);
    LauncherError::Other(m)
}

#[derive(Debug, Clone)]
pub struct RuntimeResolvePayload {
    pub role: RuntimeRole,
    pub required_java_major: u32,
    pub java_path: String,
}

#[derive(Debug, Clone)]
pub struct RuntimeValidatePayload {
    pub role: RuntimeRole,
    pub path: String,
    pub required_java_major: u32,
    pub valid: bool,
}

/// What probing a Java binary showed.
#[derive(Debug, Clone)]
pub struct JavaCheckReport {
    pub path: String,
    pub usable: bool,
    pub details: Option<crate::java::JavaInstallation>,
}

impl JavaCheckReport {
    /// A binary is usable when probing it worked.
    pub fn from_probe(path: String, details: Option<crate::java::JavaInstallation>) -> (r: JavaCheckReport)
        ensures
            r.path == path,
            r.usable == details is Some,
            r.details == details,
    {
        let usable = details.is_some();
        JavaCheckReport { path, usable, details }
    }

    /// A managed runtime is usable when probing it shows the required major version.
    pub fn for_managed(path: String, details: Option<crate::java::JavaInstallation>, required_java_major: u32) -> (r: JavaCheckReport)
        ensures
            r.path == path,
            r.usable == match details {
                Some(d) => crate::preflight::java_compatible(d.major, required_java_major),
                None => false,
            },
            r.details == details,
    {
        let usable = match &details {
            Some(d) => crate::preflight::is_java_compatible_major(d.major, required_java_major),
            None => false,
        };
        JavaCheckReport { path, usable, details }
    }
}

#[derive(Debug, Clone)]
pub struct JavaPathPayload {
    pub path: String,
}

#[derive(Debug, Clone)]
pub struct MinecraftVersionPayload {
    pub minecraft_version: String,
}

#[derive(Debug, Clone)]
pub struct InitializeInstallationPayload {
    pub target_dir: String,
    pub create_desktop_shortcut: bool,
}

#[derive(Debug, Clone)]
pub struct MigrateLauncherDataDirPayload {
    pub target_dir: String,
}

} // verus!
