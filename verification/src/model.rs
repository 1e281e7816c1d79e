//! Instances, their loaders and lifecycle, the instance manager's layout,
//! and launcher settings.
use vstd::prelude::*;

use crate::auth::LaunchAccountProfile;
use crate::error::LauncherError;
use crate::platform::{java_exe, java_exe_name, path_join, path_join_result, HostOs};

verus! {

/// Supported mod loaders.
#[derive(Debug, Clone, Copy, PartialEq, Eq, Structural)]
pub enum LoaderType {
    Vanilla,
    Forge,
    Fabric,
    NeoForge,
    Quilt,
}

pub open spec fn loader_name_of(l: LoaderType) -> Seq<char> {
    match l {
        LoaderType::Vanilla => "vanilla"@,
        LoaderType::Forge => "forge"@,
        LoaderType::Fabric => "fabric"@,
        LoaderType::NeoForge => "neoforge"@,
        LoaderType::Quilt => "quilt"@,
    }
}

impl LoaderType {
    /// The loader's name in lowercase, as shown and stored.
    pub fn to_string(&self) -> (r: String)
        ensures
            r@ == loader_name_of(*self),
    {
        match self {
            LoaderType::Vanilla => String::from_str("vanilla"),
            LoaderType::Forge => String::from_str("forge"),
            LoaderType::Fabric => String::from_str("fabric"),
            LoaderType::NeoForge => String::from_str("neoforge"),
            LoaderType::Quilt => String::from_str("quilt"),
        }
    }
}

/// Lifecycle state of an instance.
#[derive(Debug, Clone, Copy, PartialEq, Eq, Structural)]
pub enum InstanceState {
    /// Metadata exists but files have not been downloaded.
    Created,
    /// Downloading or installing.
    Installing,
    /// Ready to launch.
    Ready,
    /// The game is running.
    Running,
    /// Installation went wrong.
    Error,
}

/// An instance as stored in its `instance.json`. Each instance has its own
/// folder under `instances/<id>/` with `minecraft/` (the game directory),
/// `mods/`, `config/` and `instance.json`.
#[derive(Debug, Clone)]
pub struct Instance {
    pub name: String,
    pub path: String,
    pub minecraft_version: String,
    pub loader: LoaderType,
    pub loader_version: Option<String>,
    pub java_path: Option<String>,
    pub max_memory_mb: u32,
    pub id: String,
    pub state: InstanceState,
    /// Creation time, RFC 3339.
    pub created_at: String,
    /// Last launch time, RFC 3339.
    pub last_played: Option<String>,
    /// Main class from the version JSON or the loader.
    pub main_class: Option<String>,
    /// Asset index id (such as `17` for 1.21.x).
    pub asset_index: Option<String>,
    /// Library coordinates saved during installation.
    pub libraries: Vec<String>,
    /// Extra JVM arguments from configuration or the loader.
    pub jvm_args: Vec<String>,
    /// Extra game arguments from the loader.
    pub game_args: Vec<String>,
    /// The account the game is launched with.
    pub account: LaunchAccountProfile,
    /// The Java major version the version JSON asks for, once known.
    pub required_java_major: Option<u32>,
}

/// A fresh random (version 4) UUID in its hyphenated form, through the
/// `uuid` crate (`Uuid::new_v4().to_string()`); 36 characters long. Which
/// UUID comes out is left open.
#[verifier::external_body]
fn new_uuid() -> (r: String)
    ensures
        r@.len() == 36,
{
    uuid::Uuid::new_v4().to_string()
}

/// The current time in RFC 3339, through `chrono` (`Utc::now().to_rfc3339()`).
/// The time itself is left open.
#[verifier::external_body]
fn now_rfc3339() -> (r: String) {
    chrono::Utc::now().to_rfc3339()
}

impl Instance {
    /// A new instance in the `Created` state, with a fresh id, placed at
    /// `<base_dir>/<id>`.
    pub fn new(
        name: String,
        minecraft_version: String,
        loader: LoaderType,
        loader_version: Option<String>,
        max_memory_mb: u32,
        base_dir: &str,
    ) -> (r: Instance)
        ensures
            r.name == name,
            r.minecraft_version == minecraft_version,
            r.loader == loader,
            r.loader_version == loader_version,
            r.max_memory_mb == max_memory_mb,
            r.id@.len() == 36,
            r.path@ == path_join_result(base_dir@, r.id@),
            r.java_path is None,
            r.state == InstanceState::Created,
            r.last_played is None,
            r.main_class is None,
            r.asset_index is None,
            r.libraries@.len() == 0,
            r.jvm_args@.len() == 0,
            r.game_args@.len() == 0,
            crate::auth::is_default_profile(r.account),
            r.required_java_major is None,
    {
        let id = new_uuid();
        let path = path_join(base_dir, id.as_str());
        Instance {
            name,
            path,
            minecraft_version,
            loader,
            loader_version,
            java_path: None,
            max_memory_mb,
            id,
            state: InstanceState::Created,
            created_at: now_rfc3339(),
            last_played: None,
            main_class: None,
            asset_index: None,
            libraries: Vec::new(),
            jvm_args: Vec::new(),
            game_args: Vec::new(),
            account: LaunchAccountProfile::default(),
            required_java_major: None,
        }
    }

    /// `<path>/minecraft`, the game's working directory.
    pub fn game_dir(&self) -> (r: String)
        ensures
            r@ == path_join_result(self.path@, "minecraft"@),
    {
        path_join(self.path.as_str(), "minecraft")
    }

    /// `<path>/mods`.
    pub fn mods_dir(&self) -> (r: String)
        ensures
            r@ == path_join_result(self.path@, "mods"@),
    {
        path_join(self.path.as_str(), "mods")
    }

    /// `<path>/config`.
    pub fn config_dir(&self) -> (r: String)
        ensures
            r@ == path_join_result(self.path@, "config"@),
    {
        path_join(self.path.as_str(), "config")
    }

    /// `<path>/natives`, extracted anew for each launch.
    pub fn natives_dir(&self) -> (r: String)
        ensures
            r@ == path_join_result(self.path@, "natives"@),
    {
        path_join(self.path.as_str(), "natives")
    }

    /// `<path>/instance.json`.
    pub fn config_path(&self) -> (r: String)
        ensures
            r@ == path_join_result(self.path@, "instance.json"@),
    {
        path_join(self.path.as_str(), "instance.json")
    }

    /// Moves the instance to another lifecycle state.
    pub fn set_state(&mut self, state: InstanceState)
        ensures
            *final(self) == (Instance { state: state, ..*old(self) }),
    {
        self.state = state;
    }
}

/// Where the instances live; the file-system work is done by the caller.
pub struct InstanceManager {
    instances_dir: String,
}

impl InstanceManager {
    /// The root directory of all instances.
    pub closed spec fn root(&self) -> Seq<char> {
        self.instances_dir@
    }

    pub fn new(instances_dir: String) -> (r: InstanceManager)
        ensures
            r.root() == instances_dir@,
    {
        InstanceManager { instances_dir }
    }

    /// The root directory of all instances.
    pub fn instances_dir(&self) -> (r: &str)
        ensures
            r@ == self.root(),
    {
        self.instances_dir.as_str()
    }

    /// `<root>/<id>`.
    pub fn instance_dir(&self, id: &str) -> (r: String)
        ensures
            r@ == path_join_result(self.root(), id@),
    {
        path_join(self.instances_dir.as_str(), id)
    }

    /// `<root>/<id>/instance.json`.
    pub fn instance_config_path(&self, id: &str) -> (r: String)
        ensures
            r@ == path_join_result(path_join_result(self.root(), id@), "instance.json"@),
    {
        let dir = path_join(self.instances_dir.as_str(), id);
        path_join(dir.as_str(), "instance.json")
    }

    /// Places an instance under the root (at `<root>/<id>`); an instance whose
    /// directory already exists is refused.
    pub fn place(&self, instance: Instance, dir_exists: bool) -> (r: Result<Instance, LauncherError>)
        ensures
            dir_exists ==> r is Err && match r->Err_0 {
                LauncherError::InstanceAlreadyExists(id) => id == instance.id,
                _ => false,
            },
            !dir_exists ==> r is Ok && r->Ok_0.path@ == path_join_result(self.root(), instance.id@)
                && r->Ok_0 == (Instance { path: r->Ok_0.path, ..instance }),
    {
        let mut instance = instance;
        instance.path = path_join(self.instances_dir.as_str(), instance.id.as_str());
        if dir_exists {
            return Err(LauncherError::InstanceAlreadyExists(instance.id.clone()));
        }
        Ok(instance)
    }

    /// The directories a new instance gets: `minecraft`, `minecraft/assets`,
    /// `mods` and `config`.
    pub fn instance_subdirs(instance: &Instance) -> (r: Vec<String>)
        ensures
            r@.len() == 4,
            r@[0]@ == path_join_result(instance.path@, "minecraft"@),
            r@[1]@ == path_join_result(path_join_result(instance.path@, "minecraft"@), "assets"@),
            r@[2]@ == path_join_result(instance.path@, "mods"@),
            r@[3]@ == path_join_result(instance.path@, "config"@),
    {
        let game = instance.game_dir();
        let assets = path_join(game.as_str(), "assets");
        let mut r: Vec<String> = Vec::new();
        r.push(game);
        r.push(assets);
        r.push(instance.mods_dir());
        r.push(instance.config_dir());
        r
    }

    /// An id names no instance when its directory is missing.
    pub fn missing_instance_error(id: &str) -> (e: LauncherError)
        ensures
            match e {
                LauncherError::InstanceNotFound(x) => x@ == id@,
                _ => false,
            },
    {
        LauncherError::InstanceNotFound(String::from_str(id))
    }
}

/// Which Java the launcher prefers.
#[derive(Debug, Clone, Copy, PartialEq, Eq, Structural)]
pub enum JavaRuntimePreference {
    Auto,
    Embedded,
    System,
}

/// Settings kept in `launcher_settings.json`.
#[derive(Debug, Clone)]
pub struct LauncherSettings {
    pub java_runtime: JavaRuntimePreference,
    pub selected_java_path: Option<String>,
}

impl Default for LauncherSettings {
    fn default() -> (r: LauncherSettings)
        ensures
            r.java_runtime == JavaRuntimePreference::Auto,
            r.selected_java_path is None,
    {
        LauncherSettings { java_runtime: JavaRuntimePreference::Auto, selected_java_path: None }
    }
}

/// `<data_dir>/libraries`.
pub fn libraries_dir(data_dir: &str) -> (r: String)
    ensures
        r@ == path_join_result(data_dir@, "libraries"@),
{
    path_join(data_dir, "libraries")
}

/// `<data_dir>/assets`.
pub fn assets_dir(data_dir: &str) -> (r: String)
    ensures
        r@ == path_join_result(data_dir@, "assets"@),
{
    path_join(data_dir, "assets")
}

/// `<data_dir>/instances`.
pub fn instances_dir(data_dir: &str) -> (r: String)
    ensures
        r@ == path_join_result(data_dir@, "instances"@),
{
    path_join(data_dir, "instances")
}

/// `<data_dir>/launcher_settings.json`.
pub fn settings_path(data_dir: &str) -> (r: String)
    ensures
        r@ == path_join_result(data_dir@, "launcher_settings.json"@),
{
    path_join(data_dir, "launcher_settings.json")
}

/// `<data_dir>/runtime/bin/<java executable>`: the runtime shipped with the launcher.
pub fn embedded_java_path(data_dir: &str, os: HostOs) -> (r: String)
    ensures
        r@ == path_join_result(
            path_join_result(path_join_result(data_dir@, "runtime"@), "bin"@),
            java_exe_name(os),
        ),
{
    let runtime = path_join(data_dir, "runtime");
    let bin = path_join(runtime.as_str(), "bin");
    path_join(bin.as_str(), java_exe(os))
}

/// The directories the launcher works in, fixed at start-up.
#[derive(Debug, Clone)]
pub struct RuntimePaths {
    app_data_dir: String,
    resource_dir: String,
    temp_dir: String,
}

impl RuntimePaths {
    pub closed spec fn data_dir_view(&self) -> Seq<char> {
        self.app_data_dir@
    }

    pub closed spec fn resource_dir_view(&self) -> Seq<char> {
        self.resource_dir@
    }

    pub closed spec fn temp_dir_view(&self) -> Seq<char> {
        self.temp_dir@
    }

    /// The directories, once they exist and have been made canonical.
    pub fn from_dirs(app_data_dir: String, resource_dir: String, temp_dir: String) -> (r: RuntimePaths)
        ensures
            r.data_dir_view() == app_data_dir@,
            r.resource_dir_view() == resource_dir@,
            r.temp_dir_view() == temp_dir@,
    {
        RuntimePaths { app_data_dir, resource_dir, temp_dir }
    }

    pub fn app_data_dir(&self) -> (r: &str)
        ensures
            r@ == self.data_dir_view(),
    {
        self.app_data_dir.as_str()
    }

    pub fn resource_dir(&self) -> (r: &str)
        ensures
            r@ == self.resource_dir_view(),
    {
        self.resource_dir.as_str()
    }

    pub fn temp_dir(&self) -> (r: &str)
        ensures
            r@ == self.temp_dir_view(),
    {
        self.temp_dir.as_str()
    }
}

} // verus!
