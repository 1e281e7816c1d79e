use interface_lib::classpath::is_native_library_entry;
use interface_lib::classpath::{
    build_classpath, client_jar_candidates, dedup_preserving_order, is_allowed_classpath_path,
    plan_libraries, prioritize_bootstrap_entries, uses_module_bootstrap,
    should_skip_cpw_mods_bootstrap_on_classpath, version_jar_candidates,
};
use interface_lib::model::{Instance, LoaderType};
use interface_lib::platform::HostOs;

fn test_instance(loader: LoaderType, loader_version: Option<&str>) -> Instance {
    let mut instance = Instance::new(
        "test".into(),
        "1.21.1".into(),
        loader,
        loader_version.map(|v| v.to_string()),
        2048,
        "/tmp",
    );
    instance.path = "/tmp/inst".to_string();
    instance
}

#[test]
fn bootstrapping_jars_are_moved_to_the_front_in_required_order() {
    let mut entries = vec![
        "/tmp/other-lib.jar".to_string(),
        "/tmp/modlauncher-10.0.jar".to_string(),
        "/tmp/securejarhandler-3.0.jar".to_string(),
        "/tmp/bootstraplauncher-2.0.jar".to_string(),
        "/tmp/another-lib.jar".to_string(),
    ];

    prioritize_bootstrap_entries(&mut entries);

    assert_eq!(entries[0], "/tmp/bootstraplauncher-2.0.jar");
    assert_eq!(entries[1], "/tmp/modlauncher-10.0.jar");
    assert_eq!(entries[2], "/tmp/securejarhandler-3.0.jar");
}

#[test]
fn prioritizing_keeps_the_rest_in_order() {
    let mut entries = vec![
        "/a.jar".to_string(),
        "/BootstrapLauncher-1.jar".to_string(),
        "/b.jar".to_string(),
    ];
    prioritize_bootstrap_entries(&mut entries);
    assert_eq!(entries, vec!["/BootstrapLauncher-1.jar", "/a.jar", "/b.jar"]);
}

#[test]
fn only_jar_and_zip_files_are_allowed() {
    assert!(is_allowed_classpath_path("/libs/a.jar"));
    assert!(is_allowed_classpath_path("/libs/a.ZIP"));
    assert!(!is_allowed_classpath_path("/libs/a.txt"));
    assert!(!is_allowed_classpath_path("/libs/.jar"));
    assert!(!is_allowed_classpath_path("/libs/noext"));
}

#[test]
fn dedup_keeps_first_occurrence() {
    let mut entries = vec!["/a.jar".to_string(), "/b.jar".to_string(), "/a.jar".to_string()];
    dedup_preserving_order(&mut entries, HostOs::Linux);
    assert_eq!(entries, vec!["/a.jar", "/b.jar"]);

    let mut mixed = vec!["C:/A.jar".to_string(), "c:/a.jar".to_string()];
    dedup_preserving_order(&mut mixed, HostOs::Windows);
    assert_eq!(mixed, vec!["C:/A.jar"]);
    let mut mixed_linux = vec!["/A.jar".to_string(), "/a.jar".to_string()];
    dedup_preserving_order(&mut mixed_linux, HostOs::Linux);
    assert_eq!(mixed_linux.len(), 2);
}

#[test]
fn newest_asm_comes_first_and_cpw_jars_are_skipped_with_module_path() {
    let mut instance = test_instance(LoaderType::NeoForge, Some("21.1.1"));
    instance.jvm_args = vec!["--add-modules=ALL-MODULE-PATH".to_string()];
    assert!(uses_module_bootstrap(&instance));
    let coords = vec![
        "org.ow2.asm:asm:9.5".to_string(),
        "  ".to_string(),
        "cpw.mods:modlauncher:10.0.9".to_string(),
        "org.ow2.asm:asm:9.7".to_string(),
        "org.ow2.asm:asm-tree:9.6".to_string(),
        "net.minecraft:client:1.21.1".to_string(),
        "libraries/local.jar".to_string(),
    ];
    let plan = plan_libraries(&instance, &coords);
    assert_eq!(plan.asm_coords, vec!["org.ow2.asm:asm:9.7", "org.ow2.asm:asm-tree:9.6"]);
    assert_eq!(plan.other_coords, vec!["net.minecraft:client:1.21.1", "libraries/local.jar"]);
}

#[test]
fn bootstraplauncher_main_skips_cpw_jars() {
    let mut instance = test_instance(LoaderType::Forge, Some("47.2.0"));
    instance.main_class = Some("cpw.mods.bootstraplauncher.BootstrapLauncher".to_string());
    assert!(should_skip_cpw_mods_bootstrap_on_classpath(&instance));
    let plan = plan_libraries(&instance, &vec!["cpw.mods:securejarhandler:2.1.10".to_string()]);
    assert!(plan.other_coords.is_empty());
    let vanilla = test_instance(LoaderType::Vanilla, None);
    assert!(!should_skip_cpw_mods_bootstrap_on_classpath(&vanilla));
}

#[test]
fn build_classpath_rejects_nothing_found() {
    let instance = test_instance(LoaderType::Vanilla, None);
    let err = build_classpath(&instance, &vec![], &vec![], &vec![], &vec![], &vec![], None, HostOs::Linux)
        .unwrap_err();
    assert_eq!(err.message(), "Classpath is empty — no libraries or client.jar found");
    let blank = build_classpath(
        &instance,
        &vec!["  ".to_string()],
        &vec![],
        &vec![],
        &vec![],
        &vec![],
        None,
        HostOs::Linux,
    )
    .unwrap_err();
    assert_eq!(blank.message(), "Classpath is empty after filtering invalid entries");
}

#[test]
fn build_classpath_orders_and_dedupes_entries() {
    let instance = test_instance(LoaderType::Forge, Some("47.2.0"));
    let local_paths = vec![
        "/tmp/inst/libraries/modlauncher-10.0.8.jar".to_string(),
        "/tmp/inst/libraries/modlauncher-10.0.9.jar".to_string(),
        "/tmp/inst/libraries/extra.jar".to_string(),
        "/tmp/inst/libraries/a.jar".to_string(),
    ];
    let cp = build_classpath(
        &instance,
        &vec!["/libs/asm-9.7.jar".to_string()],
        &vec!["/libs/a.jar".to_string(), "/libs/a.jar".to_string()],
        &local_paths,
        &local_paths.clone(),
        &vec!["/v/1.21.1.jar".to_string()],
        Some("/tmp/inst/client.jar".to_string()),
        HostOs::Linux,
    )
    .unwrap();
    assert_eq!(
        cp,
        "/tmp/inst/libraries/modlauncher-10.0.9.jar:/libs/asm-9.7.jar:/libs/a.jar:/tmp/inst/libraries/extra.jar:/v/1.21.1.jar:/tmp/inst/client.jar"
    );
}

#[test]
fn build_classpath_uses_the_windows_separator() {
    let instance = test_instance(LoaderType::Vanilla, None);
    let cp = build_classpath(
        &instance,
        &vec![],
        &vec!["C:/l/a.jar".to_string()],
        &vec![],
        &vec![],
        &vec![],
        Some("C:/i/client.jar".to_string()),
        HostOs::Windows,
    )
    .unwrap();
    assert_eq!(cp, "C:/l/a.jar;C:/i/client.jar");
}

#[test]
fn version_jar_candidates_for_neoforge() {
    let instance = test_instance(LoaderType::NeoForge, Some("21.1.77"));
    let c = version_jar_candidates(&instance);
    assert_eq!(c.len(), 5);
    let p = std::path::PathBuf::from(&c[2]);
    assert_eq!(p, std::path::PathBuf::from("/tmp/inst/minecraft/versions/neoforge-21.1.77/neoforge-21.1.77.jar"));
    let clients = client_jar_candidates(&instance);
    assert_eq!(std::path::PathBuf::from(&clients[0]), std::path::PathBuf::from("/tmp/inst/client.jar"));
    assert_eq!(
        std::path::PathBuf::from(&clients[1]),
        std::path::PathBuf::from("/tmp/inst/minecraft/versions/1.21.1/1.21.1.jar")
    );
}

#[test]
fn native_entries_are_top_level_libraries() {
    assert!(is_native_library_entry("lwjgl.dll"));
    assert!(is_native_library_entry("liblwjgl.so"));
    assert!(is_native_library_entry("liblwjgl.dylib"));
    assert!(!is_native_library_entry("META-INF/x.so"));
    assert!(!is_native_library_entry("linux/x64/liblwjgl.so"));
    assert!(!is_native_library_entry("lwjgl.jar"));
}

#[test]
fn classpath_has_each_entry_once_and_keeps_every_key() {
    let instance = test_instance(LoaderType::Vanilla, None);
    let cp = build_classpath(
        &instance,
        &vec![],
        &vec!["/a.jar".to_string(), "/b.jar".to_string(), "/a.jar".to_string(), " ".to_string()],
        &vec![],
        &vec![],
        &vec!["/b.jar".to_string()],
        Some("/a.jar".to_string()),
        HostOs::Linux,
    )
    .unwrap();
    assert_eq!(cp, "/a.jar:/b.jar");
}
