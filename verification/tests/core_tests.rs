use interface_lib::assets::{download_progress, AssetIndex, AssetManager, AssetObject};
use interface_lib::auth::{AccountMode, AuthResearchInfo, LaunchAccountProfile};
use interface_lib::digest::{check_download_status, check_sha1, lower_hex, sha1_hex, sha1_matches, sha256_hex, verify_sha256};
use interface_lib::error::LauncherError;
use interface_lib::java::{
    detect_runtime_layout, installed_runtime_metadata, mark_chmod_applied, needs_chmod,
    needs_jdk_fallback, resolved_java_cache_path, retry_delay_ms, runtime_java_bin,
    swap_step, DownloadRuntimeSpec, ImageType, ResolvedJavaCache, RuntimeLayout, SwapAction, SwapEvent,
    SwapStage, RUNTIME_SCHEMA_VERSION,
    best_compatible_runtime, managed_runtime_dir, runtime_api_url, runtime_candidate,
    runtime_identifier, runtime_is_valid, runtime_install_layout, runtime_lock_path,
    runtime_spec_from_releases, update_runtime_index, AdoptiumBinary, AdoptiumPackage,
    AdoptiumRelease, AdoptiumVersion, JavaInstallation, RuntimeCandidate, RuntimeMetadata,
};
use interface_lib::loaders::{processor_classpath, processor_main_class, ProcessorPaths};
use interface_lib::model::{Instance, InstanceManager, InstanceState, LauncherSettings, LoaderType};
use interface_lib::platform::HostOs;
use std::path::PathBuf;
use interface_lib::java::runtime_entry_parts;
use interface_lib::optimize::is_log_file;

fn temurin(major: u32) -> JavaInstallation {
    JavaInstallation {
        path: "/j".to_string(),
        version: format!("{major}.0.1"),
        major,
        is_64bit: true,
        vendor: "Temurin".to_string(),
    }
}

fn metadata(id: &str, major: u32, version: &str) -> RuntimeMetadata {
    RuntimeMetadata {
        identifier: id.to_string(),
        major,
        vendor: "Temurin".to_string(),
        version: version.to_string(),
        arch: "x64".to_string(),
        schema_version: 2,
        java_sha256: String::new(),
        chmod_applied: false,
    }
}

fn candidate(id: &str, major: u32, version: &str) -> RuntimeCandidate {
    RuntimeCandidate { metadata: metadata(id, major, version), root: format!("/r/{id}"), java_bin: format!("/r/{id}/bin/java") }
}

#[test]
fn error_classification() {
    let e = LauncherError::JavaNotFound(17);
    assert_eq!(e.i18n_key(), "error.java_not_found");
    assert_eq!(e.kind(), "java");
    assert!(e.is_recoverable());
    assert_eq!(e.severity(), "recoverable");
    assert_eq!(e.message(), "Java not found for major version 17");
    let m = LauncherError::InvalidMavenCoordinate("x".to_string());
    assert_eq!(m.kind(), "maven");
    assert!(!m.is_recoverable());
    assert_eq!(m.severity(), "fatal");
    assert_eq!(m.message(), "Invalid Maven coordinate: x");
    let d = LauncherError::DownloadFailed { url: "https://x".to_string(), status: 404 };
    assert_eq!(d.message(), "Download failed for https://x: HTTP 404");
    assert_eq!(d.kind(), "network");
    let io = LauncherError::Io { path: "C:\\a \"b\"".to_string(), message: "denied".to_string() };
    assert_eq!(io.message(), "IO error at \"C:\\\\a \\\"b\\\"\": denied");
    assert_eq!(LauncherError::Other("plain".to_string()).message(), "plain");
    assert_eq!(LauncherError::Other("plain".to_string()).i18n_key(), "error.other");
}

#[test]
fn offline_profiles_and_sanitizing() {
    let p = LaunchAccountProfile::offline("  Alex ");
    assert_eq!(p.username, "Alex");
    assert_eq!(p.user_type, "legacy");
    let d = LaunchAccountProfile::default();
    assert_eq!(d.username, "Player");
    let blank = LaunchAccountProfile {
        mode: AccountMode::Microsoft,
        username: " ".to_string(),
        uuid: "".to_string(),
        access_token: "tok".to_string(),
        xuid: "".to_string(),
        user_type: " ".to_string(),
        client_id: "".to_string(),
    };
    let s = blank.sanitized();
    assert_eq!(s.username, "Player");
    assert_eq!(s.uuid, "00000000-0000-0000-0000-000000000000");
    assert_eq!(s.access_token, "tok");
    assert_eq!(s.xuid, "0");
    assert_eq!(s.user_type, "msa");
    assert_eq!(s.client_id, "00000000402B5328");
    let again = s.clone().sanitized();
    assert_eq!(again.username, s.username);
    assert_eq!(again.user_type, s.user_type);
    let info = AuthResearchInfo::default();
    assert_eq!(info.official_libraries_base, "https://libraries.minecraft.net");
}

#[test]
fn digests_are_lowercase_hex() {
    assert_eq!(sha1_hex(b"abc"), "a9993e364706816aba3e25717850c26c9cd0d89d");
    assert_eq!(
        sha256_hex(b"abc"),
        "ba7816bf8f01cfea414140de5dae2223b00361a396177a9cb410ff61f20015ad"
    );
    assert_eq!(lower_hex(&[0x00, 0xab, 0x10]), "00ab10");
    assert!(sha1_matches(b"abc", "a9993e364706816aba3e25717850c26c9cd0d89d"));
    assert!(!sha1_matches(b"abc", "A9993E364706816ABA3E25717850C26C9CD0D89D"));
    assert!(check_sha1("/d", b"abc", None).is_ok());
    match check_sha1("/d", b"abc", Some("00")) {
        Err(LauncherError::Sha1Mismatch { path, expected, actual }) => {
            assert_eq!(path, "/d");
            assert_eq!(expected, "00");
            assert_eq!(actual, "a9993e364706816aba3e25717850c26c9cd0d89d");
        }
        _ => panic!("expected a mismatch"),
    }
    assert!(verify_sha256("/z", b"abc", "BA7816BF8F01CFEA414140DE5DAE2223B00361A396177A9CB410FF61F20015AD").is_ok());
    let err = verify_sha256("/z", b"abc", "00").unwrap_err();
    assert_eq!(
        err.message(),
        "SHA-256 mismatch for \"/z\": expected 00, got ba7816bf8f01cfea414140de5dae2223b00361a396177a9cb410ff61f20015ad"
    );
    assert!(check_download_status("https://x", 200).is_ok());
    assert!(check_download_status("https://x", 299).is_ok());
    assert!(matches!(
        check_download_status("https://x", 404),
        Err(LauncherError::DownloadFailed { status: 404, .. })
    ));
}

#[test]
fn newest_usable_runtime_is_chosen() {
    let cands = vec![
        candidate("a", 17, "17.0.8+7"),
        candidate("b", 17, "17.0.10+7"),
        candidate("c", 21, "21.0.3+9"),
        candidate("d", 17, "17.0.10+7"),
        candidate("e", 17, "17.0.12+7"),
    ];
    let probes = vec![Some(temurin(17)), Some(temurin(17)), Some(temurin(21)), Some(temurin(17)), None];
    assert_eq!(best_compatible_runtime(&cands, &probes, 17), Some(1));
    assert_eq!(best_compatible_runtime(&cands, &probes, 21), Some(2));
    assert_eq!(best_compatible_runtime(&cands, &probes, 8), None);
    let mut oracle = temurin(17);
    oracle.vendor = "Oracle".to_string();
    assert!(!runtime_is_valid(&oracle, 17));
    assert!(runtime_is_valid(&temurin(17), 17));
}

#[test]
fn runtime_index_keeps_one_entry_per_runtime() {
    let mut index = vec![metadata("java17-a", 17, "1"), metadata("java21-b", 21, "2")];
    update_runtime_index(&mut index, metadata("java17-a", 17, "3"));
    assert_eq!(index.len(), 2);
    assert_eq!(index[0].identifier, "java21-b");
    assert_eq!(index[1].version, "3");
}

#[test]
fn runtime_installation_paths_and_urls() {
    assert_eq!(
        runtime_api_url(21, "x64", ImageType::Jre),
        "https://api.adoptium.net/v3/assets/latest/21/hotspot?architecture=x64&image_type=jre&os=windows&vendor=eclipse"
    );
    let spec = runtime_spec_from_releases(
        17,
        "x64",
        vec![AdoptiumRelease {
            binary: AdoptiumBinary { package: AdoptiumPackage { checksum: "abc".to_string(), link: "https://dl".to_string() } },
            version: AdoptiumVersion { openjdk_version: "17.0.10+7-LTS".to_string() },
        }],
        vec![],
    )
    .unwrap();
    assert_eq!(spec.version, "17.0.10+7");
    assert_eq!(spec.vendor, "Temurin");
    assert_eq!(spec.url, "https://dl");
    assert_eq!(runtime_identifier(&spec), "java17-temurin-17.0.10_7-x64");
    let err = runtime_spec_from_releases(8, "x64", vec![], vec![]).unwrap_err();
    assert_eq!(err.message(), "No runtime release found for Java 8 (x64)");
    let layout = runtime_install_layout("/rt", "java17-x");
    assert_eq!(PathBuf::from(&layout.temp_root), PathBuf::from("/rt/temp/java17-x_tmp"));
    assert_eq!(PathBuf::from(&layout.backup_root), PathBuf::from("/rt/temp/java17-x_backup"));
    assert_eq!(
        PathBuf::from(runtime_java_bin(&layout.runtime_root, RuntimeLayout::Standard, HostOs::Linux)),
        PathBuf::from("/rt/java17-x/bin/java")
    );
    assert_eq!(PathBuf::from(runtime_lock_path("/rt", 17, "x64")), PathBuf::from("/rt/.downloading_java17_x64.lock"));
    assert_eq!(PathBuf::from(managed_runtime_dir("/data", 11)), PathBuf::from("/data/runtimes/java17"));
    let c = runtime_candidate("/rt/a", Some("a"), metadata("a", 17, "1"), "x64", RuntimeLayout::Standard, HostOs::Windows).unwrap();
    assert_eq!(PathBuf::from(c.java_bin), PathBuf::from("/rt/a/bin/java.exe"));
    assert!(runtime_candidate("/rt/temp", Some("temp"), metadata("t", 17, "1"), "x64", RuntimeLayout::Standard, HostOs::Linux).is_none());
    assert!(runtime_candidate("/rt/b", Some("b"), metadata("b", 17, "1"), "arm64", RuntimeLayout::Standard, HostOs::Linux).is_none());
}

#[test]
fn instances_are_laid_out_under_their_id() {
    let inst = Instance::new("n".into(), "1.21.1".into(), LoaderType::Fabric, Some("0.16".into()), 4096, "/base");
    assert_eq!(inst.id.len(), 36);
    assert_eq!(inst.state, InstanceState::Created);
    assert_eq!(inst.account.username, "Player");
    assert_eq!(inst.account.access_token, "offline_access_token");
    assert_eq!(inst.account.user_type, "legacy");
    assert_eq!(PathBuf::from(&inst.path), PathBuf::from(format!("/base/{}", inst.id)));
    assert_eq!(PathBuf::from(inst.mods_dir()), PathBuf::from(format!("/base/{}/mods", inst.id)));
    let other = Instance::new("n".into(), "1.21.1".into(), LoaderType::Fabric, None, 4096, "/base");
    assert_ne!(inst.id, other.id);
    let manager = InstanceManager::new("/insts".to_string());
    assert_eq!(PathBuf::from(manager.instance_config_path("x")), PathBuf::from("/insts/x/instance.json"));
    assert!(matches!(manager.place(inst.clone(), true), Err(LauncherError::InstanceAlreadyExists(_))));
    let placed = manager.place(inst, false).unwrap();
    assert!(placed.path.starts_with("/insts/"));
    assert_eq!(LoaderType::NeoForge.to_string(), "neoforge");
    let settings = LauncherSettings::default();
    assert!(settings.selected_java_path.is_none());
}

#[test]
fn asset_objects_are_planned_by_hash() {
    let index = AssetIndex {
        objects: vec![
            ("a".to_string(), AssetObject { hash: "abcdef".to_string(), size: 3 }),
            ("b".to_string(), AssetObject { hash: "123456".to_string(), size: 4 }),
        ],
    };
    let entries = AssetManager::object_downloads(&index, "/assets", &vec![false, true]);
    assert_eq!(entries.len(), 1);
    assert_eq!(entries[0].url, "https://resources.download.minecraft.net/ab/abcdef");
    assert_eq!(PathBuf::from(&entries[0].dest), PathBuf::from("/assets/objects/ab/abcdef"));
    assert_eq!(entries[0].sha1, Some("abcdef".to_string()));
    assert_eq!(
        PathBuf::from(AssetManager::index_path("/assets", "https://x/indexes/17.json")),
        PathBuf::from("/assets/indexes/17.json")
    );
    let p = download_progress("https://x", "/d/file.jar", 10, Some(20));
    assert_eq!(p.file_name, "file.jar");
}

#[test]
fn archive_entries_lose_their_top_directory() {
    let parts = runtime_entry_parts(&vec![Some("jdk-17".to_string()), Some("bin".to_string()), None, Some("java".to_string())]);
    assert_eq!(parts, Some(vec!["bin".to_string(), "java".to_string()]));
    assert_eq!(runtime_entry_parts(&vec![Some("jdk-17".to_string())]), None);
    assert_eq!(runtime_entry_parts(&vec![]), None);
}

#[test]
fn log_files_are_recognised() {
    assert!(is_log_file("/g/logs/latest.log"));
    assert!(is_log_file("/g/logs/2024-01-01-1.log.GZ"));
    assert!(!is_log_file("/g/logs/debug.txt"));
    assert!(!is_log_file("/g/logs/.log"));
}

fn release(link: &str, version: &str) -> AdoptiumRelease {
    AdoptiumRelease {
        binary: AdoptiumBinary { package: AdoptiumPackage { checksum: "c".to_string(), link: link.to_string() } },
        version: AdoptiumVersion { openjdk_version: version.to_string() },
    }
}

#[test]
fn bundle_runtimes_are_found_under_contents_home() {
    let c = runtime_candidate("/rt/m", Some("m"), metadata("m", 17, "1"), "x64", RuntimeLayout::MacBundle, HostOs::MacOs)
        .unwrap();
    assert_eq!(PathBuf::from(&c.java_bin), PathBuf::from("/rt/m/Contents/Home/bin/java"));
    assert_eq!(PathBuf::from(&c.root), PathBuf::from("/rt/m"));
    assert_eq!(detect_runtime_layout(true, true), RuntimeLayout::Standard);
    assert_eq!(detect_runtime_layout(false, true), RuntimeLayout::MacBundle);
    assert_eq!(detect_runtime_layout(false, false), RuntimeLayout::Standard);
}

#[test]
fn a_jdk_is_taken_when_no_jre_is_released() {
    assert_eq!(
        runtime_api_url(17, "aarch64", ImageType::Jdk),
        "https://api.adoptium.net/v3/assets/latest/17/hotspot?architecture=aarch64&image_type=jdk&os=windows&vendor=eclipse"
    );
    assert!(needs_jdk_fallback(&vec![]));
    assert!(!needs_jdk_fallback(&vec![release("https://jre", "17.0.1+1")]));
    let spec = runtime_spec_from_releases(17, "x64", vec![], vec![release("https://jdk", "17.0.2+8")]).unwrap();
    assert_eq!(spec.url, "https://jdk");
    assert_eq!(spec.major, 17);
    assert_eq!(spec.arch, "x64");
    let spec = runtime_spec_from_releases(17, "x64", vec![release("https://jre", "17.0.1+1")], vec![release("https://jdk", "17.0.2+8")])
        .unwrap();
    assert_eq!(spec.url, "https://jre");
}

#[test]
fn installed_runtime_records_schema_hash_and_chmod() {
    let spec = DownloadRuntimeSpec {
        major: 21,
        arch: "x64".to_string(),
        vendor: "Temurin".to_string(),
        version: "21.0.1+12".to_string(),
        url: "https://dl".to_string(),
        sha256: "x".to_string(),
    };
    let mut m = installed_runtime_metadata("java21-temurin".to_string(), 21, spec, b"abc", false);
    assert_eq!(m.schema_version, RUNTIME_SCHEMA_VERSION);
    assert_eq!(m.schema_version, 2);
    assert_eq!(m.java_sha256, "ba7816bf8f01cfea414140de5dae2223b00361a396177a9cb410ff61f20015ad");
    assert_eq!(m.identifier, "java21-temurin");
    assert!(needs_chmod(&m, HostOs::Linux));
    assert!(!needs_chmod(&m, HostOs::Windows));
    mark_chmod_applied(&mut m);
    assert!(m.chmod_applied);
    assert!(!needs_chmod(&m, HostOs::Linux));
}

#[test]
fn resolved_java_cache_replaces_and_appends() {
    assert_eq!(PathBuf::from(resolved_java_cache_path("/data")), PathBuf::from("/data/resolved_java.json"));
    let mut cache = ResolvedJavaCache { entries: vec![] };
    assert_eq!(cache.lookup(17), None);
    cache.record(17, "/a/java".to_string());
    cache.record(21, "/b/java".to_string());
    cache.record(17, "/c/java".to_string());
    assert_eq!(cache.entries.len(), 2);
    assert_eq!(cache.entries[0], (17, "/c/java".to_string()));
    assert_eq!(cache.lookup(17), Some("/c/java".to_string()));
    assert_eq!(cache.lookup(21), Some("/b/java".to_string()));
    assert_eq!(cache.lookup(8), None);
}

#[test]
fn downloads_back_off_exponentially() {
    assert_eq!(retry_delay_ms(0), Some(500));
    assert_eq!(retry_delay_ms(1), Some(1000));
    assert_eq!(retry_delay_ms(2), None);
}

#[test]
fn runtime_replacement_keeps_the_previous_one_until_the_new_one_is_in_place() {
    let (s, a) = swap_step(SwapStage::Unpacked, SwapEvent::Validated { valid: true, previous_exists: true });
    assert_eq!((s, a), (SwapStage::MovingAside, SwapAction::MoveAside));
    let (s, a) = swap_step(s, SwapEvent::StepDone(true));
    assert_eq!((s, a), (SwapStage::MovingIn { had_previous: true }, SwapAction::MoveIn));
    let (s, a) = swap_step(s, SwapEvent::StepDone(true));
    assert_eq!((s, a), (SwapStage::RemovingPrevious, SwapAction::RemovePrevious));
    assert_eq!(swap_step(s, SwapEvent::StepDone(false)), (SwapStage::Done, SwapAction::Installed));
    // The new runtime cannot be moved in: the previous one is put back.
    let (s, a) = swap_step(SwapStage::MovingIn { had_previous: true }, SwapEvent::StepDone(false));
    assert_eq!((s, a), (SwapStage::Restoring, SwapAction::PutBack));
    assert_eq!(swap_step(s, SwapEvent::StepDone(true)), (SwapStage::Done, SwapAction::Failed));
    // Nothing installed before: the new runtime goes straight in.
    let (s, a) = swap_step(SwapStage::Unpacked, SwapEvent::Validated { valid: true, previous_exists: false });
    assert_eq!((s, a), (SwapStage::MovingIn { had_previous: false }, SwapAction::MoveIn));
    assert_eq!(swap_step(s, SwapEvent::StepDone(true)), (SwapStage::Done, SwapAction::Installed));
    // An invalid runtime is discarded and moves nothing.
    let (s, a) = swap_step(SwapStage::Unpacked, SwapEvent::Validated { valid: false, previous_exists: true });
    assert_eq!((s, a), (SwapStage::Done, SwapAction::DiscardNew));
    assert_eq!(swap_step(s, SwapEvent::StepDone(true)), (SwapStage::Done, SwapAction::Failed));
}

#[test]
fn processor_classpath_keeps_what_exists() {
    let paths = ProcessorPaths {
        jar_path: "/l/p.jar".to_string(),
        classpath: vec!["/l/a.jar".to_string(), "/l/b.jar".to_string(), "/l/c.jar".to_string()],
    };
    assert_eq!(
        processor_classpath("g:p:1", &paths, true, &vec![true, false, true], false).unwrap(),
        vec!["/l/p.jar".to_string(), "/l/a.jar".to_string(), "/l/c.jar".to_string()]
    );
    assert_eq!(
        processor_classpath("g:p:1", &paths, false, &vec![false, true, false], true).unwrap(),
        vec!["/l/b.jar".to_string()]
    );
    let missing = processor_classpath("g:p:1", &paths, false, &vec![true, true, true], false).unwrap_err();
    assert!(matches!(missing, LauncherError::Loader(ref m) if m == "Missing Forge processor JAR: /l/p.jar"));
    let empty = processor_classpath("g:p:1", &paths, false, &vec![false, false, false], true).unwrap_err();
    assert!(matches!(empty, LauncherError::Other(ref m) if m == "Classpath vacío para procesador NeoForge g:p:1"));
    assert_eq!(processor_main_class(Ok("a.Main".to_string()), Some("b.Main")).unwrap(), "a.Main");
    assert_eq!(processor_main_class(Err(LauncherError::Loader("x".to_string())), Some("b.Main")).unwrap(), "b.Main");
    assert!(matches!(processor_main_class(Err(LauncherError::Loader("x".to_string())), None), Err(LauncherError::Loader(_))));
}
