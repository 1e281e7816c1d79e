use interface_lib::sorting::{sorted_unique, sorted_unique_descending, Rank};
use interface_lib::preflight::{choose_java_source, JavaSource};
use interface_lib::payloads::{apply_launch_config, UpdateInstanceLaunchConfigPayload};
use interface_lib::auth::AccountMode;
use interface_lib::error::LauncherError;
use interface_lib::instance_ops::{
    apply_loader_result, apply_vanilla_result, cloned_instance, delete_outcome,
    fabric_stable_versions, forge_versions_for, needs_install, neoforge_versions_for,
    normalize_libraries, sort_loader_versions, stop_without_process,
};
use interface_lib::loaders::{
    build_processor_variables, forge_installer_location, installer_library_set,
    main_class_from_manifest, merge_profile_data_variables, plan_maven_fetches,
    resolve_processor_arg, ForgeLibrary, ForgeProcessor, LoaderInstallResult, NeoForgeInstaller,
    ProfileDataEntry,
};
use interface_lib::model::{Instance, InstanceState, LauncherSettings, LoaderType, JavaRuntimePreference};
use interface_lib::optimize::{
    analyze_mods, clamp_memory_to_safe_bounds, merge_optimized_jvm_args, optimized_jvm_args,
    recommended_memory_for_mod_count, recommended_xms,
};
use interface_lib::payloads::{AccountProfilePayload, DeleteInstanceResponse, InstanceInfo, LauncherSettingsPayload, OptimizationModePayload};
use interface_lib::platform::HostOs;
use interface_lib::preflight::{
    collect_placeholders, detect_launch_diagnostic, detect_loader_asm_incompatibility,
    diagnostic_message, has_loader_java_incompatibility, plan_repair, preflight_failures,
    preflight_step, unresolved_placeholders, user_forced_gamma_only,
    validate_instance_state_before_launch, DiagnosticHints, LaunchDiagnostic, PreflightAction,
    PreflightFacts, PreflightFailure, PreflightStage,
};
use std::path::PathBuf;

fn instance(loader: LoaderType, version: &str, loader_version: Option<&str>) -> Instance {
    Instance::new("Test".into(), version.into(), loader, loader_version.map(|s| s.to_string()), 2048, "/tmp")
}

fn strings(v: &[&str]) -> Vec<String> {
    v.iter().map(|s| s.to_string()).collect()
}

#[test]
fn detects_loader_asm_issue_for_java21_modded_instance() {
    let mut instance = instance(LoaderType::NeoForge, "1.20.6", Some("20.6.139"));
    instance.libraries = strings(&["org.ow2.asm:asm:9.6", "org.ow2.asm:asm-tree:9.6"]);
    let issue = detect_loader_asm_incompatibility(&instance, 21);
    assert!(issue.is_some());
    assert!(issue.unwrap().contains("[9.6, 9.6]. Actualiza la versión de NeoForge para 1.20.6."));
    assert!(detect_loader_asm_incompatibility(&instance, 17).is_none());
    instance.libraries = strings(&["org.ow2.asm:asm:9.7"]);
    assert!(detect_loader_asm_incompatibility(&instance, 21).is_none());
}

#[test]
fn launch_diagnostics_are_recognised_once_per_kind() {
    assert_eq!(
        detect_launch_diagnostic("java.lang.NullPointerException: rendererFuture"),
        Some(LaunchDiagnostic::NeoForgeEarlyDisplayRendererFuture)
    );
    assert_eq!(
        detect_launch_diagnostic("Unsupported class file major version 65"),
        Some(LaunchDiagnostic::LoaderAsmTooOldForJava21)
    );
    assert_eq!(detect_launch_diagnostic("all good"), None);
    let mut hints = DiagnosticHints::new();
    assert!(hints.observe("x rendererFuture y").is_some());
    assert!(hints.observe("Loading ImmediateWindowProvider fmlearlywindow").is_none());
    assert_eq!(
        hints.observe("ZipException: zip END header not found"),
        Some(diagnostic_message(LaunchDiagnostic::CorruptedLibraryArchive))
    );
    assert!(hints.observe("ZipException: zip END header not found").is_none());
}

#[test]
fn placeholders_are_collected_and_filtered() {
    assert_eq!(collect_placeholders("a${x}b${y}c${z"), vec!["${x}", "${y}"]);
    assert!(collect_placeholders("none").is_empty());
    let args = strings(&["${b}", "${a}-${known}", "${b}"]);
    let known = strings(&["${known}"]);
    assert_eq!(unresolved_placeholders(&args, &known), vec!["${a}", "${b}"]);
}

#[test]
fn preflight_failures_follow_the_facts() {
    let mut inst = instance(LoaderType::Vanilla, "1.20.1", None);
    inst.main_class = Some("Main".into());
    let mut java = interface_lib::java::JavaInstallation {
        path: "/j".into(),
        version: "17.0.8".into(),
        major: 17,
        is_64bit: true,
        vendor: "Temurin".into(),
    };
    let facts = PreflightFacts {
        instance_dir_ok: true,
        game_dir_ok: true,
        assets_ok: true,
        client_jar_ok: true,
        client_jar_corrupted: false,
        java_exists: true,
        java_info: Some(java.clone()),
        missing_maven_artifacts: 0,
    };
    assert!(preflight_failures(&inst, &facts).is_empty());
    java.major = 21;
    let mut bad = facts.clone();
    bad.java_info = Some(java);
    bad.missing_maven_artifacts = 2;
    inst.game_args = strings(&["${mystery}"]);
    assert_eq!(
        preflight_failures(&inst, &bad),
        vec![PreflightFailure::WrongJavaVersion, PreflightFailure::MissingLibraries, PreflightFailure::Unknown]
    );
    assert_eq!(PreflightFailure::IncompatibleLoaderJava.label(), "IncompatibleLoaderJava");
    assert!(has_loader_java_incompatibility(&vec![PreflightFailure::IncompatibleLoaderJava]));
    let plan = plan_repair(&vec![PreflightFailure::MissingJava, PreflightFailure::CorruptedFiles]);
    assert_eq!(plan.java_resolutions, 1);
    assert!(plan.remove_client_jar && plan.reset_main_class && plan.prepare);
}

#[test]
fn preflight_repairs_at_most_twice() {
    let failures = vec![PreflightFailure::MissingLibraries];
    let (s1, a1) = preflight_step(PreflightStage::Initial, &failures, false);
    assert!(matches!(a1, PreflightAction::Repair));
    let (s2, a2) = preflight_step(s1, &failures, false);
    assert!(matches!(a2, PreflightAction::Repair));
    let (_, a3) = preflight_step(s2, &failures, false);
    match a3 {
        PreflightAction::Fail(e) => assert_eq!(
            e.message(),
            "Preflight fallido tras autoreparación. Fallos persistentes: MissingLibraries"
        ),
        _ => panic!("expected a failure"),
    }
    let incompatible = vec![PreflightFailure::IncompatibleLoaderJava];
    assert!(matches!(preflight_step(PreflightStage::Initial, &incompatible, true).1, PreflightAction::Fail(_)));
    let (s, a) = preflight_step(PreflightStage::Initial, &incompatible, false);
    assert!(matches!(a, PreflightAction::Repair));
    assert!(matches!(preflight_step(s, &vec![], false).1, PreflightAction::Proceed));
}

#[test]
fn launch_state_validation() {
    let mut inst = instance(LoaderType::Vanilla, "1.20.1", None);
    let e = validate_instance_state_before_launch(&inst).unwrap_err();
    assert_eq!(e.message(), format!("Instance {} is not in Ready state (current: Created)", inst.id));
    inst.state = InstanceState::Ready;
    assert_eq!(
        validate_instance_state_before_launch(&inst).unwrap_err().message(),
        "Instancia inválida: falta main_class"
    );
    inst.main_class = Some("M".into());
    assert!(validate_instance_state_before_launch(&inst).is_ok());
    let settings = LauncherSettings {
        java_runtime: JavaRuntimePreference::Auto,
        selected_java_path: Some("/runtimes/Java-Gamma/bin/java".into()),
    };
    assert!(user_forced_gamma_only(&settings, &inst));
}

#[test]
fn memory_recommendations() {
    assert_eq!(recommended_memory_for_mod_count(10, &OptimizationModePayload::Balanced), 5120);
    assert_eq!(recommended_memory_for_mod_count(100, &OptimizationModePayload::MaxPerformance), 8192);
    assert_eq!(recommended_memory_for_mod_count(200, &OptimizationModePayload::LowPower), 9216);
    let (mb, notes) = clamp_memory_to_safe_bounds(8192, 6000, 7168, (8192.0f64 * 0.60).floor() as u32);
    assert_eq!(mb, 2928);
    assert_eq!(notes.len(), 1);
    let (mb, notes) = clamp_memory_to_safe_bounds(65536, 60000, 4096, 39321);
    assert_eq!(mb, 4096);
    assert!(notes.is_empty());
    assert_eq!(recommended_xms(3000), 1500);
    assert_eq!(recommended_xms(1000), 1024);
}

#[test]
fn jvm_flags_for_tuning() {
    let old = optimized_jvm_args(11, &OptimizationModePayload::Balanced);
    assert!(!old.contains(&"-XX:+UnlockExperimentalVMOptions".to_string()));
    let new = optimized_jvm_args(21, &OptimizationModePayload::LowPower);
    assert_eq!(new.len(), 8);
    assert_eq!(new[7], "-XX:MaxGCPauseMillis=80");
    let merged = merge_optimized_jvm_args(&strings(&["-Xmx4G", " ", "-Dz=1", "-XX:+UseG1GC"]), &optimized_jvm_args(17, &OptimizationModePayload::Balanced));
    assert_eq!(merged[0], "-Dz=1");
    assert!(!merged.iter().any(|a| a.starts_with("-Xmx")));
    assert_eq!(merged.iter().filter(|a| *a == "-XX:+UseG1GC").count(), 1);
}

#[test]
fn mods_are_analysed_by_name() {
    let paths = strings(&[
        "/mods/Sodium-0.5.jar",
        "/mods/sodium_extra.jar",
        "/mods/OptiFine_1.20.jar",
        "/mods/readme.txt",
        "/mods/lithium-1.jar",
    ]);
    let a = analyze_mods(LoaderType::Forge, &paths);
    assert_eq!(a.mod_count, 4);
    assert_eq!(a.duplicates, vec!["sodium"]);
    assert_eq!(a.conflicts.len(), 3);
    assert_eq!(a.missing, vec!["ferritecore"]);
}

#[test]
fn account_payloads_convert_both_ways() {
    let p = AccountProfilePayload {
        mode: AccountMode::Microsoft,
        username: "Steve".into(),
        uuid: Some("u".into()),
        access_token: None,
        xuid: None,
        user_type: None,
        client_id: Some(" ".into()),
    };
    let profile = p.into_profile();
    assert_eq!(profile.username, "Steve");
    assert_eq!(profile.uuid, "u");
    assert_eq!(profile.access_token, "offline_access_token");
    assert_eq!(profile.user_type, "msa");
    assert_eq!(profile.client_id, "00000000402B5328");
    let back = AccountProfilePayload::from_profile(&profile);
    assert_eq!(back.uuid, Some("u".to_string()));
    let inst = instance(LoaderType::Vanilla, "1.20.1", None);
    let info = InstanceInfo::from_instance(&inst, 42);
    assert_eq!(info.total_size_bytes, 42);
    assert_eq!(info.account.username, "Player");
    let settings = LauncherSettingsPayload::from_settings(&LauncherSettings::default(), true);
    assert!(settings.embedded_java_available);
    assert_eq!(settings.data_dir, "");
}

#[test]
fn installation_results_shape_the_instance() {
    let mut inst = instance(LoaderType::Fabric, "1.21.1", Some("0.16.10"));
    let vanilla = LoaderInstallResult {
        main_class: "net.minecraft.client.main.Main".into(),
        extra_jvm_args: strings(&["-Dv"]),
        extra_game_args: strings(&["--v"]),
        libraries: strings(&["b:b:1", "a:a:1"]),
        asset_index_id: Some("17".into()),
        asset_index_url: Some("https://x/17.json".into()),
        java_major: Some(21),
    };
    apply_vanilla_result(&mut inst, &vanilla);
    let fabric = LoaderInstallResult {
        main_class: "net.fabricmc.loader.impl.launch.knot.KnotClient".into(),
        extra_jvm_args: strings(&["-Df"]),
        extra_game_args: vec![],
        libraries: strings(&["a:a:1", "c:c:1"]),
        asset_index_id: None,
        asset_index_url: None,
        java_major: None,
    };
    apply_loader_result(&mut inst, &fabric);
    normalize_libraries(&mut inst);
    assert_eq!(inst.main_class.as_deref(), Some("net.fabricmc.loader.impl.launch.knot.KnotClient"));
    assert_eq!(inst.jvm_args, vec!["-Dv", "-Df"]);
    assert_eq!(inst.asset_index.as_deref(), Some("17"));
    assert_eq!(inst.libraries, vec!["a:a:1", "b:b:1", "c:c:1"]);
    assert!(!needs_install(&inst, true, false));
    assert!(needs_install(&inst, false, false));
}

#[test]
fn loader_version_lists() {
    assert_eq!(fabric_stable_versions(&vec![("0.16".into(), true), ("0.17-beta".into(), false)]), vec!["0.16"]);
    assert_eq!(forge_versions_for(&strings(&["1.20.1-47.2.0", "1.20-46.0.1", "1.20.1-47.3.0"]), "1.20.1"), vec!["47.2.0", "47.3.0"]);
    assert_eq!(neoforge_versions_for(&strings(&["21.1.1", "21.0.5", "20.6.1"]), "1.21.1"), vec!["21.1.1"]);
    assert_eq!(
        sort_loader_versions(&strings(&["47.2.0", "47.10.1", "47.2.0", "47.3.0-beta"])),
        vec!["47.10.1", "47.3.0-beta", "47.2.0"]
    );
}

#[test]
fn copies_stops_and_deletions() {
    let mut src = instance(LoaderType::Vanilla, "1.20.1", None);
    src.state = InstanceState::Running;
    let copy = cloned_instance(&src, "/insts");
    assert_eq!(copy.name, "Test (Copia)");
    assert_eq!(copy.state, InstanceState::Ready);
    assert_ne!(copy.id, src.id);
    let e = stop_without_process(&mut src);
    assert_eq!(src.state, InstanceState::Ready);
    assert_eq!(e.message(), format!("No hay proceso activo para la instancia {}", src.id));
    assert_eq!(delete_outcome(Ok(()), false, false, HostOs::Linux).unwrap(), DeleteInstanceResponse::Deleted);
    assert_eq!(
        delete_outcome(Err(LauncherError::Other("x".into())), true, false, HostOs::Linux).unwrap(),
        DeleteInstanceResponse::NeedsElevation
    );
    assert_eq!(
        delete_outcome(Err(LauncherError::Other("x".into())), true, true, HostOs::Windows).unwrap(),
        DeleteInstanceResponse::ElevationRequested
    );
    assert!(delete_outcome(Err(LauncherError::Other("x".into())), true, true, HostOs::Linux).is_err());
}

#[test]
fn forge_installer_plumbing() {
    let loc = forge_installer_location("1.20.1", "47.2.0", "/inst");
    assert_eq!(
        loc.installer_url,
        "https://maven.minecraftforge.net/net/minecraftforge/forge/1.20.1-47.2.0/forge-1.20.1-47.2.0-installer.jar"
    );
    let libs = installer_library_set(
        &vec![ForgeLibrary { name: "b:b:1".into() }],
        &vec![ForgeLibrary { name: "a:a:1".into() }, ForgeLibrary { name: "b:b:1".into() }],
        &strings(&["c:c:1"]),
    );
    assert_eq!(libs, vec!["a:a:1", "b:b:1", "c:c:1"]);
    let mut vars = build_processor_variables("/inst", "/libs", "/inst/i.jar", None);
    merge_profile_data_variables(
        &mut vars,
        &vec![ProfileDataEntry { key: "MAPPINGS".into(), client: Some("[de.oceanlabs:mcp:1:mappings@txt]".into()), value: None, text: None }],
    );
    let arg = resolve_processor_arg("{MAPPINGS}", &vars, "/libs").unwrap();
    assert_eq!(PathBuf::from(arg), PathBuf::from("/libs/de/oceanlabs/mcp/1/mcp-1-mappings.txt"));
    assert_eq!(resolve_processor_arg("--side={SIDE}", &vars, "/libs").unwrap(), "--side=client");
    assert!(resolve_processor_arg("[bad]", &vars, "/libs").is_err());
    let p = ForgeProcessor { sides: Some(strings(&["server"])), jar: "a:b:1".into(), classpath: vec![], args: vec![] };
    assert!(!p.runs_on_client());
    assert_eq!(
        main_class_from_manifest("Manifest-Version: 1.0\r\nMain-Class: net.minecraftforge.\r\n binarypatcher.ConsoleTool\r\n"),
        Some("net.minecraftforge.binarypatcher.ConsoleTool".to_string())
    );
    assert_eq!(main_class_from_manifest("Manifest-Version: 1.0\n"), None);
    assert_eq!(
        NeoForgeInstaller::effective_main_class("net.minecraft.client.main.Main".into()),
        "cpw.mods.bootstraplauncher.BootstrapLauncher"
    );
    let fetches = plan_maven_fetches(&vec![("net.fabricmc:intermediary:1.21.1".into(), None)], "https://maven.fabricmc.net", "/libs").unwrap();
    assert_eq!(fetches[0].url, "https://maven.fabricmc.net/net/fabricmc/intermediary/1.21.1/intermediary-1.21.1.jar");
    assert!(plan_maven_fetches(&vec![("bad".into(), None)], "https://m", "/libs").is_err());
}

#[test]
fn sorted_lists_are_sorted_and_unique() {
    assert_eq!(sorted_unique(&strings(&["b", "a", "b", "C"]), Rank::Text), vec!["C", "a", "b"]);
    assert_eq!(
        sorted_unique_descending(&strings(&["1.9", "1.10", "1.9"]), Rank::LoaderVersion),
        vec!["1.10", "1.9"]
    );
    assert!(sorted_unique(&vec![], Rank::Text).is_empty());
}

#[test]
fn java_source_follows_preference() {
    assert_eq!(choose_java_source(JavaRuntimePreference::System, Some(true), false, false).unwrap(), JavaSource::Custom);
    assert!(choose_java_source(JavaRuntimePreference::System, Some(false), false, true).is_err());
    assert_eq!(choose_java_source(JavaRuntimePreference::Embedded, None, false, false).unwrap(), JavaSource::Managed);
    assert_eq!(choose_java_source(JavaRuntimePreference::Embedded, None, false, true).unwrap(), JavaSource::Embedded);
    assert_eq!(choose_java_source(JavaRuntimePreference::Auto, None, true, true).unwrap(), JavaSource::Managed);
}

#[test]
fn launch_config_is_validated() {
    let mut inst = instance(LoaderType::Vanilla, "1.20.1", None);
    let payload = |mb: u32| UpdateInstanceLaunchConfigPayload {
        id: inst_id(),
        java_path: Some("/java".into()),
        max_memory_mb: mb,
        jvm_args: strings(&["-Da", " ", "-Db"]),
        game_args: strings(&[""]),
    };
    let err = apply_launch_config(&mut inst, payload(256)).unwrap_err();
    assert_eq!(err.message(), "La memoria mínima permitida es 512 MB");
    assert_eq!(inst.max_memory_mb, 2048);
    apply_launch_config(&mut inst, payload(4096)).unwrap();
    assert_eq!(inst.max_memory_mb, 4096);
    assert_eq!(inst.jvm_args, vec!["-Da", "-Db"]);
    assert!(inst.game_args.is_empty());
    assert_eq!(inst.java_path.as_deref(), Some("/java"));
}

fn inst_id() -> String {
    "id".to_string()
}
