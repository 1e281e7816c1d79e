use interface_lib::auth::LaunchAccountProfile;
use interface_lib::launch_args::{
    append_env_path, build_launch_args, contains_flag, drop_dangling_option,
    ensure_jvm_arg_pair_present, ensure_loader_jvm_workarounds, format_command_for_logs,
    launch_path_text, launch_version_name, modern_forge_jvm_arg_pairs, native_library_var,
    sanitize_game_args, sanitize_jvm_args, sanitize_numeric_window_args, set_jvm_system_property,
    shell_escape, LaunchDirs,
};
use interface_lib::model::{Instance, LoaderType};
use interface_lib::platform::HostOs;

fn instance(loader: LoaderType, loader_version: Option<&str>) -> Instance {
    let mut instance = Instance::new(
        "test".into(),
        "1.20.1".into(),
        loader,
        loader_version.map(|v| v.to_string()),
        2048,
        "/tmp",
    );
    instance.path = "/tmp/test-instance".to_string();
    instance
}

fn strings(v: &[&str]) -> Vec<String> {
    v.iter().map(|s| s.to_string()).collect()
}

#[test]
fn sanitize_jvm_args_removes_external_classpath_and_unresolved_tokens() {
    let args = strings(&[
        "-XX:+UseG1GC",
        "-cp",
        "${classpath}",
        "-Djava.library.path=${natives_directory}",
        "--class-path",
        "/tmp/wrong.jar",
        "-Dsomething=${unknown_placeholder}",
    ]);
    let instance = instance(LoaderType::Vanilla, None);
    let sanitized = sanitize_jvm_args(
        &instance,
        &args,
        "/tmp/natives",
        "/tmp/test-instance/minecraft",
        "/tmp/libraries",
        "/tmp/classpath.jar",
        HostOs::Linux,
    );
    assert_eq!(sanitized.len(), 2);
    assert_eq!(sanitized[0], "-XX:+UseG1GC");
    assert_eq!(sanitized[1], "-Djava.library.path=/tmp/natives");
}

#[test]
fn sanitize_game_args_resolves_known_placeholders_and_drops_unknown() {
    let mut instance = instance(LoaderType::Vanilla, None);
    instance.asset_index = Some("17".into());
    let args = strings(&[
        "--username",
        "${auth_player_name}",
        "--accessToken",
        "${auth_access_token}",
        "--userType",
        "${user_type}",
        "--xuid",
        "${auth_xuid}",
        "--clientId",
        "${clientid}",
        "--assetIndex",
        "${assets_index_name}",
        "--bad",
        "${unknown_placeholder}",
    ]);
    instance.account = LaunchAccountProfile::offline("Alex").sanitized();
    let sanitized = sanitize_game_args(&instance, &args, "/tmp/game", "/tmp/assets", &instance.account);
    assert_eq!(
        sanitized,
        vec![
            "--username",
            "Alex",
            "--accessToken",
            &instance.account.access_token,
            "--userType",
            "legacy",
            "--xuid",
            "0",
            "--clientId",
            "00000000402B5328",
            "--assetIndex",
            "17",
        ]
    );
}

#[test]
fn sanitize_game_args_drops_dangling_option_for_unresolved_placeholder() {
    let mut instance = instance(LoaderType::Forge, Some("47.2.0"));
    instance.account = LaunchAccountProfile::offline("Alex").sanitized();
    let args = strings(&[
        "--fml.forgeVersion",
        "${missing_forge_version}",
        "--fml.mcVersion",
        "${mc_version}",
    ]);
    let sanitized = sanitize_game_args(&instance, &args, "/tmp/game", "/tmp/assets", &instance.account);
    assert_eq!(sanitized, vec!["--fml.mcVersion", "1.20.1"]);
}

#[test]
fn sanitize_game_args_drops_invalid_window_size_pairs() {
    let mut instance = instance(LoaderType::NeoForge, Some("20.4.1-beta"));
    instance.account = LaunchAccountProfile::offline("Alex").sanitized();
    let args = strings(&["--width", "--height", "480", "--height", "720"]);
    let sanitized = sanitize_game_args(&instance, &args, "/tmp/game", "/tmp/assets", &instance.account);
    assert_eq!(sanitized, vec!["--height", "720"]);
}

#[test]
fn sanitize_game_args_injects_required_neoforge_fml_versions() {
    let mut instance = instance(LoaderType::NeoForge, Some("47.1.79"));
    instance.account = LaunchAccountProfile::offline("Alex").sanitized();
    let sanitized =
        sanitize_game_args(&instance, &Vec::new(), "/tmp/game", "/tmp/assets", &instance.account);
    assert_eq!(
        sanitized,
        vec!["--fml.mcVersion", "1.20.1", "--fml.neoForgeVersion", "47.1.79"]
    );
}

#[test]
fn sanitize_game_args_does_not_duplicate_existing_fml_flags() {
    let mut instance = instance(LoaderType::NeoForge, Some("47.1.79"));
    instance.account = LaunchAccountProfile::offline("Alex").sanitized();
    let args = strings(&["--fml.mcVersion", "${mc_version}", "--fml.neoForgeVersion", "${version}"]);
    let sanitized = sanitize_game_args(&instance, &args, "/tmp/game", "/tmp/assets", &instance.account);
    assert_eq!(
        sanitized,
        vec!["--fml.mcVersion", "1.20.1", "--fml.neoForgeVersion", "47.1.79"]
    );
}

#[test]
fn ensure_loader_jvm_workarounds_adds_neoforge_early_window_flag_once() {
    let instance = instance(LoaderType::NeoForge, Some("47.1.79"));
    let mut args = vec!["-Xmx2048M".to_string()];
    ensure_loader_jvm_workarounds(&instance, &mut args);
    ensure_loader_jvm_workarounds(&instance, &mut args);

    assert!(args.contains(&"-Xmx2048M".to_string()));
    assert!(args.contains(&"--add-modules".to_string()));
    assert!(args.contains(&"ALL-SYSTEM".to_string()));
    assert!(args.contains(&"-DignoreList=bootstraplauncher,neon-fml".to_string()));
    assert!(args.contains(&"-Dfml.earlyprogresswindow=false".to_string()));
    assert!(args.contains(&"-Dforge.earlywindow=false".to_string()));
    assert!(args.contains(&"-Dneoforge.earlydisplay=false".to_string()));
}

#[test]
fn neoforge_workarounds_inject_module_flags_and_early_display_flags() {
    let instance = instance(LoaderType::NeoForge, Some("47.1.79"));
    let mut args = vec!["-Xmx2G".to_string()];
    ensure_loader_jvm_workarounds(&instance, &mut args);

    assert!(args.contains(&"--add-modules".to_string()));
    assert!(args.contains(&"ALL-SYSTEM".to_string()));
    assert!(args.contains(&"--add-opens".to_string()));
    assert!(args.contains(&"java.base/java.lang.reflect=ALL-UNNAMED".to_string()));
    assert!(args.contains(&"--add-modules=jdk.naming.dns".to_string()));
    assert!(args.contains(&"-DignoreList=bootstraplauncher,neon-fml".to_string()));
    assert!(args.contains(&"-Dfml.earlyprogresswindow=false".to_string()));
    assert!(args.contains(&"-Dforge.earlywindow=false".to_string()));
    assert!(args.contains(&"-Dneoforge.earlydisplay=false".to_string()));
}

#[test]
fn forge_workarounds_inject_modern_module_opens_for_java_17_plus() {
    let instance = instance(LoaderType::Forge, Some("47.2.0"));
    let mut args = vec!["-Xmx2G".to_string()];
    ensure_loader_jvm_workarounds(&instance, &mut args);

    assert!(args.contains(&"--add-modules".to_string()));
    assert!(args.contains(&"ALL-SYSTEM".to_string()));
    assert!(args.contains(&"--add-opens".to_string()));
    assert!(args.contains(&"java.base/java.lang.reflect=ALL-UNNAMED".to_string()));
    assert!(!args.contains(&"-DignoreList=bootstraplauncher,neon-fml".to_string()));
}

#[test]
fn neoforge_workarounds_override_conflicting_early_window_properties() {
    let instance = instance(LoaderType::NeoForge, Some("47.1.79"));
    let mut args = strings(&[
        "-DignoreList=something,else",
        "-Dfml.earlyprogresswindow=true",
        "-Dforge.earlywindow=true",
        "-Dneoforge.earlydisplay=true",
    ]);
    ensure_loader_jvm_workarounds(&instance, &mut args);

    assert_eq!(args.iter().filter(|arg| arg.starts_with("-DignoreList=")).count(), 1);
    assert_eq!(args.iter().filter(|arg| arg.starts_with("-Dfml.earlyprogresswindow=")).count(), 1);
    assert_eq!(args.iter().filter(|arg| arg.starts_with("-Dforge.earlywindow=")).count(), 1);
    assert_eq!(args.iter().filter(|arg| arg.starts_with("-Dneoforge.earlydisplay=")).count(), 1);
    assert!(args.contains(&"-DignoreList=bootstraplauncher,neon-fml".to_string()));
    assert!(args.contains(&"-Dfml.earlyprogresswindow=false".to_string()));
    assert!(args.contains(&"-Dforge.earlywindow=false".to_string()));
    assert!(args.contains(&"-Dneoforge.earlydisplay=false".to_string()));
}

#[test]
fn neoforge_workarounds_keep_existing_module_values() {
    let instance = instance(LoaderType::NeoForge, Some("47.1.79"));
    let mut args = strings(&["--add-modules=java.naming", "--add-opens=java.base/java.lang=ALL-UNNAMED"]);
    ensure_loader_jvm_workarounds(&instance, &mut args);

    assert!(args.contains(&"--add-modules=java.naming".to_string()));
    assert!(args.contains(&"--add-modules".to_string()));
    assert!(args.contains(&"ALL-SYSTEM".to_string()));
    assert!(args.contains(&"--add-modules=jdk.naming.dns".to_string()));
    assert!(args.contains(&"--add-opens=java.base/java.lang=ALL-UNNAMED".to_string()));
    assert!(args.contains(&"java.base/java.util.jar=ALL-UNNAMED".to_string()));
}

#[test]
fn workarounds_twice_equal_workarounds_once() {
    for loader in [LoaderType::Forge, LoaderType::NeoForge, LoaderType::Fabric] {
        let instance = instance(loader, Some("47.1.79"));
        let mut once = strings(&["-Xmx2G", "-Dfml.earlyprogresswindow=true", "--add-opens"]);
        ensure_loader_jvm_workarounds(&instance, &mut once);
        let mut twice = once.clone();
        ensure_loader_jvm_workarounds(&instance, &mut twice);
        assert_eq!(once, twice);
    }
}

#[test]
fn vanilla_gets_no_workarounds() {
    let instance = instance(LoaderType::Vanilla, None);
    let mut args = vec!["-Xmx2G".to_string()];
    ensure_loader_jvm_workarounds(&instance, &mut args);
    assert_eq!(args, vec!["-Xmx2G"]);
}

#[test]
fn append_env_path_prefixes_new_value() {
    assert_eq!(append_env_path(None, "/tmp/natives", HostOs::Linux), "/tmp/natives");
    assert_eq!(append_env_path(Some("  "), "/tmp/natives", HostOs::Linux), "/tmp/natives");
    assert_eq!(
        append_env_path(Some("C:/Windows/System32"), "C:/Game/natives", HostOs::Windows),
        "C:/Game/natives;C:/Windows/System32"
    );
    assert_eq!(
        append_env_path(Some("/usr/lib"), "/tmp/natives", HostOs::Linux),
        "/tmp/natives:/usr/lib"
    );
    assert_eq!(native_library_var(HostOs::Linux), "LD_LIBRARY_PATH");
    assert_eq!(native_library_var(HostOs::MacOs), "DYLD_LIBRARY_PATH");
    assert_eq!(native_library_var(HostOs::Windows), "PATH");
}

#[test]
fn shell_escape_quotes_only_when_needed() {
    assert_eq!(shell_escape(""), "\"\"");
    assert_eq!(shell_escape("-Xmx2G"), "-Xmx2G");
    assert_eq!(shell_escape("a b"), "\"a b\"");
    assert_eq!(shell_escape("say \"hi\""), "\"say \\\"hi\\\"\"");
    assert_eq!(
        format_command_for_logs("/usr/bin/java", &strings(&["-cp", "a b.jar"])),
        "/usr/bin/java -cp \"a b.jar\""
    );
    assert_eq!(format_command_for_logs("java", &Vec::new()), "java");
}

#[test]
fn small_argument_helpers() {
    let mut args = strings(&["--demo", "-x"]);
    drop_dangling_option(&mut args);
    assert_eq!(args, vec!["--demo"]);
    let mut plain = strings(&["value"]);
    drop_dangling_option(&mut plain);
    assert_eq!(plain, vec!["value"]);
    assert!(contains_flag(&strings(&["a", "b"]), "b"));
    assert!(!contains_flag(&strings(&["a", "b"]), "c"));
    assert_eq!(
        sanitize_numeric_window_args(strings(&["--width", "-5", "--height", "600", "x"])),
        vec!["-5", "--height", "600", "x"]
    );
    let mut pair = strings(&["--add-opens=java.base/java.io=ALL-UNNAMED"]);
    ensure_jvm_arg_pair_present(&mut pair, "--add-opens", "java.base/java.io=ALL-UNNAMED");
    assert_eq!(pair.len(), 1);
    let mut props = strings(&["-Da=1", "-Db=2", "-Da=3"]);
    set_jvm_system_property(&mut props, "a", "9");
    assert_eq!(props, vec!["-Db=2", "-Da=9"]);
    assert_eq!(modern_forge_jvm_arg_pairs().len(), 12);
    assert_eq!(launch_path_text("\\\\?\\C:\\games", HostOs::Windows), "C:\\games");
    assert_eq!(launch_path_text("\\\\?\\C:\\games", HostOs::Linux), "\\\\?\\C:\\games");
}

#[test]
fn launch_version_names() {
    assert_eq!(launch_version_name(&instance(LoaderType::Forge, Some("47.2.0"))), "1.20.1-47.2.0");
    assert_eq!(launch_version_name(&instance(LoaderType::Forge, Some(" "))), "1.20.1");
    assert_eq!(launch_version_name(&instance(LoaderType::Vanilla, None)), "1.20.1");
}

#[test]
fn launch_arguments_are_assembled_in_order() {
    let mut inst = instance(LoaderType::Vanilla, None);
    let dirs = LaunchDirs {
        natives: "/n".to_string(),
        game_dir: "/g".to_string(),
        library_dir: "/l".to_string(),
        assets_dir: "/g/assets".to_string(),
    };
    let err = build_launch_args(&inst, "/cp.jar", &dirs, HostOs::Linux).unwrap_err();
    assert_eq!(err.message(), "Main class not set on instance");
    inst.main_class = Some("net.minecraft.client.main.Main".to_string());
    let err = build_launch_args(&inst, "  ", &dirs, HostOs::Linux).unwrap_err();
    assert_eq!(
        err.message(),
        "Classpath vacío: se cancela el arranque para evitar 'java -cp' inválido"
    );
    inst.jvm_args = strings(&["-Dx=${natives_directory}"]);
    inst.game_args = strings(&["--gameDir", "${game_directory}"]);
    let args = build_launch_args(&inst, "/cp.jar", &dirs, HostOs::Linux).unwrap();
    assert_eq!(
        args,
        vec![
            "-Xmx2048M",
            "-Xms512M",
            "-Djava.library.path=/n",
            "-DlibraryDirectory=/l",
            "-Dminecraft.launcher.brand=InterfaceOficial",
            "-Dminecraft.launcher.version=0.1.0",
            "-Dx=/n",
            "-cp",
            "/cp.jar",
            "net.minecraft.client.main.Main",
            "--gameDir",
            "/g",
        ]
    );
}
