use interface_lib::platform::{current_os_name, get_classpath_separator, java_exe, HostOs};
use interface_lib::version_file::{
    split_whitespace, ArgumentEntry, ArgumentRule, ArgumentValue, Arguments, LibraryEntry,
    LibraryRule, NativeEntry, OsRule, RuleAction, VersionEntry, VersionJson, VersionManifest,
};

const OS: HostOs = HostOs::Linux;

fn lib(rules: Option<Vec<LibraryRule>>) -> LibraryEntry {
    LibraryEntry { name: "test:lib:1.0".into(), downloads: None, rules, natives: None }
}

fn version_json(arguments: Option<Arguments>, legacy: Option<&str>) -> VersionJson {
    VersionJson {
        id: Some("test".to_string()),
        main_class: "net.minecraft.client.main.Main".to_string(),
        inherits_from: None,
        libraries: vec![],
        downloads: None,
        asset_index: None,
        arguments,
        minecraft_arguments: legacy.map(|s| s.to_string()),
        java_version: None,
    }
}

#[test]
fn no_rules_means_allowed() {
    assert!(lib(None).is_allowed_for_current_os(OS));
}

#[test]
fn allow_only_current_os() {
    let l = lib(Some(vec![LibraryRule {
        action: RuleAction::Allow,
        os: Some(OsRule { name: Some(current_os_name(OS).to_string()), arch: None, version: None }),
    }]));
    assert!(l.is_allowed_for_current_os(OS));
    assert!(!l.is_allowed_for_current_os(HostOs::Windows));
}

#[test]
fn disallow_current_os() {
    let l = lib(Some(vec![
        LibraryRule { action: RuleAction::Allow, os: None },
        LibraryRule {
            action: RuleAction::Disallow,
            os: Some(OsRule { name: Some(current_os_name(OS).to_string()), arch: None, version: None }),
        },
    ]));
    assert!(!l.is_allowed_for_current_os(OS));
    assert!(l.is_allowed_for_current_os(HostOs::MacOs));
}

#[test]
fn argument_object_rules_apply_to_current_os() {
    let rule = |os: &str| ArgumentRule { action: Some("allow".to_string()), os_name: Some(os.to_string()) };
    let parsed = version_json(
        Some(Arguments {
            game: vec![
                ArgumentEntry::Plain("--username".to_string()),
                ArgumentEntry::Plain("Player".to_string()),
                ArgumentEntry::Conditional {
                    rules: Some(vec![rule("linux")]),
                    value: ArgumentValue::Many(vec!["--demo".to_string()]),
                },
                ArgumentEntry::Conditional {
                    rules: Some(vec![rule("windows")]),
                    value: ArgumentValue::Single("--should-not-appear".to_string()),
                },
            ],
            jvm: vec![],
        }),
        None,
    );
    let game_args = parsed.simple_game_args(HostOs::Linux);
    assert!(game_args.contains(&"--username".to_string()));
    assert!(game_args.contains(&"Player".to_string()));
    assert!(game_args.contains(&"--demo".to_string()));
    assert!(!game_args.contains(&"--should-not-appear".to_string()));
    let windows_args = parsed.simple_game_args(HostOs::Windows);
    assert_eq!(windows_args, vec!["--username", "Player", "--should-not-appear"]);
}

#[test]
fn legacy_arguments_split_at_whitespace() {
    let v = version_json(None, Some("  --username ${auth_player_name}\t--version  ${version_name} "));
    assert_eq!(
        v.simple_game_args(OS),
        vec!["--username", "${auth_player_name}", "--version", "${version_name}"]
    );
    assert!(v.simple_jvm_args(OS).is_empty());
    assert_eq!(v.required_java_major(), 17);
    assert!(split_whitespace("   ").is_empty());
}

#[test]
fn natives_classifier_fills_in_arch() {
    let mut l = lib(None);
    l.natives = Some(vec![
        NativeEntry { os: "linux".to_string(), classifier: Some("natives-linux-${arch}".to_string()) },
        NativeEntry { os: "windows".to_string(), classifier: None },
    ]);
    assert_eq!(l.native_classifier_for_current_os(OS, true), Some("natives-linux-64".to_string()));
    assert_eq!(l.native_classifier_for_current_os(OS, false), Some("natives-linux-32".to_string()));
    assert_eq!(l.native_classifier_for_current_os(HostOs::Windows, true), None);
    assert_eq!(l.native_classifier_for_current_os(HostOs::MacOs, true), None);
}

#[test]
fn manifest_lookups() {
    let entry = |id: &str, t: &str| VersionEntry {
        id: id.to_string(),
        version_type: t.to_string(),
        release_time: "2023-12-07T08:00:00+00:00".to_string(),
        url: format!("https://example.com/{id}.json"),
        sha1: None,
    };
    let manifest = VersionManifest {
        versions: vec![entry("24w10a", "snapshot"), entry("1.20.4", "release"), entry("1.20.3", "release")],
    };
    assert_eq!(manifest.find_version("1.20.4").unwrap().url, "https://example.com/1.20.4.json");
    assert!(manifest.find_version("9.9").is_none());
    let releases: Vec<String> = manifest.releases().iter().map(|e| e.id.clone()).collect();
    assert_eq!(releases, vec!["1.20.4", "1.20.3"]);
}

#[test]
fn platform_names() {
    assert_eq!(current_os_name(HostOs::MacOs), "osx");
    assert_eq!(current_os_name(HostOs::Windows), "windows");
    assert_eq!(get_classpath_separator(HostOs::Windows), ";");
    assert_eq!(get_classpath_separator(HostOs::Linux), ":");
    assert_eq!(java_exe(HostOs::Windows), "java.exe");
    assert_eq!(java_exe(HostOs::Linux), "java");
}
