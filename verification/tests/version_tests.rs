use std::cmp::Ordering;

use interface_lib::java::{
    clean_openjdk_version, installation_from_version_output, normalize_version_for_id,
    parse_java_version, parse_major_version, parse_vendor, parse_version_string, platform_arch,
    runtime_track,
};
use interface_lib::inheritance::overlay_entries;
use interface_lib::payloads::{bootstrap_probe_error, phase_role, role_runtimes_root, LaunchPhase, RuntimeRole};
use interface_lib::version_order::{compare_java_versions, compare_versions};
use serde_json::Value;
use interface_lib::version_parts::{
    asm_version_supports_java_21, is_neoforge_compatible, parse_numeric_version_parts,
    required_java_for_minecraft_version, version_sort_key,
};

#[test]
fn neoforge_compatibility_matches_same_minor_line() {
    assert!(is_neoforge_compatible("21.1.127", "1.21.1"));
    assert!(is_neoforge_compatible("20.6.95-beta", "1.20.6"));
}

#[test]
fn neoforge_compatibility_rejects_other_minor_lines() {
    assert!(!is_neoforge_compatible("21.10.4", "1.21.1"));
    assert!(!is_neoforge_compatible("20.5.12", "1.20.1"));
    assert!(!is_neoforge_compatible("invalid", "1.20.1"));
}

#[test]
fn asm_java21_threshold_requires_9_7_or_newer() {
    assert!(asm_version_supports_java_21("9.7"));
    assert!(asm_version_supports_java_21("9.7.1"));
    assert!(!asm_version_supports_java_21("9.6"));
    assert!(!asm_version_supports_java_21("9.6.1"));
}

#[test]
fn parse_numeric_version_parts_ignores_suffixes() {
    assert_eq!(parse_numeric_version_parts("9.7"), vec![9, 7]);
    assert_eq!(parse_numeric_version_parts("9.6.1-neoforge"), vec![9, 6, 1]);
}

#[test]
fn test_parse_major_modern() {
    assert_eq!(parse_major_version("17.0.8"), 17);
    assert_eq!(parse_major_version("21.0.1"), 21);
}

#[test]
fn test_parse_major_legacy() {
    assert_eq!(parse_major_version("1.8.0_392"), 8);
}

#[test]
fn test_parse_version_string() {
    let output = "openjdk version \"17.0.8\" 2023-07-18";
    assert_eq!(parse_version_string(output), Some("17.0.8".to_string()));
}

#[test]
fn java_required_by_minecraft_version() {
    assert_eq!(required_java_for_minecraft_version("1.16.5"), 8);
    assert_eq!(required_java_for_minecraft_version("1.20.4"), 17);
    assert_eq!(required_java_for_minecraft_version("1.20.5"), 21);
    assert_eq!(required_java_for_minecraft_version("1.20.6"), 21);
    assert_eq!(required_java_for_minecraft_version("1.21.1"), 21);
    assert_eq!(required_java_for_minecraft_version("25w03a"), 17);
}

#[test]
fn java_runtime_track_mapping() {
    assert_eq!(runtime_track(8), 8);
    assert_eq!(runtime_track(11), 17);
    assert_eq!(runtime_track(17), 17);
    assert_eq!(runtime_track(21), 21);
}

#[test]
fn java_version_comparison_prefers_newer() {
    assert_eq!(
        compare_java_versions("21.0.2+13", "21.0.3+7"),
        Some(Ordering::Less)
    );
    assert_eq!(
        compare_java_versions("21.0.10+7-LTS", "21.0.3+11"),
        Some(Ordering::Greater)
    );
}

#[test]
fn java_major_detection() {
    assert_eq!(required_java_for_minecraft_version("1.21.4"), 21);
    assert_eq!(required_java_for_minecraft_version("1.21"), 21);
    assert_eq!(required_java_for_minecraft_version("1.20.4"), 17);
    assert_eq!(required_java_for_minecraft_version("1.16.5"), 8);
    assert_eq!(required_java_for_minecraft_version("1.8.9"), 8);
}

#[test]
fn version_string_is_taken_from_first_quoted_line() {
    let output = "no quotes here\nopenjdk version \"21.0.3\" 2024-04-16\nOpenJDK 64-Bit Server VM Temurin";
    assert_eq!(parse_version_string(output), Some("21.0.3".to_string()));
    assert_eq!(parse_version_string("only \"one quote"), None);
    assert_eq!(parse_version_string(""), None);
}

#[test]
fn vendor_is_read_line_by_line() {
    assert_eq!(parse_vendor("OpenJDK Runtime Environment Temurin-21.0.3+9"), "Temurin");
    assert_eq!(parse_vendor("x\nEclipse Adoptium build"), "Adoptium");
    assert_eq!(parse_vendor("Oracle Corporation"), "unknown");
}

#[test]
fn java_version_tuples() {
    assert_eq!(parse_java_version("21.0.3+9-LTS"), Some((21, 0, 3, 9)));
    assert_eq!(parse_java_version("17"), Some((17, 0, 0, 0)));
    assert_eq!(parse_java_version("1.8.0_392"), Some((1, 8, 0, 0)));
    assert_eq!(clean_openjdk_version("21.0.3+9-LTS"), "21.0.3+9");
    assert_eq!(normalize_version_for_id("21.0.3+9 LTS"), "21.0.3_9LTS");
}

#[test]
fn equal_java_versions_compare_equal() {
    assert_eq!(compare_java_versions("17.0.8+7", "17.0.8+7-LTS"), Some(Ordering::Equal));
}

#[test]
fn installation_is_described_from_output() {
    let out = "openjdk version \"17.0.8\" 2023-07-18\nOpenJDK Runtime Environment Temurin-17.0.8+7\nOpenJDK 64-Bit Server VM";
    let inst = installation_from_version_output("/opt/java/bin/java", out).unwrap();
    assert_eq!(inst.path, "/opt/java/bin/java");
    assert_eq!(inst.version, "17.0.8");
    assert_eq!(inst.major, 17);
    assert!(inst.is_64bit);
    assert_eq!(inst.vendor, "Temurin");
    assert!(installation_from_version_output("/x", "garbage").is_none());
}

#[test]
fn adoptium_architecture_names() {
    assert_eq!(platform_arch("x86_64"), "x64");
    assert_eq!(platform_arch("aarch64"), "arm64");
    assert_eq!(platform_arch("riscv64"), "riscv64");
}

#[test]
fn version_order_is_numeric_then_textual() {
    assert_eq!(compare_versions("9.10", "9.9"), Ordering::Greater);
    assert_eq!(compare_versions("1.0", "1.0.0"), Ordering::Less);
    assert_eq!(compare_versions("2.0", "2.0"), Ordering::Equal);
    assert_eq!(version_sort_key("1.20.1-47.2.0"), vec![1, 20, 1, 47, 2, 0]);
    assert_eq!(version_sort_key("beta.3"), vec![0, 3]);
}

#[test]
fn minecraft_versions_default_missing_parts() {
    assert_eq!(required_java_for_minecraft_version("1.17"), 17);
    assert_eq!(required_java_for_minecraft_version("2.0"), 21);
    assert_eq!(required_java_for_minecraft_version(""), 17);
}

fn text(s: &str) -> Value {
    Value::String(s.to_string())
}

fn object(entries: Vec<(&str, Value)>) -> Value {
    Value::Object(entries.into_iter().map(|(k, v)| (k.to_string(), v)).collect())
}

fn entries(v: &Value) -> Vec<(String, Value)> {
    v.as_object().unwrap().clone().into_iter().collect()
}

#[test]
fn merge_with_parent_json_overrides_parent_fields() {
    let parent = object(vec![
        ("mainClass", text("parent.Main")),
        ("libraries", Value::Array(vec![object(vec![("name", text("a:b:1.0"))])])),
        ("arguments", object(vec![("game", Value::Array(vec![text("--parent")]))])),
    ]);
    let current = object(vec![
        ("inheritsFrom", text("1.20.1")),
        ("mainClass", text("child.Main")),
        ("arguments", object(vec![("game", Value::Array(vec![text("--child")]))])),
    ]);
    let merged: serde_json::Map<String, Value> = overlay_entries(entries(&parent), entries(&current)).into_iter().collect();
    let merged = Value::Object(merged);
    assert_eq!(merged["mainClass"], "child.Main");
    assert_eq!(merged["libraries"][0]["name"], "a:b:1.0");
    assert_eq!(merged["arguments"]["game"][0], "--child");
}

#[test]
fn overlay_keeps_parent_order_and_appends_new_keys() {
    let parent = vec![("a".to_string(), 1), ("b".to_string(), 2), ("c".to_string(), 3)];
    let child = vec![("d".to_string(), 40), ("b".to_string(), 20)];
    assert_eq!(
        overlay_entries(parent, child),
        vec![("a".to_string(), 1), ("b".to_string(), 20), ("c".to_string(), 3), ("d".to_string(), 40)]
    );
    assert_eq!(overlay_entries(Vec::<(String, u8)>::new(), vec![("x".to_string(), 1)]), vec![("x".to_string(), 1)]);
}

#[test]
fn runtime_roles_follow_the_minecraft_version() {
    assert_eq!(RuntimeRole::Delta.expected_major(Some("1.21.1")), 17);
    assert_eq!(RuntimeRole::Delta.expected_major(None), 17);
    assert_eq!(RuntimeRole::Gamma.expected_major(Some("1.20.4")), 17);
    assert_eq!(RuntimeRole::Gamma.expected_major(Some("1.20.5")), 21);
    assert_eq!(RuntimeRole::Gamma.expected_major(Some("1.16.5")), 17);
    assert_eq!(RuntimeRole::Gamma.expected_major(None), 17);
    assert_eq!(
        std::path::PathBuf::from(role_runtimes_root("/data", RuntimeRole::Gamma)),
        std::path::PathBuf::from("/data/runtimes/v1/java-gamma")
    );
    assert_eq!(
        std::path::PathBuf::from(role_runtimes_root("/data", RuntimeRole::Delta)),
        std::path::PathBuf::from("/data/runtimes/v1/java-delta")
    );
    assert_eq!(phase_role(LaunchPhase::Bootstrap), RuntimeRole::Delta);
    assert_eq!(phase_role(LaunchPhase::Preparation), RuntimeRole::Delta);
    assert_eq!(phase_role(LaunchPhase::JarAnalysis), RuntimeRole::Delta);
    assert_eq!(phase_role(LaunchPhase::GameLaunch), RuntimeRole::Gamma);
    assert_eq!(
        bootstrap_probe_error(RuntimeRole::Delta, "boom").message(),
        "Runtime de bootstrap inválido (Delta): boom"
    );
}
