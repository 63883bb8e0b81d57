use external_types_cli::config::{config_source, resolve_config_for_package, ConfigSource};
use external_types_cli::model::{Metadata, Package, ResolveNode, Target, TargetKind};
use external_types_cli::package::{
    check_package, resolve_features_for_package, resolve_lib_name_for_package, CheckPlan, SkipReason,
};
use external_types_cli::workspace::members_by_name;

fn target(name: &str, kinds: Vec<TargetKind>) -> Target {
    Target { name: name.to_string(), kinds }
}

fn package(name: &str, targets: Vec<Target>, metadata: &str) -> Package {
    Package {
        name: name.to_string(),
        id: format!("path+file:///ws/{name}#0.1.0"),
        targets,
        metadata: metadata.to_string(),
    }
}

#[test]
fn lib_name_of_single_library() {
    let p = package(
        "test-crate",
        vec![
            target("test-crate", vec![TargetKind::Other]),
            target("test_crate", vec![TargetKind::Lib]),
        ],
        "null",
    );
    assert_eq!(resolve_lib_name_for_package(&p), Some("test_crate".to_string()));
}

#[test]
fn lib_name_with_custom_name() {
    let p = package("test-crate-custom-lib-name", vec![target("renamed_lib", vec![TargetKind::Lib])], "null");
    assert_eq!(resolve_lib_name_for_package(&p), Some("renamed_lib".to_string()));
}

#[test]
fn lib_name_absent_without_library() {
    let p = package("binary-only", vec![target("binary-only", vec![TargetKind::Other])], "null");
    assert_eq!(resolve_lib_name_for_package(&p), None);
}

#[test]
fn lib_name_absent_with_two_libraries() {
    let p = package(
        "odd",
        vec![target("a", vec![TargetKind::Lib]), target("b", vec![TargetKind::Lib])],
        "null",
    );
    assert_eq!(resolve_lib_name_for_package(&p), None);
}

#[test]
fn proc_macro_package_is_skipped() {
    let p = package(
        "proc-macro",
        vec![target("proc_macro_pkg", vec![TargetKind::ProcMacro])],
        "null",
    );
    assert_eq!(check_package(&p), CheckPlan::Skip(SkipReason::ProcMacro));
}

#[test]
fn proc_macro_wins_over_library() {
    let p = package(
        "both",
        vec![target("lib", vec![TargetKind::Lib]), target("pm", vec![TargetKind::ProcMacro])],
        "null",
    );
    assert_eq!(check_package(&p), CheckPlan::Skip(SkipReason::ProcMacro));
}

#[test]
fn binary_only_package_is_skipped() {
    let p = package("binary-only", vec![target("binary-only", vec![TargetKind::Other])], "null");
    assert_eq!(check_package(&p), CheckPlan::Skip(SkipReason::NoLibTarget));
}

#[test]
fn library_package_is_checked() {
    let p = package("lib-crate", vec![target("lib_crate", vec![TargetKind::Lib])], "null");
    assert_eq!(check_package(&p), CheckPlan::Check("lib_crate".to_string()));
}

#[test]
fn skip_reason_texts() {
    assert_eq!(SkipReason::NoLibTarget.text(), "package has no lib target");
    assert_eq!(SkipReason::ProcMacro.text(), "package is a proc-macro crate");
}

fn metadata(packages: Vec<Package>, root: Option<usize>, members: Vec<usize>, resolve: Option<Vec<ResolveNode>>) -> Metadata {
    Metadata { packages, root, members, resolve }
}

#[test]
fn features_from_resolve_graph() {
    let p = package("test-crate", vec![target("test_crate", vec![TargetKind::Lib])], "null");
    let node = ResolveNode { id: p.id.clone(), features: vec!["default".to_string(), "extra".to_string()] };
    let other = ResolveNode { id: "other".to_string(), features: vec!["x".to_string()] };
    let m = metadata(vec![p.clone()], Some(0), vec![0], Some(vec![other, node]));
    assert_eq!(
        resolve_features_for_package(&m, &p),
        Ok(vec!["default".to_string(), "extra".to_string()])
    );
}

#[test]
fn features_fail_without_resolve_graph() {
    let p = package("test-crate", vec![], "null");
    let m = metadata(vec![p.clone()], Some(0), vec![0], None);
    assert_eq!(
        resolve_features_for_package(&m, &p),
        Err("Cargo metadata didn't have resolved nodes".to_string())
    );
}

#[test]
fn features_fail_without_node() {
    let p = package("test-crate", vec![], "null");
    let m = metadata(vec![p.clone()], Some(0), vec![0], Some(vec![]));
    assert_eq!(
        resolve_features_for_package(&m, &p),
        Err("Failed to find node for package test-crate".to_string())
    );
}

#[test]
fn config_defaults_without_metadata() {
    let p = package("a", vec![], "null");
    assert_eq!(resolve_config_for_package(&p), ConfigSource::Default);
}

#[test]
fn config_defaults_without_own_section() {
    let p = package("a", vec![], r#"{"docs":{"rs":{"all-features":true}}}"#);
    assert_eq!(resolve_config_for_package(&p), ConfigSource::Default);
}

#[test]
fn config_defaults_when_metadata_is_not_an_object() {
    let p = package("a", vec![], "[1,2]");
    assert_eq!(resolve_config_for_package(&p), ConfigSource::Default);
}

#[test]
fn config_from_own_metadata_section() {
    let p = package(
        "a",
        vec![],
        r#"{"docs": {}, "cargo_check_external_types": {"allowed_external_types": ["serde::*"]}}"#,
    );
    assert_eq!(
        resolve_config_for_package(&p),
        ConfigSource::Metadata(r#"{"allowed_external_types":["serde::*"]}"#.to_string())
    );
}

#[test]
fn config_file_takes_precedence() {
    let p = package("a", vec![], r#"{"cargo_check_external_types": {}}"#);
    assert_eq!(
        config_source(&Some("../../tests/allow-some-types.toml".to_string()), &p),
        ConfigSource::File("../../tests/allow-some-types.toml".to_string())
    );
    assert_eq!(config_source(&None, &p), ConfigSource::Metadata("{}".to_string()));
}

#[test]
fn workspace_members_sorted_by_name() {
    let names = ["proc-macro-crate", "lib-crate", "binary-crate", "dep", "lib-crate"];
    let packages: Vec<Package> = names.iter().map(|n| package(n, vec![], "null")).collect();
    let m = metadata(packages, None, vec![0, 1, 2, 4], None);
    assert_eq!(members_by_name(&m), vec![2, 1, 4, 0]);
}

#[test]
fn workspace_sort_is_by_bytes() {
    let names = ["b", "B", "a", "ab", "Z"];
    let packages: Vec<Package> = names.iter().map(|n| package(n, vec![], "null")).collect();
    let m = metadata(packages, None, vec![0, 1, 2, 3, 4], None);
    assert_eq!(members_by_name(&m), vec![1, 4, 2, 3, 0]);
}
