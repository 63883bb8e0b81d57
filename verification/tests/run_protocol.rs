use external_types_cli::args::CheckExternalTypesArgs;
use external_types_cli::config::ConfigSource;
use external_types_cli::model::{Metadata, Package, ResolveNode, Target, TargetKind};
use external_types_cli::output_format::OutputFormat;
use external_types_cli::report::{Finding, Location};
use external_types_cli::run::{exit_code, Action, Event, Outcome, Run};
use external_types_cli::sample_derives::{mixed_derive, test_derive, TokenStream};

fn args() -> CheckExternalTypesArgs {
    CheckExternalTypesArgs {
        all_features: false,
        no_default_features: false,
        features: None,
        manifest_path: None,
        target: None,
        config: None,
        verbose: false,
        output_format: OutputFormat::Errors,
        skip_unsupported: false,
    }
}

fn package(name: &str, kind: TargetKind) -> Package {
    Package {
        name: name.to_string(),
        id: format!("id:{name}"),
        targets: vec![Target { name: name.replace('-', "_"), kinds: vec![kind] }],
        metadata: "null".to_string(),
    }
}

fn node(name: &str) -> ResolveNode {
    ResolveNode { id: format!("id:{name}"), features: vec!["default".to_string()] }
}

fn single(p: Package) -> Metadata {
    let n = node(&p.name);
    Metadata { packages: vec![p], root: Some(0), members: vec![0], resolve: Some(vec![n]) }
}

fn mixed_workspace() -> Metadata {
    let packages = vec![
        package("proc-macro-crate", TargetKind::ProcMacro),
        package("lib-crate", TargetKind::Lib),
        package("binary-crate", TargetKind::Other),
    ];
    let resolve = packages.iter().map(|p| node(&p.name)).collect();
    Metadata { packages, root: None, members: vec![0, 1, 2], resolve: Some(resolve) }
}

fn error_finding() -> Finding {
    Finding {
        is_error: true,
        unapproved_type: true,
        type_path: "external_lib::SomeStruct".to_string(),
        location: Some(Location { file: "src/lib.rs".to_string(), line: 8, column: 1 }),
    }
}

fn feed(run: &mut Run, e: Event) -> Action {
    assert!(run.accepts(&e), "event {e:?} not accepted");
    run.step(e)
}

#[test]
fn single_package_with_errors_ends_in_validation_errors() {
    let (mut run, a) = Run::start(&args(), single(package("test-crate", TargetKind::Lib)));
    assert_eq!(a, Action::LoadConfig { package: 0, announce: None, source: ConfigSource::Default });
    let a = feed(&mut run, Event::ConfigLoaded);
    assert_eq!(
        a,
        Action::Check { package: 0, lib_name: "test_crate".to_string(), features: vec!["default".to_string()] }
    );
    let a = feed(&mut run, Event::Checked(vec![error_finding()]));
    assert_eq!(a, Action::ReportErrors { package: 0 });
    let a = feed(&mut run, Event::Reported);
    assert_eq!(a, Action::Exit(Outcome::ValidationErrors));
    assert!(!run.accepts(&Event::Reported));
    if let Action::Exit(o) = a {
        assert_eq!(exit_code(&o), 1);
    }
}

#[test]
fn single_package_without_errors_succeeds() {
    let (mut run, _) = Run::start(&args(), single(package("test-crate", TargetKind::Lib)));
    feed(&mut run, Event::ConfigLoaded);
    feed(&mut run, Event::Checked(vec![]));
    assert_eq!(feed(&mut run, Event::Reported), Action::Exit(Outcome::Success));
}

#[test]
fn listed_features_replace_resolved_ones() {
    let mut a = args();
    a.features = Some(vec!["foo".to_string(), "bar".to_string()]);
    let (mut run, _) = Run::start(&a, single(package("test-crate", TargetKind::Lib)));
    assert_eq!(
        feed(&mut run, Event::ConfigLoaded),
        Action::Check {
            package: 0,
            lib_name: "test_crate".to_string(),
            features: vec!["foo".to_string(), "bar".to_string()],
        }
    );
}

#[test]
fn config_file_is_loaded_first() {
    let mut a = args();
    a.config = Some("../../tests/allow-some-types.toml".to_string());
    let (mut run, act) = Run::start(&a, single(package("test-crate", TargetKind::Lib)));
    assert_eq!(
        act,
        Action::LoadConfig {
            package: 0,
            announce: None,
            source: ConfigSource::File("../../tests/allow-some-types.toml".to_string()),
        }
    );
    assert_eq!(
        feed(&mut run, Event::ConfigFailed("failed to parse config file".to_string())),
        Action::Exit(Outcome::Failure("failed to parse config file".to_string()))
    );
}

#[test]
fn proc_macro_without_skip_flag_fails() {
    let (mut run, _) = Run::start(&args(), single(package("proc-macro", TargetKind::ProcMacro)));
    assert_eq!(
        feed(&mut run, Event::ConfigLoaded),
        Action::Exit(Outcome::Failure(
            "Package 'proc-macro' is not supported: package is a proc-macro crate. Use --skip-unsupported to skip."
                .to_string()
        ))
    );
}

#[test]
fn binary_only_with_skip_flag_succeeds() {
    let mut a = args();
    a.skip_unsupported = true;
    let (mut run, _) = Run::start(&a, single(package("binary-only", TargetKind::Other)));
    assert_eq!(
        feed(&mut run, Event::ConfigLoaded),
        Action::ReportSkip { message: "Skipping binary-only: package has no lib target".to_string() }
    );
    assert_eq!(feed(&mut run, Event::Reported), Action::Exit(Outcome::Success));
}

#[test]
fn workspace_with_features_is_refused() {
    let mut a = args();
    a.features = Some(vec!["some-feature".to_string()]);
    let (run, act) = Run::start(&a, mixed_workspace());
    assert_eq!(
        act,
        Action::Exit(Outcome::Failure(
            "--features is not supported for workspace targets. Use --all-features instead, or run on individual packages."
                .to_string()
        ))
    );
    assert!(!run.accepts(&Event::ConfigLoaded));
}

#[test]
fn mixed_workspace_without_skip_flag_fails_on_first_unsupported() {
    let (mut run, act) = Run::start(&args(), mixed_workspace());
    assert_eq!(
        act,
        Action::LoadConfig {
            package: 2,
            announce: Some("Checking package: binary-crate...".to_string()),
            source: ConfigSource::Default,
        }
    );
    assert_eq!(
        feed(&mut run, Event::ConfigLoaded),
        Action::Exit(Outcome::Failure(
            "Package 'binary-crate' is not supported: package has no lib target. Use --skip-unsupported to skip."
                .to_string()
        ))
    );
}

#[test]
fn mixed_workspace_with_skip_flag_checks_lib_crate() {
    let mut a = args();
    a.skip_unsupported = true;
    a.output_format = OutputFormat::MarkdownTable;
    let (mut run, _) = Run::start(&a, mixed_workspace());
    assert_eq!(
        feed(&mut run, Event::ConfigLoaded),
        Action::ReportSkip { message: "Skipping binary-crate: package has no lib target".to_string() }
    );
    assert_eq!(
        feed(&mut run, Event::Reported),
        Action::LoadConfig {
            package: 1,
            announce: Some("Checking package: lib-crate...".to_string()),
            source: ConfigSource::Default,
        }
    );
    assert_eq!(
        feed(&mut run, Event::ConfigLoaded),
        Action::Check { package: 1, lib_name: "lib_crate".to_string(), features: vec!["default".to_string()] }
    );
    assert_eq!(
        feed(&mut run, Event::Checked(vec![error_finding()])),
        Action::ReportTable {
            lines: vec![
                "## lib-crate".to_string(),
                "".to_string(),
                "| Crate | Type | Used In |".to_string(),
                "| ---   | ---  | ---     |".to_string(),
                "| external_lib | external_lib::SomeStruct | src/lib.rs:8:1 |".to_string(),
                "".to_string(),
            ]
        }
    );
    assert_eq!(
        feed(&mut run, Event::Reported),
        Action::LoadConfig {
            package: 0,
            announce: Some("Checking package: proc-macro-crate...".to_string()),
            source: ConfigSource::Default,
        }
    );
    assert_eq!(
        feed(&mut run, Event::ConfigLoaded),
        Action::ReportSkip { message: "Skipping proc-macro-crate: package is a proc-macro crate".to_string() }
    );
    assert_eq!(feed(&mut run, Event::Reported), Action::Exit(Outcome::Success));
}

#[test]
fn check_failure_ends_the_run() {
    let (mut run, _) = Run::start(&args(), single(package("test-crate", TargetKind::Lib)));
    feed(&mut run, Event::ConfigLoaded);
    assert_eq!(
        feed(&mut run, Event::CheckFailed("rustdoc failed".to_string())),
        Action::Exit(Outcome::Failure("rustdoc failed".to_string()))
    );
}

#[test]
fn missing_resolve_node_fails() {
    let mut m = single(package("test-crate", TargetKind::Lib));
    m.resolve = Some(vec![]);
    let (mut run, _) = Run::start(&args(), m);
    assert_eq!(
        feed(&mut run, Event::ConfigLoaded),
        Action::Exit(Outcome::Failure("Failed to find node for package test-crate".to_string()))
    );
}

#[test]
fn events_out_of_turn_are_refused() {
    let (mut run, _) = Run::start(&args(), single(package("test-crate", TargetKind::Lib)));
    assert!(!run.accepts(&Event::Reported));
    assert!(!run.accepts(&Event::Checked(vec![])));
    feed(&mut run, Event::ConfigLoaded);
    assert!(!run.accepts(&Event::ConfigLoaded));
}

#[test]
fn table_needs_locations() {
    let mut a = args();
    a.output_format = OutputFormat::MarkdownTable;
    let (mut run, _) = Run::start(&a, single(package("test-crate", TargetKind::Lib)));
    feed(&mut run, Event::ConfigLoaded);
    let mut f = error_finding();
    f.location = None;
    assert!(!run.accepts(&Event::Checked(vec![f])));
}

#[test]
fn derives_expand_to_nothing() {
    let input = TokenStream::from_tokens(vec!["struct".to_string(), "Foo".to_string(), ";".to_string()]);
    assert!(!input.is_empty());
    assert!(mixed_derive(input.clone()).is_empty());
    assert!(test_derive(input).is_empty());
    assert!(TokenStream::new().is_empty());
}
