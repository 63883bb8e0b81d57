use external_types_cli::output_format::OutputFormat;
use external_types_cli::report::{crate_name_of, has_errors, locations_known, markdown_row, markdown_table, Finding, Location};
use external_types_cli::run::{exit_code, Outcome};
use external_types_cli::text::{push_decimal, sort_strings, str_le};
use external_types_cli::args::{CheckExternalTypesArgs, FeatureSelection};

fn finding(type_path: &str, file: &str, line: usize, column: usize) -> Finding {
    Finding {
        is_error: true,
        unapproved_type: true,
        type_path: type_path.to_string(),
        location: Some(Location { file: file.to_string(), line, column }),
    }
}

#[test]
fn output_format_names_parse() {
    assert_eq!(OutputFormat::from_str("errors"), Ok(OutputFormat::Errors));
    assert_eq!(OutputFormat::from_str("markdown-table"), Ok(OutputFormat::MarkdownTable));
}

#[test]
fn output_format_unknown_name_is_refused() {
    assert_eq!(
        OutputFormat::from_str("json"),
        Err("invalid output format: json. Expected `errors` or `markdown-table`.".to_string())
    );
    assert!(OutputFormat::from_str("Errors").is_err());
    assert!(OutputFormat::from_str("").is_err());
}

#[test]
fn output_format_round_trip() {
    for f in [OutputFormat::Errors, OutputFormat::MarkdownTable] {
        assert_eq!(OutputFormat::from_str(&f.name()), Ok(f));
    }
    assert_eq!(OutputFormat::Errors.name(), "errors");
    assert_eq!(OutputFormat::MarkdownTable.name(), "markdown-table");
}

#[test]
fn crate_of_type_path() {
    assert_eq!(crate_name_of("external_lib::SomeStruct"), "external_lib");
    assert_eq!(crate_name_of("std::vec::Vec"), "std");
    assert_eq!(crate_name_of("NoPath"), "NoPath");
    assert_eq!(crate_name_of("a:b::c"), "a:b");
    assert_eq!(crate_name_of("::leading"), "");
    assert_eq!(crate_name_of(""), "");
}

#[test]
fn decimal_rendering() {
    for n in [0usize, 7, 10, 120, 4096, usize::MAX] {
        let mut s = String::from("x");
        push_decimal(&mut s, n);
        assert_eq!(s, format!("x{}", n));
    }
}

#[test]
fn row_of_a_finding() {
    let f = finding("external_lib::SomeStruct", "test-crate/src/lib.rs", 12, 5);
    assert_eq!(
        markdown_row(&f),
        "| external_lib | external_lib::SomeStruct | test-crate/src/lib.rs:12:5 |"
    );
}

#[test]
fn table_rows_are_sorted_and_filtered() {
    let mut warning = finding("ignored::Pattern", "x.rs", 1, 1);
    warning.unapproved_type = false;
    warning.is_error = false;
    warning.location = None;
    let fs = vec![
        finding("external_lib::SomeStruct", "src/lib.rs", 9, 1),
        warning,
        finding("bytes::Bytes", "src/lib.rs", 30, 2),
        finding("external_lib::SomeStruct", "src/lib.rs", 10, 1),
    ];
    assert!(locations_known(&fs));
    let lines = markdown_table("test-crate", false, &fs);
    assert_eq!(
        lines,
        vec![
            "| Crate | Type | Used In |",
            "| ---   | ---  | ---     |",
            "| bytes | bytes::Bytes | src/lib.rs:30:2 |",
            "| external_lib | external_lib::SomeStruct | src/lib.rs:10:1 |",
            "| external_lib | external_lib::SomeStruct | src/lib.rs:9:1 |",
        ]
    );
}

#[test]
fn table_in_workspace_mode_has_heading() {
    let fs = vec![finding("a::B", "f.rs", 1, 2)];
    let lines = markdown_table("lib-crate", true, &fs);
    assert_eq!(
        lines,
        vec![
            "## lib-crate",
            "",
            "| Crate | Type | Used In |",
            "| ---   | ---  | ---     |",
            "| a | a::B | f.rs:1:2 |",
            "",
        ]
    );
}

#[test]
fn missing_location_is_detected() {
    let mut f = finding("a::B", "f.rs", 1, 2);
    f.location = None;
    assert!(!locations_known(&vec![f]));
}

#[test]
fn errors_are_detected() {
    let mut w = finding("a::B", "f.rs", 1, 2);
    w.is_error = false;
    assert!(!has_errors(&vec![w.clone()]));
    assert!(!has_errors(&vec![]));
    assert!(has_errors(&vec![w, finding("c::D", "g.rs", 3, 4)]));
}

#[test]
fn string_order_matches_std() {
    let words = ["", "a", "B", "ab", "aB", "é", "z", "Zeta", "a b", "a:b", "a::b"];
    for x in words {
        for y in words {
            assert_eq!(str_le(x, y), x <= y, "{x:?} {y:?}");
        }
    }
    let v: Vec<String> = words.iter().rev().map(|s| s.to_string()).collect();
    let mut expected = v.clone();
    expected.sort();
    assert_eq!(sort_strings(v), expected);
}

#[test]
fn exit_codes() {
    assert_eq!(exit_code(&Outcome::Success), 0);
    assert_eq!(exit_code(&Outcome::ValidationErrors), 1);
    assert_eq!(exit_code(&Outcome::Failure("boom".to_string())), 2);
}

fn args() -> CheckExternalTypesArgs {
    CheckExternalTypesArgs {
        all_features: false,
        no_default_features: false,
        features: None,
        manifest_path: None,
        target: None,
        config: None,
        verbose: false,
        output_format: OutputFormat::Errors,
        skip_unsupported: false,
    }
}

#[test]
fn metadata_feature_options() {
    assert_eq!(args().metadata_features(), vec![]);
    let mut a = args();
    a.all_features = true;
    a.no_default_features = true;
    a.features = Some(vec!["foo".to_string(), "bar".to_string()]);
    assert_eq!(
        a.metadata_features(),
        vec![
            FeatureSelection::AllFeatures,
            FeatureSelection::NoDefaultFeatures,
            FeatureSelection::SomeFeatures(vec!["foo".to_string(), "bar".to_string()]),
        ]
    );
}
