//! Formulas, edge cases and error variants of the library's building blocks.

use context_runtime::clock::{age_minutes, Timestamp};
use context_runtime::config::Config;
use context_runtime::error::ContextError;
use context_runtime::gather::{
    adjacent_path, choose_adjacent, choose_canonical_doc, extension, file_name, file_ref,
    normalize_target, parent_dir, probe_paths, top_level_dirs, DirEntryInfo, PathKind,
    SourceRole,
};
use context_runtime::http::{assemble_params, default_task_intent_id, parse_override, AssembleReq};
use context_runtime::assemble::OverridePosture;
use context_runtime::payload::{artifact_id, content_hash, first_lines, top_n};
use context_runtime::text::{decimal_string, join_strings, sort_strings, to_hex_lower};

fn ts(secs: i64, nanos: u32) -> Timestamp {
    Timestamp { secs, nanos }
}

#[test]
fn age_counts_whole_minutes_and_never_goes_negative() {
    assert_eq!(age_minutes(ts(7_200, 0), ts(0, 0)), 120);
    assert_eq!(age_minutes(ts(60, 0), ts(0, 1)), 0);
    assert_eq!(age_minutes(ts(119, 999_999_999), ts(0, 0)), 1);
    assert_eq!(age_minutes(ts(0, 0), ts(3_600, 0)), 0);
    assert_eq!(age_minutes(ts(-60, 0), ts(-180, 0)), 2);
}

#[test]
fn content_hash_is_lowercase_sha256_hex() {
    assert_eq!(content_hash(""), "e3b0c44298fc1c149afbf4c8996fb92427ae41e4649b934ca495991b7852b855");
    assert_eq!(content_hash("abc"), "ba7816bf8f01cfea414140de5dae2223b00361a396177a9cb410ff61f20015ad");
    assert_eq!(artifact_id("abc"), "art_ba7816bf8f01cfea");
}

#[test]
fn hex_and_decimal_rendering() {
    assert_eq!(to_hex_lower(&[0x0a, 0x14, 0x1e, 0xff]), "0a141eff");
    assert_eq!(decimal_string(0), "0");
    assert_eq!(decimal_string(10_080), "10080");
    assert_eq!(decimal_string(u64::MAX), "18446744073709551615");
}

#[test]
fn first_lines_summarizes_or_counts_bytes() {
    assert_eq!(first_lines("a\r\nb\n\nc\nd\n", 3), "a b");
    assert_eq!(first_lines("  one\ntwo  \nthree\nfour", 3), "one two   three");
    assert_eq!(first_lines("   \n\t\n", 3), "(6 bytes of content)");
    assert_eq!(first_lines("", 3), "(0 bytes of content)");
    assert_eq!(first_lines("é\u{a0}\n", 3), "é");
    let long = "x".repeat(300);
    assert_eq!(first_lines(&long, 3), "x".repeat(280));
    assert_eq!(first_lines("a\rb\r", 3), "a\rb");
}

#[test]
fn top_n_keeps_a_placeholder_when_empty() {
    let items: Vec<String> = vec!["a".into(), "b".into(), "c".into(), "d".into(), "e".into()];
    assert_eq!(top_n(&items, 4), vec!["a", "b", "c", "d"]);
    assert_eq!(top_n(&Vec::new(), 4), vec!["(none detected)"]);
}

#[test]
fn sorting_and_joining_strings() {
    let v: Vec<String> = vec!["src".into(), "Cargo.toml".into(), "app".into(), "app/__init__.py".into(), "app".into()];
    assert_eq!(sort_strings(&v), vec!["Cargo.toml", "app", "app", "app/__init__.py", "src"]);
    assert_eq!(join_strings(&vec!["a".to_string(), "b".to_string()], "; "), "a; b");
    assert_eq!(join_strings(&Vec::new(), "\n"), "");
}

#[test]
fn path_helpers_follow_std_path() {
    assert_eq!(normalize_target("//pkg/target.py"), "pkg/target.py");
    assert_eq!(file_name("pkg/target.py"), "target.py");
    assert_eq!(extension("target.py"), "py");
    assert_eq!(extension(".bashrc"), "");
    assert_eq!(extension("Makefile"), "");
    assert_eq!(extension("archive.tar.gz"), "gz");
    assert_eq!(parent_dir("pkg/target.py"), "pkg");
    assert_eq!(parent_dir("./pkg/./target.py"), "pkg");
    assert_eq!(parent_dir("a//b/target.py"), "a//b");
    assert_eq!(parent_dir("target.py"), "");
    assert_eq!(adjacent_path("target.py", &"other.py".to_string()), "other.py");
    assert_eq!(adjacent_path("pkg/target.py", &"we\\ird.py".to_string()), "pkg/we/ird.py");
    assert_eq!(file_ref("fixture", "pkg/target.py"), "file://fixture/pkg/target.py");
}

fn e(name: &str, kind: PathKind) -> DirEntryInfo {
    DirEntryInfo { name: Some(name.to_string()), kind }
}

#[test]
fn adjacent_is_first_same_extension_sibling() {
    let listing = Some(vec![
        e("zeta.py", PathKind::File),
        e("target.py", PathKind::File),
        e("beta.py", PathKind::File),
        e("alpha.rs", PathKind::File),
        e("aaa.py", PathKind::Dir),
        DirEntryInfo { name: None, kind: PathKind::File },
    ]);
    assert_eq!(choose_adjacent("pkg/target.py", &listing).as_deref(), Some("beta.py"));
    assert_eq!(choose_adjacent("pkg/target.py", &None), None);
    assert_eq!(choose_adjacent("pkg/target.py", &Some(vec![e("target.py", PathKind::File)])), None);
}

fn probes(present: &[(&str, PathKind)]) -> Vec<PathKind> {
    probe_paths()
        .iter()
        .map(|p| present.iter().find(|(q, _)| q == p).map(|(_, k)| *k).unwrap_or(PathKind::Missing))
        .collect()
}

#[test]
fn canonical_doc_prefers_doc_system_then_fallbacks() {
    let doc = Some(vec![e("ZSYSTEM.md", PathKind::File), e("CODESYSTEM.md", PathKind::File), e("notes.md", PathKind::File)]);
    let p = probes(&[("README.md", PathKind::File)]);
    assert_eq!(choose_canonical_doc(&doc, &p).as_deref(), Some("doc/CODESYSTEM.md"));
    assert_eq!(choose_canonical_doc(&None, &p).as_deref(), Some("README.md"));
    let p2 = probes(&[("README.md", PathKind::Dir), ("readme.md", PathKind::File)]);
    assert_eq!(choose_canonical_doc(&Some(vec![]), &p2).as_deref(), Some("readme.md"));
    assert_eq!(choose_canonical_doc(&None, &probes(&[])), None);
}

#[test]
fn top_level_dirs_skip_hidden_and_tooling_and_keep_twelve() {
    let mut entries = vec![
        e(".git", PathKind::Dir),
        e("target", PathKind::Dir),
        e("node_modules", PathKind::Dir),
        e("README.md", PathKind::File),
        e(".hidden", PathKind::Dir),
    ];
    for i in 0..15 {
        entries.push(e(&format!("d{:02}", 14 - i), PathKind::Dir));
    }
    let dirs = top_level_dirs(&Some(entries));
    let expected: Vec<String> = (0..12).map(|i| format!("d{:02}", i)).collect();
    assert_eq!(dirs, expected);
    assert!(top_level_dirs(&None).is_empty());
}

#[test]
fn config_defaults_and_env_overrides() {
    let d = Config::default();
    assert_eq!(d.bind_addr, "127.0.0.1:8011");
    assert_eq!(d.default_max_source_age_minutes, 10_080);
    let c = Config::from_env_values(Some("0.0.0.0:9000".into()), Some(" 60 ".into()));
    assert_eq!(c.bind_addr, "0.0.0.0:9000");
    assert_eq!(c.default_max_source_age_minutes, 60);
    let c = Config::from_env_values(Some("   ".into()), Some("-5".into()));
    assert_eq!(c.bind_addr, "127.0.0.1:8011");
    assert_eq!(c.default_max_source_age_minutes, 10_080);
    let c = Config::from_env_values(None, Some("+7".into()));
    assert_eq!(c.default_max_source_age_minutes, 7);
    let c = Config::from_env_values(None, Some("18446744073709551616".into()));
    assert_eq!(c.default_max_source_age_minutes, 10_080);
    let c = Config::from_env_values(None, Some("+".into()));
    assert_eq!(c.default_max_source_age_minutes, 10_080);
}

#[test]
fn every_error_has_its_status_and_message() {
    let cases = vec![
        (ContextError::BadRequest("x".into()), 400, "bad request: x"),
        (ContextError::RepoNotFound("x".into()), 404, "repo root not found or not a directory: x"),
        (ContextError::TargetNotFound("x".into()), 404, "target file not found in repo: x"),
        (ContextError::Io("x".into()), 500, "io error: x"),
        (ContextError::AssemblyRejected("x".into()), 422, "context assembly rejected (fail-closed): x"),
        (ContextError::PayloadInvalid("x".into()), 422, "payload contract invalid (fail-closed): x"),
        (ContextError::BundleNotFound("x".into()), 404, "context bundle not found: x"),
        (ContextError::RefNotAdmitted("x".into()), 409, "ref not admitted in bundle (scope escape rejected): x"),
    ];
    for (err, status, message) in cases {
        assert_eq!(err.status(), status);
        assert_eq!(err.message(), message);
    }
}

#[test]
fn override_posture_parsing() {
    assert_eq!(parse_override(None).ok(), Some(OverridePosture::DisallowAll));
    assert_eq!(parse_override(Some("disallow_all")).ok(), Some(OverridePosture::DisallowAll));
    assert_eq!(parse_override(Some("allow_style")).ok(), Some(OverridePosture::AllowAcceptedStyleRuleRecords));
    assert_eq!(
        parse_override(Some("allow_accepted_style_rule_records")).ok(),
        Some(OverridePosture::AllowAcceptedStyleRuleRecords)
    );
    match parse_override(Some("yolo")) {
        Err(ContextError::BadRequest(m)) => {
            assert_eq!(m, "unknown override_posture 'yolo' (expected disallow_all | allow_style)")
        }
        _ => panic!("expected BadRequest"),
    }
}

fn req() -> AssembleReq {
    AssembleReq {
        repo_id: "fixture".into(),
        repo_root: "/repo".into(),
        target_file: "pkg/target.py".into(),
        task_intent_id: None,
        task_family: None,
        task_version: None,
        max_source_age_minutes: None,
        override_posture: None,
    }
}

#[test]
fn request_defaults() {
    let p = assemble_params(req(), &Config::default()).ok().expect("params");
    let expected_id = format!("ti_codefix_{}", &content_hash("fixture:pkg/target.py")[..16]);
    assert_eq!(p.task_intent_id, expected_id);
    assert_eq!(default_task_intent_id("fixture", "pkg/target.py"), expected_id);
    assert!(p.task_intent_id.starts_with("ti_codefix_"));
    assert_eq!(p.task_family, "code_fix");
    assert_eq!(p.task_version, "v1");
    assert_eq!(p.max_source_age_minutes, 10_080);
    assert_eq!(p.override_posture, OverridePosture::DisallowAll);

    let mut r = req();
    r.task_intent_id = Some("ti_given".into());
    r.max_source_age_minutes = Some(5);
    r.override_posture = Some("allow_style".into());
    let p = assemble_params(r, &Config::default()).ok().expect("params");
    assert_eq!(p.task_intent_id, "ti_given");
    assert_eq!(p.max_source_age_minutes, 5);
    assert_eq!(p.override_posture, OverridePosture::AllowAcceptedStyleRuleRecords);

    let mut r = req();
    r.override_posture = Some("nope".into());
    assert!(matches!(assemble_params(r, &Config::default()), Err(ContextError::BadRequest(_))));
}

#[test]
fn roles_and_names() {
    assert_eq!(SourceRole::Target.as_str(), "target");
    assert_eq!(SourceRole::Adjacent.as_str(), "adjacent");
    assert_eq!(SourceRole::RepoTruth.as_str(), "repo_truth");
    assert_eq!(SourceRole::Validation.as_str(), "validation");
    assert_eq!(probe_paths().len(), 16);
}
