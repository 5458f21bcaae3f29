//! The gather → assemble pipeline on a hermetic, in-memory python repo.

use context_runtime::assemble::{
    assemble, assembly_request, AssembleParams, AssembledBundle, AssemblyOutput, BundleManifest,
    ContextAssemblyRequest, OverridePosture, SourceClass,
};
use context_runtime::clock::{Timestamp, MAX_CLOCK_SECS, MIN_CLOCK_SECS};
use context_runtime::error::ContextError;
use context_runtime::gather::{
    gather, plan_gather, probe_paths, DirEntryInfo, FileText, GatherReads, GatherResult,
    PathKind, RepoListing, SourceRole,
};
use context_runtime::payload::TypedPayload;

const TARGET: &str = "def add(a, b):\n    return a + b   \n";
const OTHER: &str = "def sub(a, b):\n    return a - b\n";
const README: &str = "# Fixture Repo\n\nA hermetic fixture for context-runtime tests.\n";

fn entry(name: &str, kind: PathKind) -> DirEntryInfo {
    DirEntryInfo { name: Some(name.to_string()), kind }
}

fn probes(present: &[(&str, PathKind)]) -> Vec<PathKind> {
    probe_paths()
        .iter()
        .map(|p| {
            present
                .iter()
                .find(|(q, _)| q == p)
                .map(|(_, k)| *k)
                .unwrap_or(PathKind::Missing)
        })
        .collect()
}

/// pyproject + README + pkg/{target,other}.py
fn python_listing() -> RepoListing {
    RepoListing {
        root_is_dir: true,
        target_kind: PathKind::File,
        target_dir: Some(vec![entry("target.py", PathKind::File), entry("other.py", PathKind::File)]),
        doc_dir: None,
        root_dir: Some(vec![
            entry("pyproject.toml", PathKind::File),
            entry("README.md", PathKind::File),
            entry("pkg", PathKind::Dir),
        ]),
        probes: probes(&[("pyproject.toml", PathKind::File), ("README.md", PathKind::File)]),
    }
}

fn mtime() -> Timestamp {
    Timestamp { secs: 1_700_000_000, nanos: 0 }
}

fn text(content: &str) -> FileText {
    FileText { content: content.to_string(), mtime: mtime() }
}

fn gathered(now: Timestamp) -> GatherResult {
    let plan = plan_gather("/repo", "pkg/target.py", &python_listing()).expect("plan");
    let reads = GatherReads {
        target: Ok(text(TARGET)),
        adjacent: Some(Ok(text(OTHER))),
        doc: Some(Ok(text(README))),
    };
    gather("fixture", "/repo", plan, reads, now).expect("gather")
}

fn params() -> AssembleParams {
    AssembleParams {
        repo_id: "fixture".to_string(),
        repo_root: "/repo".to_string(),
        target_file: "pkg/target.py".to_string(),
        task_intent_id: "ti_codefix_fixture".to_string(),
        task_family: "code_fix".to_string(),
        task_version: "v1".to_string(),
        max_source_age_minutes: 100_000,
        override_posture: OverridePosture::DisallowAll,
    }
}

/// The governed assembly's answer for a request: rejected when a source is
/// older than the freshness ceiling, else a manifest over all refs.
fn engine(req: &ContextAssemblyRequest) -> Result<AssemblyOutput, String> {
    if let Some(s) = req
        .sources
        .iter()
        .find(|s| s.age_minutes > req.freshness_policy.max_source_age_minutes)
    {
        return Err(format!(
            "stale source: {} is {} minutes old (max {})",
            s.payload_ref, s.age_minutes, req.freshness_policy.max_source_age_minutes
        ));
    }
    let refs: Vec<String> = req.sources.iter().map(|s| s.payload_ref.clone()).collect();
    Ok(AssemblyOutput {
        manifest: BundleManifest {
            context_bundle_id: format!("ctxb_{}", req.task_intent_id),
            bundle_hash: format!("hash_{}", refs.join("|")),
        },
        payload_refs: refs,
    })
}

fn assemble_at(p: &AssembleParams, now: Timestamp) -> Result<AssembledBundle, ContextError> {
    let g = gathered(now);
    let outcome = engine(&assembly_request(p, &g));
    let verdicts = vec![Ok(()); g.sources.len()];
    assemble(p, g, now, outcome, verdicts)
}

#[test]
fn plan_picks_adjacent_doc_and_python_facts() {
    let plan = plan_gather("/repo", "/pkg/target.py", &python_listing()).expect("plan");
    assert_eq!(plan.target_rel, "pkg/target.py");
    assert_eq!(plan.adjacent_name.as_deref(), Some("other.py"));
    assert_eq!(plan.adjacent_rel.as_deref(), Some("pkg/other.py"));
    assert_eq!(plan.canonical_doc.as_deref(), Some("README.md"));
    assert_eq!(plan.facts.stack, "python");
    assert_eq!(plan.facts.entry_points, vec!["pkg/target.py".to_string()]);
    assert_eq!(plan.facts.primary_directories, vec!["pkg".to_string()]);
    assert_eq!(plan.facts.canonical_docs, vec!["README.md".to_string()]);
    assert_eq!(plan.facts.build_test_commands, vec!["python -m pytest".to_string()]);
    assert_eq!(
        plan.facts.validation_commands,
        vec!["ruff check .".to_string(), "python -m pytest".to_string()]
    );
}

#[test]
fn gather_builds_four_roles_in_order() {
    let g = gathered(Timestamp { secs: 1_700_000_000 + 7_200, nanos: 0 });
    let roles: Vec<SourceRole> = g.sources.iter().map(|s| s.role).collect();
    assert_eq!(
        roles,
        vec![SourceRole::Target, SourceRole::Adjacent, SourceRole::RepoTruth, SourceRole::Validation]
    );
    let refs: Vec<&str> = g.sources.iter().map(|s| s.payload_ref.as_str()).collect();
    assert_eq!(
        refs,
        vec![
            "file://fixture/pkg/target.py",
            "file://fixture/pkg/other.py",
            "doc://fixture/README.md",
            "validation://fixture/python",
        ]
    );
    assert_eq!(g.sources[0].age_minutes, 120);
    assert_eq!(g.sources[3].age_minutes, 0);
    assert_eq!(g.sources[3].content, "ruff check .\npython -m pytest");
    assert_eq!(g.sources[3].rel_path, None);
    assert_eq!(g.sources[0].content, TARGET);
}

#[test]
fn gather_reports_first_io_error() {
    let plan = plan_gather("/repo", "pkg/target.py", &python_listing()).expect("plan");
    let reads = GatherReads {
        target: Ok(text(TARGET)),
        adjacent: Some(Err("/repo/pkg/other.py: permission denied".to_string())),
        doc: Some(Err("/repo/README.md: permission denied".to_string())),
    };
    match gather("fixture", "/repo", plan, reads, mtime()) {
        Err(ContextError::Io(m)) => assert_eq!(m, "/repo/pkg/other.py: permission denied"),
        _ => panic!("expected Io"),
    }
}

#[test]
fn missing_target_fails_closed() {
    let mut listing = python_listing();
    listing.target_kind = PathKind::Missing;
    match plan_gather("/repo", "pkg/does_not_exist.py", &listing) {
        Err(ContextError::TargetNotFound(m)) => assert_eq!(m, "pkg/does_not_exist.py"),
        _ => panic!("expected TargetNotFound"),
    }
}

#[test]
fn missing_repo_root_fails_closed() {
    let listing = RepoListing {
        root_is_dir: false,
        target_kind: PathKind::Missing,
        target_dir: None,
        doc_dir: None,
        root_dir: None,
        probes: probes(&[]),
    };
    match plan_gather("/nonexistent/repo/root/xyz", "anything.py", &listing) {
        Err(ContextError::RepoNotFound(m)) => assert_eq!(m, "/nonexistent/repo/root/xyz"),
        _ => panic!("expected RepoNotFound"),
    }
}

#[test]
fn empty_target_is_a_bad_request() {
    match plan_gather("/repo", "///", &python_listing()) {
        Err(ContextError::BadRequest(m)) => assert_eq!(m, "target_file is required"),
        _ => panic!("expected BadRequest"),
    }
}

#[test]
fn request_maps_roles_to_governance_classes() {
    let g = gathered(mtime());
    let req = assembly_request(&params(), &g);
    assert_eq!(req.target_refs.active_scene_ref.as_deref(), Some("file://fixture/pkg/target.py"));
    assert_eq!(req.target_refs.adjacent_scene_ref.as_deref(), Some("file://fixture/pkg/other.py"));
    assert_eq!(req.target_refs.accepted_lore_record_refs, vec!["doc://fixture/README.md".to_string()]);
    assert_eq!(req.target_refs.accepted_style_rule_refs, vec!["validation://fixture/python".to_string()]);
    let classes: Vec<SourceClass> = req.sources.iter().map(|s| s.source_class).collect();
    assert_eq!(
        classes,
        vec![
            SourceClass::ActiveScene,
            SourceClass::AdjacentSceneSummaryOrClippedBody,
            SourceClass::AcceptedLoreRecord,
            SourceClass::AcceptedStyleRuleRecord,
        ]
    );
    assert!(req.sources.iter().all(|s| !s.is_override));
    assert_eq!(req.freshness_policy.max_source_age_minutes, 100_000);
    assert_eq!(req.allowed_source_classes.len(), 4);
}

#[test]
fn assembles_governed_bundle_with_code_native_payloads() {
    let mut p = params();
    p.max_source_age_minutes = 100_000;
    let b = assemble_at(&p, mtime()).expect("assembly should succeed");
    assert!(b.manifest.context_bundle_id.starts_with("ctxb_"));
    assert!(!b.manifest.bundle_hash.is_empty());
    assert_eq!(b.payload_refs.len(), 4);
    assert_eq!(b.payloads.len(), 4);
    let classes: Vec<&str> = b.payloads.iter().map(|p| p.artifact_class.as_str()).collect();
    assert!(classes.contains(&"key_file_packet"));
    assert!(classes.contains(&"repo_navigation_map"));
    assert!(classes.contains(&"validation_command_packet"));
    let target = b
        .payloads
        .iter()
        .find(|p| p.payload_ref == "file://fixture/pkg/target.py")
        .expect("target payload present");
    assert_eq!(target.role, "target");
    assert_eq!(target.source_class, "active_scene");
    assert_eq!(target.artifact_class, "key_file_packet");
    match &target.contract {
        TypedPayload::KeyFile(c) => {
            assert_eq!(c.file_path, "pkg/target.py");
            assert_eq!(c.base.title, "Key file: pkg/target.py");
            assert_eq!(c.base.summary_block, "def add(a, b):     return a + b");
            assert_eq!(c.base.created_at, "2023-11-14T22:13:20+00:00");
            assert_eq!(c.dependent_surfaces, vec!["pkg/target.py".to_string()]);
            assert_eq!(c.read_before_edit_refs, vec!["README.md".to_string()]);
        }
        _ => panic!("target must be a key-file packet"),
    }
    let validation = b.payloads.last().unwrap();
    match &validation.contract {
        TypedPayload::Validation(c) => {
            assert_eq!(c.base.title, "Validation commands (python)");
            assert_eq!(c.base.summary_block, "ruff check .; python -m pytest");
        }
        _ => panic!("validation must be a validation command packet"),
    }
}

#[test]
fn stale_source_fails_closed() {
    // Clock two hours ahead of the sources' mtime, ceiling 60 min.
    let now = Timestamp { secs: mtime().secs + 2 * 3600, nanos: 0 };
    let mut p = params();
    p.max_source_age_minutes = 60;
    match assemble_at(&p, now) {
        Err(ContextError::AssemblyRejected(msg)) => assert!(msg.contains("stale"), "got: {msg}"),
        Err(other) => panic!("expected AssemblyRejected(stale), got {other:?}"),
        Ok(_) => panic!("stale must fail closed"),
    }
}

#[test]
fn engine_rejection_is_passed_on_verbatim() {
    let now = mtime();
    let g = gathered(now);
    let n = g.sources.len();
    match assemble(&params(), g, now, Err("stale source: file://fixture/pkg/target.py".to_string()), vec![Ok(()); n]) {
        Err(ContextError::AssemblyRejected(m)) => assert_eq!(m, "stale source: file://fixture/pkg/target.py"),
        _ => panic!("expected AssemblyRejected"),
    }
}

#[test]
fn invalid_payload_fails_closed() {
    let now = mtime();
    let g = gathered(now);
    let refs: Vec<String> = g.sources.iter().map(|s| s.payload_ref.clone()).collect();
    let outcome = Ok(AssemblyOutput {
        manifest: BundleManifest { context_bundle_id: "ctxb_x".to_string(), bundle_hash: "h".to_string() },
        payload_refs: refs,
    });
    let verdicts = vec![Ok(()), Err("file_path must not be empty".to_string()), Err("later".to_string()), Ok(())];
    match assemble(&params(), g, now, outcome, verdicts) {
        Err(ContextError::PayloadInvalid(m)) => assert_eq!(m, "adjacent payload: file_path must not be empty"),
        _ => panic!("expected PayloadInvalid"),
    }
}

#[test]
fn assembly_is_deterministic_same_inputs_same_hash() {
    let now = mtime();
    let first = assemble_at(&params(), now).expect("first");
    let second = assemble_at(&params(), now).expect("second");
    assert_eq!(first.manifest.context_bundle_id, second.manifest.context_bundle_id);
    assert_eq!(first.manifest.bundle_hash, second.manifest.bundle_hash);
    assert_eq!(first.payload_refs, second.payload_refs);
    let h1: Vec<&str> = first.payloads.iter().map(|p| p.content_hash.as_str()).collect();
    let h2: Vec<&str> = second.payloads.iter().map(|p| p.content_hash.as_str()).collect();
    assert_eq!(h1, h2);
}

#[test]
fn created_at_at_the_clock_extremes() {
    let mut p = params();
    p.max_source_age_minutes = u64::MAX;
    let latest = Timestamp { secs: MAX_CLOCK_SECS, nanos: 999_999_999 };
    let b = assemble_at(&p, latest).expect("assemble");
    match &b.payloads[0].contract {
        TypedPayload::KeyFile(c) => assert!(
            c.base.created_at.starts_with("+262142-12-31T23:59:59"),
            "got {}",
            c.base.created_at
        ),
        _ => panic!("target must be a key-file packet"),
    }
    let earliest = Timestamp { secs: MIN_CLOCK_SECS, nanos: 0 };
    let b = assemble_at(&p, earliest).expect("assemble");
    match &b.payloads[0].contract {
        TypedPayload::KeyFile(c) => assert!(
            c.base.created_at.starts_with("-262143-01-01T00:00:00"),
            "got {}",
            c.base.created_at
        ),
        _ => panic!("target must be a key-file packet"),
    }
}
