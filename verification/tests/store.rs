//! The bundle store: admitted refs resolve, everything else fails closed.

use context_runtime::assemble::{AssembledBundle, BundleManifest, StoredPayload};
use context_runtime::error::ContextError;
use context_runtime::gather::SourceRole;
use context_runtime::gather::{GatheredSource, RepoFacts};
use context_runtime::payload::build_payload;
use context_runtime::store::BundleStore;

fn facts() -> RepoFacts {
    RepoFacts {
        stack: "python",
        primary_directories: vec!["pkg".to_string()],
        entry_points: vec!["pkg/target.py".to_string()],
        canonical_docs: vec!["README.md".to_string()],
        build_test_commands: vec!["python -m pytest".to_string()],
        validation_commands: vec!["ruff check .".to_string(), "python -m pytest".to_string()],
        validation_execution_order: vec!["lint".to_string(), "test".to_string()],
        validation_pass_conditions: vec!["ruff reports no errors".to_string(), "pytest exits 0".to_string()],
        validation_env_requirements: vec!["python 3.11+ with project venv".to_string()],
    }
}

fn stored(payload_ref: &str, role: SourceRole, content: &str) -> StoredPayload {
    let source = GatheredSource {
        role,
        payload_ref: payload_ref.to_string(),
        rel_path: None,
        content: content.to_string(),
        age_minutes: 0,
    };
    let contract = build_payload(&source, &facts(), "fixture", "2023-11-14T22:13:20+00:00");
    StoredPayload {
        payload_ref: payload_ref.to_string(),
        role: role.as_str().to_string(),
        source_class: "active_scene".to_string(),
        artifact_class: contract.artifact_class().to_string(),
        content_hash: context_runtime::payload::content_hash(content),
        content: content.to_string(),
        contract,
    }
}

fn bundle(id: &str) -> AssembledBundle {
    let refs = vec![
        "file://fixture/pkg/target.py".to_string(),
        "file://fixture/pkg/other.py".to_string(),
        "doc://fixture/README.md".to_string(),
        "validation://fixture/python".to_string(),
    ];
    AssembledBundle {
        repo_id: "fixture".to_string(),
        target_rel: "pkg/target.py".to_string(),
        manifest: BundleManifest { context_bundle_id: id.to_string(), bundle_hash: "h".to_string() },
        payload_refs: refs.clone(),
        payloads: vec![
            stored(&refs[0], SourceRole::Target, "def add(a, b):\n    return a + b\n"),
            stored(&refs[1], SourceRole::Adjacent, "def sub(a, b):\n    return a - b\n"),
            stored(&refs[2], SourceRole::RepoTruth, "# Fixture Repo\n"),
            stored(&refs[3], SourceRole::Validation, "ruff check .\npython -m pytest"),
        ],
    }
}

#[test]
fn store_serves_admitted_refs_and_fails_closed_on_scope_escape() {
    let bundle = bundle("ctxb_fixture");
    let bundle_id = bundle.manifest.context_bundle_id.clone();
    let admitted = bundle.payload_refs[0].clone();

    let mut store = BundleStore::new();
    let stored_id = store.put(bundle);
    assert_eq!(stored_id, bundle_id);

    // Admitted ref resolves to its payload.
    let got = store.get_payload(&bundle_id, &admitted).expect("admitted ref resolves");
    assert_eq!(got.payload_ref, admitted);

    // Non-admitted ref → scope escape (CONFLICT).
    let err = match store.get_payload(&bundle_id, "file://fixture/not/admitted.py") {
        Err(e) => e,
        Ok(_) => panic!("scope escape must fail closed"),
    };
    assert!(matches!(err, ContextError::RefNotAdmitted(_)), "got {err:?}");

    // Unknown bundle → not found.
    let err = match store.get_payload("ctxb_unknown", &admitted) {
        Err(e) => e,
        Ok(_) => panic!("unknown bundle must fail closed"),
    };
    assert!(matches!(err, ContextError::BundleNotFound(_)), "got {err:?}");
}

#[test]
fn put_replaces_a_bundle_with_the_same_id() {
    let mut store = BundleStore::new();
    store.put(bundle("ctxb_a"));
    let mut second = bundle("ctxb_a");
    second.target_rel = "pkg/other.py".to_string();
    store.put(second);
    store.put(bundle("ctxb_b"));
    assert_eq!(store.get("ctxb_a").expect("a").target_rel, "pkg/other.py");
    assert_eq!(store.get("ctxb_b").expect("b").target_rel, "pkg/target.py");
    assert!(store.get("ctxb_c").is_none());
}

#[test]
fn admitted_ref_without_payload_fails_closed() {
    let mut b = bundle("ctxb_x");
    b.payload_refs.push("file://fixture/pkg/ghost.py".to_string());
    let mut store = BundleStore::new();
    store.put(b);
    match store.get_payload("ctxb_x", "file://fixture/pkg/ghost.py") {
        Err(ContextError::RefNotAdmitted(m)) => assert_eq!(m, "file://fixture/pkg/ghost.py"),
        _ => panic!("expected RefNotAdmitted"),
    }
}

#[test]
fn payload_under_an_inadmissible_ref_is_not_served() {
    let mut b = bundle("ctxb_y");
    b.payload_refs.truncate(1);
    let mut store = BundleStore::new();
    store.put(b);
    assert!(store.get_payload("ctxb_y", "file://fixture/pkg/target.py").is_ok());
    match store.get_payload("ctxb_y", "doc://fixture/README.md") {
        Err(ContextError::RefNotAdmitted(m)) => assert_eq!(m, "doc://fixture/README.md"),
        _ => panic!("expected RefNotAdmitted"),
    }
}

