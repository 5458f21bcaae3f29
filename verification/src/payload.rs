//! Code-native payload bodies.
//!
//! The content behind each bundle ref is a code-native contract: a key-file
//! packet, a repo navigation map, or a validation command packet, each on a
//! fully admissible artifact record. This module builds them; the
//! contracts' own fail-closed validation is run by their owner and its
//! verdict is folded in by `check_payload`.

use vstd::prelude::*;

use sha2::{Digest, Sha256};
use vstd::utf8::encode_utf8;

use crate::error::{ContextError, Result};
use crate::gather::{FactsView, GatheredSource, RepoFacts, SourceRole, SourceView};
use crate::text::{
    chars_of, clone_strings, concat, decimal, decimal_string, first_lines_of, hex_lower, is_hex_lower,
    join, lemma_hex_lower_digits,
    join_strings, lines, prefix, string_from_chars, take_strings, to_hex_lower, to_strings, trim,
    trim_chars, vec_slice, views,
};

verus! {

// ---------------------------------------------------------------------
// Hashes and identifiers

/// The SHA-256 digest of `data`.
pub uninterp spec fn sha256(data: Seq<u8>) -> Seq<u8>;

/// sha2: `Sha256::digest(data)`, the 32-byte SHA-256 digest of `data`;
/// named by `sha256`. The digest length is `Sha256`'s fixed output size.
#[verifier::external_body]
fn sha256_digest(data: &[u8]) -> (d: Vec<u8>)
    ensures
        d@ == sha256(data@),
        d@.len() == 32,
{
    Sha256::digest(data).to_vec()
}

/// Lowercase hex SHA-256 of the UTF-8 bytes of `content`.
pub open spec fn spec_content_hash(content: Seq<char>) -> Seq<char> {
    hex_lower(sha256(encode_utf8(content)))
}

/// The content hash of a payload: lowercase hex SHA-256 of its UTF-8 bytes
/// (64 characters).
pub fn content_hash(content: &str) -> (h: String)
    ensures
        h@ == spec_content_hash(content@),
        h@.len() == 64,
        is_hex_lower(h@),
{
    let d = sha256_digest(content.as_bytes());
    proof {
        lemma_hex_lower_digits(d@);
    }
    to_hex_lower(d.as_slice())
}

/// `art_` and the first 16 hex digits of the hash of the payload ref.
pub open spec fn spec_artifact_id(payload_ref: Seq<char>) -> Seq<char> {
    "art_"@ + spec_content_hash(payload_ref).take(16)
}

pub fn artifact_id(payload_ref: &str) -> (id: String)
    ensures
        id@ == spec_artifact_id(payload_ref@),
{
    let h = content_hash(payload_ref);
    let c = chars_of(h.as_str());
    let head = string_from_chars(vec_slice(&c, 0, 16).as_slice());
    assert(head@ =~= h@.take(16));
    concat("art_", head.as_str())
}

// ---------------------------------------------------------------------
// Summaries

/// The summary of a content: its first `n` lines joined by spaces and
/// trimmed, cut to 280 characters; when that is empty, the content's size
/// in bytes.
pub open spec fn spec_first_lines(content: Seq<char>, n: int) -> Seq<char> {
    let summary = trim(join(prefix(lines(content), n), seq![' ']));
    if summary.len() == 0 {
        "("@ + decimal(encode_utf8(content).len()) + " bytes of content)"@
    } else {
        prefix(summary, 280)
    }
}

pub fn first_lines(content: &str, n: usize) -> (r: String)
    ensures
        r@ == spec_first_lines(content@, n as int),
{
    let v = chars_of(content);
    let ls = first_lines_of(&v, n);
    let joined = join_strings(&ls, " ");
    proof {
        reveal_strlit(" ");
        assert(" "@ =~= seq![' ']);
    }
    let t = trim_chars(&chars_of(joined.as_str()));
    if t.len() == 0 {
        let mut r = "(".to_owned();
        let bytes = content.as_bytes().len();
        let digits = decimal_string(bytes as u64);
        r.append(digits.as_str());
        r.append(" bytes of content)");
        r
    } else {
        let k: usize = if t.len() < 280 { t.len() } else { 280 };
        proof {
            if 280 < t@.len() {
                assert(t@.subrange(0, 280) =~= prefix(t@, 280));
            } else {
                assert(t@.subrange(0, t@.len() as int) =~= prefix(t@, 280));
            }
        }
        string_from_chars(vec_slice(&t, 0, k).as_slice())
    }
}

/// The first `n` items, or `["(none detected)"]` when there are none.
pub open spec fn spec_top_n(items: Seq<Seq<char>>, n: int) -> Seq<Seq<char>> {
    let out = prefix(items, n);
    if out.len() == 0 {
        seq!["(none detected)"@]
    } else {
        out
    }
}

pub fn top_n(items: &Vec<String>, n: usize) -> (r: Vec<String>)
    ensures
        views(r@) == spec_top_n(views(items@), n as int),
{
    let out = take_strings(items, n);
    if out.len() == 0 {
        let r = to_strings(&["(none detected)"]);
        assert(views(r@) =~= seq!["(none detected)"@]);
        r
    } else {
        out
    }
}

} // verus!

verus! {

// ---------------------------------------------------------------------
// Contract shapes

/// Code-native contract class of an artifact.
#[derive(Clone, Copy, Debug, PartialEq, Eq, Structural)]
pub enum ArtifactClass {
    KeyFilePacket,
    RepoNavigationMap,
    ValidationCommandPacket,
}

/// How much authority an artifact carries.
#[derive(Clone, Copy, Debug, PartialEq, Eq, Structural)]
pub enum AuthorityLevel {
    Canonical,
    StrongDerived,
    WeakDerived,
}

/// Lifecycle state of an artifact record (gathered sources are approved).
#[derive(Clone, Copy, Debug, PartialEq, Eq, Structural)]
pub enum LifecycleState {
    Approved,
}

/// Freshness state of an artifact record (gathered sources are fresh).
#[derive(Clone, Copy, Debug, PartialEq, Eq, Structural)]
pub enum FreshnessState {
    Fresh,
}

/// Critic status of an artifact record (gathered sources have passed).
#[derive(Clone, Copy, Debug, PartialEq, Eq, Structural)]
pub enum CriticStatus {
    Passed,
}

/// Admissibility of an artifact record: approved, fresh and passed
/// resolves to admissible.
#[derive(Clone, Copy, Debug, PartialEq, Eq, Structural)]
pub enum AdmissibilityState {
    Admissible,
}

/// Sensitivity classification of an artifact record.
#[derive(Clone, Copy, Debug, PartialEq, Eq, Structural)]
pub enum SensitivityClassification {
    InternalGeneral,
}

/// The artifact record every code-native contract is built on.
pub struct ArtifactRecord {
    pub schema_version: String,
    pub artifact_id: String,
    pub artifact_class: ArtifactClass,
    pub repo_id: String,
    pub title: String,
    pub operational_purpose: String,
    pub summary_block: String,
    pub source_refs: Vec<String>,
    pub source_ref_hashes: Vec<String>,
    pub authority_level: AuthorityLevel,
    pub lifecycle_state: LifecycleState,
    pub freshness_state: FreshnessState,
    pub critic_status: CriticStatus,
    pub admissibility_state: AdmissibilityState,
    pub related_artifact_refs: Vec<String>,
    pub supersedes_artifact_id: Option<String>,
    pub protocol_refs: Vec<String>,
    pub created_at: String,
    pub last_validated_at: String,
    pub producer_identity: String,
    pub sensitivity_classification: SensitivityClassification,
}

pub struct KeyFilePacketContract {
    pub base: ArtifactRecord,
    pub file_path: String,
    pub why_it_matters: String,
    pub dependent_surfaces: Vec<String>,
    pub edit_cautions: Vec<String>,
    pub read_before_edit_refs: Vec<String>,
}

pub struct RepoNavigationMapContract {
    pub base: ArtifactRecord,
    pub primary_directories: Vec<String>,
    pub entry_points: Vec<String>,
    pub canonical_docs: Vec<String>,
    pub build_test_commands: Vec<String>,
}

pub struct ValidationCommandPacketContract {
    pub base: ArtifactRecord,
    pub commands: Vec<String>,
    pub execution_order: Vec<String>,
    pub expected_pass_conditions: Vec<String>,
    pub environment_requirements: Vec<String>,
}

/// A built code-native payload behind one bundle ref.
pub enum TypedPayload {
    KeyFile(KeyFilePacketContract),
    RepoNav(RepoNavigationMapContract),
    Validation(ValidationCommandPacketContract),
}

pub struct ArtifactView {
    pub schema_version: Seq<char>,
    pub artifact_id: Seq<char>,
    pub artifact_class: ArtifactClass,
    pub repo_id: Seq<char>,
    pub title: Seq<char>,
    pub operational_purpose: Seq<char>,
    pub summary_block: Seq<char>,
    pub source_refs: Seq<Seq<char>>,
    pub source_ref_hashes: Seq<Seq<char>>,
    pub authority_level: AuthorityLevel,
    pub lifecycle_state: LifecycleState,
    pub freshness_state: FreshnessState,
    pub critic_status: CriticStatus,
    pub admissibility_state: AdmissibilityState,
    pub related_artifact_refs: Seq<Seq<char>>,
    pub supersedes_artifact_id: Option<Seq<char>>,
    pub protocol_refs: Seq<Seq<char>>,
    pub created_at: Seq<char>,
    pub last_validated_at: Seq<char>,
    pub producer_identity: Seq<char>,
    pub sensitivity_classification: SensitivityClassification,
}

impl View for ArtifactRecord {
    type V = ArtifactView;

    open spec fn view(&self) -> ArtifactView {
        ArtifactView {
            schema_version: self.schema_version@,
            artifact_id: self.artifact_id@,
            artifact_class: self.artifact_class,
            repo_id: self.repo_id@,
            title: self.title@,
            operational_purpose: self.operational_purpose@,
            summary_block: self.summary_block@,
            source_refs: views(self.source_refs@),
            source_ref_hashes: views(self.source_ref_hashes@),
            authority_level: self.authority_level,
            lifecycle_state: self.lifecycle_state,
            freshness_state: self.freshness_state,
            critic_status: self.critic_status,
            admissibility_state: self.admissibility_state,
            related_artifact_refs: views(self.related_artifact_refs@),
            supersedes_artifact_id: match self.supersedes_artifact_id {
                Some(s) => Some(s@),
                None => None,
            },
            protocol_refs: views(self.protocol_refs@),
            created_at: self.created_at@,
            last_validated_at: self.last_validated_at@,
            producer_identity: self.producer_identity@,
            sensitivity_classification: self.sensitivity_classification,
        }
    }
}

pub enum PayloadView {
    KeyFile {
        base: ArtifactView,
        file_path: Seq<char>,
        why_it_matters: Seq<char>,
        dependent_surfaces: Seq<Seq<char>>,
        edit_cautions: Seq<Seq<char>>,
        read_before_edit_refs: Seq<Seq<char>>,
    },
    RepoNav {
        base: ArtifactView,
        primary_directories: Seq<Seq<char>>,
        entry_points: Seq<Seq<char>>,
        canonical_docs: Seq<Seq<char>>,
        build_test_commands: Seq<Seq<char>>,
    },
    Validation {
        base: ArtifactView,
        commands: Seq<Seq<char>>,
        execution_order: Seq<Seq<char>>,
        expected_pass_conditions: Seq<Seq<char>>,
        environment_requirements: Seq<Seq<char>>,
    },
}

impl View for TypedPayload {
    type V = PayloadView;

    open spec fn view(&self) -> PayloadView {
        match self {
            TypedPayload::KeyFile(c) => PayloadView::KeyFile {
                base: c.base@,
                file_path: c.file_path@,
                why_it_matters: c.why_it_matters@,
                dependent_surfaces: views(c.dependent_surfaces@),
                edit_cautions: views(c.edit_cautions@),
                read_before_edit_refs: views(c.read_before_edit_refs@),
            },
            TypedPayload::RepoNav(c) => PayloadView::RepoNav {
                base: c.base@,
                primary_directories: views(c.primary_directories@),
                entry_points: views(c.entry_points@),
                canonical_docs: views(c.canonical_docs@),
                build_test_commands: views(c.build_test_commands@),
            },
            TypedPayload::Validation(c) => PayloadView::Validation {
                base: c.base@,
                commands: views(c.commands@),
                execution_order: views(c.execution_order@),
                expected_pass_conditions: views(c.expected_pass_conditions@),
                environment_requirements: views(c.environment_requirements@),
            },
        }
    }
}

pub open spec fn artifact_class_name(v: PayloadView) -> Seq<char> {
    match v {
        PayloadView::KeyFile { .. } => "key_file_packet"@,
        PayloadView::RepoNav { .. } => "repo_navigation_map"@,
        PayloadView::Validation { .. } => "validation_command_packet"@,
    }
}

impl TypedPayload {
    /// The code-native contract class of the payload.
    pub fn artifact_class(&self) -> (s: &'static str)
        ensures
            s@ == artifact_class_name(self@),
    {
        match self {
            TypedPayload::KeyFile(_) => "key_file_packet",
            TypedPayload::RepoNav(_) => "repo_navigation_map",
            TypedPayload::Validation(_) => "validation_command_packet",
        }
    }
}

} // verus!

verus! {

// ---------------------------------------------------------------------
// Building payloads

/// A fully admissible artifact record for a freshly gathered, accepted
/// source: approved, fresh, passed, admissible, sourced from the payload
/// ref with the content's hash, created and validated at `now`.
pub open spec fn spec_base_record(
    artifact_class: ArtifactClass,
    repo_id: Seq<char>,
    payload_ref: Seq<char>,
    content: Seq<char>,
    title: Seq<char>,
    operational_purpose: Seq<char>,
    summary_block: Seq<char>,
    authority_level: AuthorityLevel,
    now: Seq<char>,
) -> ArtifactView {
    ArtifactView {
        schema_version: "1.0.0"@,
        artifact_id: spec_artifact_id(payload_ref),
        artifact_class,
        repo_id,
        title,
        operational_purpose,
        summary_block,
        source_refs: seq![payload_ref],
        source_ref_hashes: seq![spec_content_hash(content)],
        authority_level,
        lifecycle_state: LifecycleState::Approved,
        freshness_state: FreshnessState::Fresh,
        critic_status: CriticStatus::Passed,
        admissibility_state: AdmissibilityState::Admissible,
        related_artifact_refs: Seq::empty(),
        supersedes_artifact_id: None,
        protocol_refs: Seq::empty(),
        created_at: now,
        last_validated_at: now,
        producer_identity: "context-runtime"@,
        sensitivity_classification: SensitivityClassification::InternalGeneral,
    }
}

fn base_record(
    artifact_class: ArtifactClass,
    repo_id: &str,
    payload_ref: &str,
    content: &str,
    title: String,
    operational_purpose: String,
    summary_block: String,
    authority_level: AuthorityLevel,
    now_rfc3339: &str,
) -> (r: ArtifactRecord)
    ensures
        r@ == spec_base_record(
            artifact_class,
            repo_id@,
            payload_ref@,
            content@,
            title@,
            operational_purpose@,
            summary_block@,
            authority_level,
            now_rfc3339@,
        ),
{
    let mut source_refs: Vec<String> = Vec::new();
    source_refs.push(payload_ref.to_owned());
    let mut source_ref_hashes: Vec<String> = Vec::new();
    source_ref_hashes.push(content_hash(content));
    let related: Vec<String> = Vec::new();
    let protocols: Vec<String> = Vec::new();
    let r = ArtifactRecord {
        schema_version: "1.0.0".to_owned(),
        artifact_id: artifact_id(payload_ref),
        artifact_class,
        repo_id: repo_id.to_owned(),
        title,
        operational_purpose,
        summary_block,
        source_refs,
        source_ref_hashes,
        authority_level,
        lifecycle_state: LifecycleState::Approved,
        freshness_state: FreshnessState::Fresh,
        critic_status: CriticStatus::Passed,
        admissibility_state: AdmissibilityState::Admissible,
        related_artifact_refs: related,
        supersedes_artifact_id: None,
        protocol_refs: protocols,
        created_at: now_rfc3339.to_owned(),
        last_validated_at: now_rfc3339.to_owned(),
        producer_identity: "context-runtime".to_owned(),
        sensitivity_classification: SensitivityClassification::InternalGeneral,
    };
    proof {
        assert(views(r.source_refs@) =~= seq![payload_ref@]);
        assert(views(r.source_ref_hashes@) =~= seq![spec_content_hash(content@)]);
        assert(views(r.related_artifact_refs@) =~= Seq::<Seq<char>>::empty());
        assert(views(r.protocol_refs@) =~= Seq::<Seq<char>>::empty());
    }
    r
}

/// The cautions every key-file packet carries.
pub open spec fn edit_cautions() -> Seq<Seq<char>> {
    seq![
        "Non-authoritative context bundle; verify the fix with the validation packet."@,
        "Fail closed on scope escape — only admitted refs may be modified."@,
    ]
}

/// The code-native payload for a gathered source: a key-file packet for
/// the target and the adjacent file, a repo navigation map for the repo
/// truth, a validation command packet for the validation rule.
pub open spec fn spec_payload(src: SourceView, facts: FactsView, repo_id: Seq<char>, now: Seq<char>) -> PayloadView {
    match src.role {
        SourceRole::Target | SourceRole::Adjacent => {
            let file_path = match src.rel_path {
                Some(p) => p,
                None => src.payload_ref,
            };
            let (why, authority) = if src.role == SourceRole::Target {
                ("Primary target of the code-fix run."@, AuthorityLevel::StrongDerived)
            } else {
                (
                    "Neighboring file providing surrounding context for the target."@,
                    AuthorityLevel::WeakDerived,
                )
            };
            PayloadView::KeyFile {
                base: spec_base_record(
                    ArtifactClass::KeyFilePacket,
                    repo_id,
                    src.payload_ref,
                    src.content,
                    "Key file: "@ + file_path,
                    "Provide the file content and edit guardrails for a bounded code fix."@,
                    spec_first_lines(src.content, 3),
                    authority,
                    now,
                ),
                file_path,
                why_it_matters: why,
                dependent_surfaces: spec_top_n(facts.entry_points, 4),
                edit_cautions: edit_cautions(),
                read_before_edit_refs: facts.canonical_docs,
            }
        },
        SourceRole::RepoTruth => PayloadView::RepoNav {
            base: spec_base_record(
                ArtifactClass::RepoNavigationMap,
                repo_id,
                src.payload_ref,
                src.content,
                "Repo navigation map"@,
                "Orient the fix within the repo's structure, entry points, and verification."@,
                spec_first_lines(src.content, 3),
                AuthorityLevel::Canonical,
                now,
            ),
            primary_directories: facts.primary_directories,
            entry_points: facts.entry_points,
            canonical_docs: facts.canonical_docs,
            build_test_commands: facts.build_test_commands,
        },
        SourceRole::Validation => PayloadView::Validation {
            base: spec_base_record(
                ArtifactClass::ValidationCommandPacket,
                repo_id,
                src.payload_ref,
                src.content,
                "Validation commands ("@ + facts.stack + ")"@,
                "Define how a proposed fix is verified before it can be trusted."@,
                join(facts.validation_commands, "; "@),
                AuthorityLevel::StrongDerived,
                now,
            ),
            commands: facts.validation_commands,
            execution_order: facts.validation_execution_order,
            expected_pass_conditions: facts.validation_pass_conditions,
            environment_requirements: facts.validation_env_requirements,
        },
    }
}

/// Builds the code-native payload for a gathered source.
pub fn build_payload(source: &GatheredSource, facts: &RepoFacts, repo_id: &str, now_rfc3339: &str) -> (p: TypedPayload)
    ensures
        p@ == spec_payload(source@, facts@, repo_id@, now_rfc3339@),
{
    match source.role {
        SourceRole::Target | SourceRole::Adjacent => {
            let file_path = match &source.rel_path {
                Some(p) => p.clone(),
                None => source.payload_ref.clone(),
            };
            let (why, authority) = match source.role {
                SourceRole::Target => (
                    "Primary target of the code-fix run.".to_owned(),
                    AuthorityLevel::StrongDerived,
                ),
                _ => (
                    "Neighboring file providing surrounding context for the target.".to_owned(),
                    AuthorityLevel::WeakDerived,
                ),
            };
            let base = base_record(
                ArtifactClass::KeyFilePacket,
                repo_id,
                source.payload_ref.as_str(),
                source.content.as_str(),
                concat("Key file: ", file_path.as_str()),
                "Provide the file content and edit guardrails for a bounded code fix.".to_owned(),
                first_lines(source.content.as_str(), 3),
                authority,
                now_rfc3339,
            );
            let cautions = to_strings(
                &[
                    "Non-authoritative context bundle; verify the fix with the validation packet.",
                    "Fail closed on scope escape — only admitted refs may be modified.",
                ],
            );
            assert(views(cautions@) =~= edit_cautions());
            TypedPayload::KeyFile(
                KeyFilePacketContract {
                    base,
                    file_path,
                    why_it_matters: why,
                    dependent_surfaces: top_n(&facts.entry_points, 4),
                    edit_cautions: cautions,
                    read_before_edit_refs: clone_strings(&facts.canonical_docs),
                },
            )
        },
        SourceRole::RepoTruth => {
            let base = base_record(
                ArtifactClass::RepoNavigationMap,
                repo_id,
                source.payload_ref.as_str(),
                source.content.as_str(),
                "Repo navigation map".to_owned(),
                "Orient the fix within the repo's structure, entry points, and verification.".to_owned(),
                first_lines(source.content.as_str(), 3),
                AuthorityLevel::Canonical,
                now_rfc3339,
            );
            TypedPayload::RepoNav(
                RepoNavigationMapContract {
                    base,
                    primary_directories: clone_strings(&facts.primary_directories),
                    entry_points: clone_strings(&facts.entry_points),
                    canonical_docs: clone_strings(&facts.canonical_docs),
                    build_test_commands: clone_strings(&facts.build_test_commands),
                },
            )
        },
        SourceRole::Validation => {
            let mut title = "Validation commands (".to_owned();
            title.append(facts.stack);
            title.append(")");
            let base = base_record(
                ArtifactClass::ValidationCommandPacket,
                repo_id,
                source.payload_ref.as_str(),
                source.content.as_str(),
                title,
                "Define how a proposed fix is verified before it can be trusted.".to_owned(),
                join_strings(&facts.validation_commands, "; "),
                AuthorityLevel::StrongDerived,
                now_rfc3339,
            );
            TypedPayload::Validation(
                ValidationCommandPacketContract {
                    base,
                    commands: clone_strings(&facts.validation_commands),
                    execution_order: clone_strings(&facts.validation_execution_order),
                    expected_pass_conditions: clone_strings(&facts.validation_pass_conditions),
                    environment_requirements: clone_strings(&facts.validation_env_requirements),
                },
            )
        },
    }
}

/// The message of a rejected payload: `"<role> payload: <reason>"`.
pub open spec fn rejection_message(role: SourceRole, reason: Seq<char>) -> Seq<char> {
    role.name() + " payload: "@ + reason
}

/// Folds the contract's own validation verdict into the payload: the
/// payload when it validated, `PayloadInvalid` otherwise.
pub fn check_payload(role: SourceRole, payload: TypedPayload, verdict: std::result::Result<(), String>) -> (r: Result<TypedPayload>)
    ensures
        match verdict {
            Ok(()) => r matches Ok(p) && p@ == payload@,
            Err(e) => r matches Err(ContextError::PayloadInvalid(m)) && m@ == rejection_message(role, e@),
        },
{
    match verdict {
        Ok(()) => Ok(payload),
        Err(e) => {
            let mut m = role.as_str().to_owned();
            m.append(" payload: ");
            m.append(e.as_str());
            Err(ContextError::PayloadInvalid(m))
        },
    }
}

} // verus!

verus! {

impl Clone for ArtifactRecord {
    fn clone(&self) -> (r: Self)
        ensures
            r@ == self@,
    {
        ArtifactRecord {
            schema_version: self.schema_version.clone(),
            artifact_id: self.artifact_id.clone(),
            artifact_class: self.artifact_class,
            repo_id: self.repo_id.clone(),
            title: self.title.clone(),
            operational_purpose: self.operational_purpose.clone(),
            summary_block: self.summary_block.clone(),
            source_refs: clone_strings(&self.source_refs),
            source_ref_hashes: clone_strings(&self.source_ref_hashes),
            authority_level: self.authority_level,
            lifecycle_state: self.lifecycle_state,
            freshness_state: self.freshness_state,
            critic_status: self.critic_status,
            admissibility_state: self.admissibility_state,
            related_artifact_refs: clone_strings(&self.related_artifact_refs),
            supersedes_artifact_id: match &self.supersedes_artifact_id {
                Some(s) => Some(s.clone()),
                None => None,
            },
            protocol_refs: clone_strings(&self.protocol_refs),
            created_at: self.created_at.clone(),
            last_validated_at: self.last_validated_at.clone(),
            producer_identity: self.producer_identity.clone(),
            sensitivity_classification: self.sensitivity_classification,
        }
    }
}

impl Clone for TypedPayload {
    fn clone(&self) -> (r: Self)
        ensures
            r@ == self@,
    {
        match self {
            TypedPayload::KeyFile(c) => TypedPayload::KeyFile(
                KeyFilePacketContract {
                    base: c.base.clone(),
                    file_path: c.file_path.clone(),
                    why_it_matters: c.why_it_matters.clone(),
                    dependent_surfaces: clone_strings(&c.dependent_surfaces),
                    edit_cautions: clone_strings(&c.edit_cautions),
                    read_before_edit_refs: clone_strings(&c.read_before_edit_refs),
                },
            ),
            TypedPayload::RepoNav(c) => TypedPayload::RepoNav(
                RepoNavigationMapContract {
                    base: c.base.clone(),
                    primary_directories: clone_strings(&c.primary_directories),
                    entry_points: clone_strings(&c.entry_points),
                    canonical_docs: clone_strings(&c.canonical_docs),
                    build_test_commands: clone_strings(&c.build_test_commands),
                },
            ),
            TypedPayload::Validation(c) => TypedPayload::Validation(
                ValidationCommandPacketContract {
                    base: c.base.clone(),
                    commands: clone_strings(&c.commands),
                    execution_order: clone_strings(&c.execution_order),
                    expected_pass_conditions: clone_strings(&c.expected_pass_conditions),
                    environment_requirements: clone_strings(&c.environment_requirements),
                },
            ),
        }
    }
}

} // verus!

verus! {

/// A summary is never empty.
pub proof fn law_first_lines_nonempty(content: Seq<char>, n: int)
    ensures
        spec_first_lines(content, n).len() > 0,
{
    reveal_strlit("(");
}

/// Each role gets its code-native contract class, and every payload sits
/// on an approved, fresh, passed and therefore admissible record sourced
/// from exactly the payload's ref and content.
pub proof fn law_payload_by_role(src: SourceView, facts: FactsView, repo_id: Seq<char>, now: Seq<char>)
    ensures
        ({
            let p = spec_payload(src, facts, repo_id, now);
            let base = match p {
                PayloadView::KeyFile { base, .. } => base,
                PayloadView::RepoNav { base, .. } => base,
                PayloadView::Validation { base, .. } => base,
            };
            &&& artifact_class_name(p) == (match src.role {
                SourceRole::Target | SourceRole::Adjacent => "key_file_packet"@,
                SourceRole::RepoTruth => "repo_navigation_map"@,
                SourceRole::Validation => "validation_command_packet"@,
            })
            &&& base.lifecycle_state == LifecycleState::Approved
            &&& base.freshness_state == FreshnessState::Fresh
            &&& base.critic_status == CriticStatus::Passed
            &&& base.admissibility_state == AdmissibilityState::Admissible
            &&& base.source_refs == seq![src.payload_ref]
            &&& base.source_ref_hashes == seq![spec_content_hash(src.content)]
            &&& base.artifact_id == spec_artifact_id(src.payload_ref)
            &&& base.repo_id == repo_id
        }),
{
}

/// Each payload carries the repo facts it is built from, unchanged: a
/// repo-truth source's navigation map holds the facts' primary
/// directories, entry points, canonical docs and build/test commands; the
/// validation packet holds the validation commands, their order, pass
/// conditions and environment; a key file names its own path (its ref when
/// it has none), lists the canonical docs to read before editing and the
/// first four entry points as the surfaces that depend on it, and carries
/// the two edit cautions.
pub proof fn law_payload_carries_facts(src: SourceView, facts: FactsView, repo_id: Seq<char>, now: Seq<char>)
    ensures
        ({
            let p = spec_payload(src, facts, repo_id, now);
            &&& src.role == SourceRole::RepoTruth ==> (p matches PayloadView::RepoNav {
                primary_directories,
                entry_points,
                canonical_docs,
                build_test_commands,
                ..
            } && primary_directories == facts.primary_directories && entry_points
                == facts.entry_points && canonical_docs == facts.canonical_docs
                && build_test_commands == facts.build_test_commands)
            &&& src.role == SourceRole::Validation ==> (p matches PayloadView::Validation {
                commands,
                execution_order,
                expected_pass_conditions,
                environment_requirements,
                ..
            } && commands == facts.validation_commands && execution_order
                == facts.validation_execution_order && expected_pass_conditions
                == facts.validation_pass_conditions && environment_requirements
                == facts.validation_env_requirements)
            &&& (src.role == SourceRole::Target || src.role == SourceRole::Adjacent)
                ==> (p matches PayloadView::KeyFile { file_path, read_before_edit_refs, .. }
                && file_path == (match src.rel_path {
                Some(r) => r,
                None => src.payload_ref,
            }) && read_before_edit_refs == facts.canonical_docs)
            &&& (src.role == SourceRole::Target || src.role == SourceRole::Adjacent)
                ==> (p matches PayloadView::KeyFile { dependent_surfaces, edit_cautions, .. }
                && dependent_surfaces == (if facts.entry_points.len() == 0 {
                seq!["(none detected)"@]
            } else if facts.entry_points.len() <= 4 {
                facts.entry_points
            } else {
                facts.entry_points.take(4)
            }) && edit_cautions == seq![
                "Non-authoritative context bundle; verify the fix with the validation packet."@,
                "Fail closed on scope escape — only admitted refs may be modified."@,
            ])
            &&& src.role == SourceRole::Target ==> (p matches PayloadView::KeyFile {
                why_it_matters,
                ..
            } && why_it_matters == "Primary target of the code-fix run."@)
            &&& src.role == SourceRole::Adjacent ==> (p matches PayloadView::KeyFile {
                why_it_matters,
                ..
            } && why_it_matters == "Neighboring file providing surrounding context for the target."@)
        }),
{
}

/// The record each payload sits on: schema `1.0.0`, produced by
/// `context-runtime`, created and validated at `now`, with the title and
/// authority of its role: the target a strong derived key file, the
/// adjacent file a weak derived key file, the repo truth the canonical
/// `Repo navigation map`, the validation rule a strong derived packet
/// titled with its stack.
pub proof fn law_payload_record(src: SourceView, facts: FactsView, repo_id: Seq<char>, now: Seq<char>)
    ensures
        ({
            let p = spec_payload(src, facts, repo_id, now);
            let base = match p {
                PayloadView::KeyFile { base, .. } => base,
                PayloadView::RepoNav { base, .. } => base,
                PayloadView::Validation { base, .. } => base,
            };
            let path = match src.rel_path {
                Some(r) => r,
                None => src.payload_ref,
            };
            &&& base.schema_version == "1.0.0"@
            &&& base.producer_identity == "context-runtime"@
            &&& base.created_at == now
            &&& base.last_validated_at == now
            &&& src.role == SourceRole::Target ==> base.authority_level == AuthorityLevel::StrongDerived
                && base.title == "Key file: "@ + path
            &&& src.role == SourceRole::Adjacent ==> base.authority_level == AuthorityLevel::WeakDerived
                && base.title == "Key file: "@ + path
            &&& src.role == SourceRole::RepoTruth ==> base.authority_level == AuthorityLevel::Canonical
                && base.title == "Repo navigation map"@
            &&& src.role == SourceRole::Validation ==> base.authority_level
                == AuthorityLevel::StrongDerived && base.title == "Validation commands ("@
                + facts.stack + ")"@
        }),
{
}

} // verus!
