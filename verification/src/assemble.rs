//! The assemble pipeline: gathered sources → governed assembly request →
//! (the governed assembly itself) → code-native payloads → an assembled
//! bundle ready to store and serve.

use vstd::prelude::*;

use crate::clock::{rfc3339_text, to_rfc3339, Timestamp, MAX_CLOCK_SECS, MIN_CLOCK_SECS};
use crate::error::{ContextError, Result};
use crate::gather::{opt_view, source_views, GatherResult, GatheredSource, SourceRole, SourceView};
use crate::payload::{
    artifact_class_name, build_payload, check_payload, content_hash, rejection_message,
    spec_content_hash, spec_payload, PayloadView, TypedPayload,
};
use crate::text::{clone_strings, views};

verus! {

/// Governance class of a source in the assembly envelope.
#[derive(Clone, Copy, Debug, PartialEq, Eq, Structural)]
pub enum SourceClass {
    ActiveScene,
    AdjacentSceneSummaryOrClippedBody,
    AcceptedLoreRecord,
    AcceptedStyleRuleRecord,
}

impl SourceClass {
    pub open spec fn name(self) -> Seq<char> {
        match self {
            SourceClass::ActiveScene => "active_scene"@,
            SourceClass::AdjacentSceneSummaryOrClippedBody => "adjacent_scene_summary_or_clipped_body"@,
            SourceClass::AcceptedLoreRecord => "accepted_lore_record"@,
            SourceClass::AcceptedStyleRuleRecord => "accepted_style_rule_record"@,
        }
    }

    pub fn as_str(&self) -> (s: &'static str)
        ensures
            s@ == self.name(),
    {
        match self {
            SourceClass::ActiveScene => "active_scene",
            SourceClass::AdjacentSceneSummaryOrClippedBody => "adjacent_scene_summary_or_clipped_body",
            SourceClass::AcceptedLoreRecord => "accepted_lore_record",
            SourceClass::AcceptedStyleRuleRecord => "accepted_style_rule_record",
        }
    }
}

/// Authority state of a gathered source (gathered sources are accepted).
#[derive(Clone, Copy, Debug, PartialEq, Eq, Structural)]
pub enum AuthorityState {
    Accepted,
}

/// Which sources may override others during assembly.
#[derive(Clone, Copy, Debug, PartialEq, Eq, Structural)]
pub enum OverridePosture {
    DisallowAll,
    AllowAcceptedStyleRuleRecords,
}

/// One source as the governed assembly sees it.
pub struct SourceInput {
    pub payload_ref: String,
    pub source_class: SourceClass,
    pub age_minutes: u64,
    pub authority_state: AuthorityState,
    pub is_override: bool,
}

/// The refs the assembly targets, by governance class.
pub struct TargetRefs {
    pub active_scene_ref: Option<String>,
    pub adjacent_scene_ref: Option<String>,
    pub accepted_lore_record_refs: Vec<String>,
    pub accepted_style_rule_refs: Vec<String>,
}

pub struct FreshnessPolicy {
    pub max_source_age_minutes: u64,
}

/// The request handed to the governed assembly.
pub struct ContextAssemblyRequest {
    pub task_intent_id: String,
    pub task_family: String,
    pub task_version: String,
    pub target_refs: TargetRefs,
    pub allowed_source_classes: Vec<SourceClass>,
    pub freshness_policy: FreshnessPolicy,
    pub override_posture: OverridePosture,
    pub sources: Vec<SourceInput>,
}

/// Parameters of one assembly run.
pub struct AssembleParams {
    pub repo_id: String,
    pub repo_root: String,
    pub target_file: String,
    pub task_intent_id: String,
    pub task_family: String,
    pub task_version: String,
    pub max_source_age_minutes: u64,
    pub override_posture: OverridePosture,
}

/// What the library reads of the governed bundle manifest.
pub struct BundleManifest {
    pub context_bundle_id: String,
    pub bundle_hash: String,
}

/// What an accepted assembly yields: the manifest and the admitted refs.
pub struct AssemblyOutput {
    pub manifest: BundleManifest,
    pub payload_refs: Vec<String>,
}

/// One stored payload behind a bundle ref.
pub struct StoredPayload {
    pub payload_ref: String,
    /// Role in the fix (target/adjacent/repo_truth/validation).
    pub role: String,
    /// Governance class used in the envelope.
    pub source_class: String,
    /// Code-native contract class of the payload body.
    pub artifact_class: String,
    pub content_hash: String,
    pub content: String,
    /// The validated code-native contract.
    pub contract: TypedPayload,
}

/// A fully assembled, governed bundle.
pub struct AssembledBundle {
    pub repo_id: String,
    pub target_rel: String,
    pub manifest: BundleManifest,
    /// Admitted refs.
    pub payload_refs: Vec<String>,
    /// The payloads, in source order; a ref names the last payload stored
    /// under it (`payload_map`). A `Vec` and not a map keyed by `String`,
    /// for which vstd specifies no lookup (see `BundleStore`).
    pub payloads: Vec<StoredPayload>,
}

pub struct StoredPayloadView {
    pub payload_ref: Seq<char>,
    pub role: Seq<char>,
    pub source_class: Seq<char>,
    pub artifact_class: Seq<char>,
    pub content_hash: Seq<char>,
    pub content: Seq<char>,
    pub contract: PayloadView,
}

impl View for StoredPayload {
    type V = StoredPayloadView;

    open spec fn view(&self) -> StoredPayloadView {
        StoredPayloadView {
            payload_ref: self.payload_ref@,
            role: self.role@,
            source_class: self.source_class@,
            artifact_class: self.artifact_class@,
            content_hash: self.content_hash@,
            content: self.content@,
            contract: self.contract@,
        }
    }
}

pub open spec fn payload_views(s: Seq<StoredPayload>) -> Seq<StoredPayloadView> {
    s.map_values(|p: StoredPayload| p@)
}

/// The payloads by ref: inserting them in order, a later payload replaces
/// an earlier one with the same ref.
pub open spec fn payload_map(s: Seq<StoredPayloadView>) -> Map<Seq<char>, StoredPayloadView>
    decreases s.len(),
{
    if s.len() == 0 {
        Map::empty()
    } else {
        payload_map(s.drop_last()).insert(s.last().payload_ref, s.last())
    }
}

pub struct BundleView {
    pub repo_id: Seq<char>,
    pub target_rel: Seq<char>,
    pub context_bundle_id: Seq<char>,
    pub bundle_hash: Seq<char>,
    pub payload_refs: Seq<Seq<char>>,
    pub payloads: Map<Seq<char>, StoredPayloadView>,
}

impl View for AssembledBundle {
    type V = BundleView;

    open spec fn view(&self) -> BundleView {
        BundleView {
            repo_id: self.repo_id@,
            target_rel: self.target_rel@,
            context_bundle_id: self.manifest.context_bundle_id@,
            bundle_hash: self.manifest.bundle_hash@,
            payload_refs: views(self.payload_refs@),
            payloads: payload_map(payload_views(self.payloads@)),
        }
    }
}

// ---------------------------------------------------------------------
// The envelope request

/// The governance class each role maps to.
pub open spec fn spec_source_class(role: SourceRole) -> SourceClass {
    match role {
        SourceRole::Target => SourceClass::ActiveScene,
        SourceRole::Adjacent => SourceClass::AdjacentSceneSummaryOrClippedBody,
        SourceRole::RepoTruth => SourceClass::AcceptedLoreRecord,
        SourceRole::Validation => SourceClass::AcceptedStyleRuleRecord,
    }
}

pub fn source_class(role: SourceRole) -> (c: SourceClass)
    ensures
        c == spec_source_class(role),
{
    match role {
        SourceRole::Target => SourceClass::ActiveScene,
        SourceRole::Adjacent => SourceClass::AdjacentSceneSummaryOrClippedBody,
        SourceRole::RepoTruth => SourceClass::AcceptedLoreRecord,
        SourceRole::Validation => SourceClass::AcceptedStyleRuleRecord,
    }
}

/// A gathered source as an accepted, non-overriding assembly input.
pub fn to_source_input(source: &GatheredSource) -> (s: SourceInput)
    ensures
        s.payload_ref@ == source.payload_ref@,
        s.source_class == spec_source_class(source.role),
        s.age_minutes == source.age_minutes,
        s.authority_state == AuthorityState::Accepted,
        !s.is_override,
{
    SourceInput {
        payload_ref: source.payload_ref.clone(),
        source_class: source_class(source.role),
        age_minutes: source.age_minutes,
        authority_state: AuthorityState::Accepted,
        is_override: false,
    }
}

/// The ref of the first source with `role`, if any.
pub open spec fn first_ref(s: Seq<SourceView>, role: SourceRole) -> Option<Seq<char>>
    decreases s.len(),
{
    if s.len() == 0 {
        None
    } else if s[0].role == role {
        Some(s[0].payload_ref)
    } else {
        first_ref(s.drop_first(), role)
    }
}

/// The refs of all sources with `role`, in order.
pub open spec fn refs_with_role(s: Seq<SourceView>, role: SourceRole) -> Seq<Seq<char>>
    decreases s.len(),
{
    if s.len() == 0 {
        Seq::empty()
    } else if s.last().role == role {
        refs_with_role(s.drop_last(), role).push(s.last().payload_ref)
    } else {
        refs_with_role(s.drop_last(), role)
    }
}

proof fn lemma_first_ref_scan(s: Seq<SourceView>, role: SourceRole, i: int)
    requires
        0 <= i <= s.len(),
        forall|k: int| 0 <= k < i ==> (#[trigger] s[k]).role != role,
    ensures
        first_ref(s, role) == first_ref(s.skip(i), role),
    decreases i,
{
    if i > 0 {
        lemma_first_ref_scan(s.drop_first(), role, i - 1);
        assert(s.drop_first().skip(i - 1) =~= s.skip(i));
    } else {
        assert(s.skip(0) =~= s);
    }
}

fn find_ref(sources: &Vec<GatheredSource>, role: SourceRole) -> (r: Option<String>)
    ensures
        opt_view(r) == first_ref(source_views(sources@), role),
{
    let ghost sv = source_views(sources@);
    let mut i: usize = 0;
    while i < sources.len()
        invariant
            sv == source_views(sources@),
            i <= sources.len(),
            forall|k: int| 0 <= k < i ==> (#[trigger] sv[k]).role != role,
        decreases sources.len() - i,
    {
        if sources[i].role == role {
            proof {
                lemma_first_ref_scan(sv, role, i as int);
                assert(sv.skip(i as int)[0] == sv[i as int]);
            }
            return Some(sources[i].payload_ref.clone());
        }
        i = i + 1;
    }
    proof {
        lemma_first_ref_scan(sv, role, i as int);
    }
    None
}

fn refs_of_role(sources: &Vec<GatheredSource>, role: SourceRole) -> (r: Vec<String>)
    ensures
        views(r@) == refs_with_role(source_views(sources@), role),
{
    let ghost sv = source_views(sources@);
    let mut r: Vec<String> = Vec::new();
    let mut i: usize = 0;
    while i < sources.len()
        invariant
            sv == source_views(sources@),
            i <= sources.len(),
            views(r@) == refs_with_role(sv.take(i as int), role),
        decreases sources.len() - i,
    {
        proof {
            assert(sv.take(i + 1).drop_last() =~= sv.take(i as int));
            assert(sv.take(i + 1).last() == sv[i as int]);
        }
        if sources[i].role == role {
            let ghost old_r = r@;
            r.push(sources[i].payload_ref.clone());
            assert(views(r@) =~= views(old_r).push(sv[i as int].payload_ref));
        }
        i = i + 1;
    }
    assert(sv.take(sources.len() as int) =~= sv);
    r
}

/// The target refs of the envelope: the first target and adjacent refs,
/// all repo-truth refs as lore records, all validation refs as style rules.
pub fn build_target_refs(sources: &Vec<GatheredSource>) -> (t: TargetRefs)
    ensures
        opt_view(t.active_scene_ref) == first_ref(source_views(sources@), SourceRole::Target),
        opt_view(t.adjacent_scene_ref) == first_ref(source_views(sources@), SourceRole::Adjacent),
        views(t.accepted_lore_record_refs@) == refs_with_role(
            source_views(sources@),
            SourceRole::RepoTruth,
        ),
        views(t.accepted_style_rule_refs@) == refs_with_role(
            source_views(sources@),
            SourceRole::Validation,
        ),
{
    TargetRefs {
        active_scene_ref: find_ref(sources, SourceRole::Target),
        adjacent_scene_ref: find_ref(sources, SourceRole::Adjacent),
        accepted_lore_record_refs: refs_of_role(sources, SourceRole::RepoTruth),
        accepted_style_rule_refs: refs_of_role(sources, SourceRole::Validation),
    }
}

pub open spec fn input_matches(i: SourceInput, s: SourceView) -> bool {
    &&& i.payload_ref@ == s.payload_ref
    &&& i.source_class == spec_source_class(s.role)
    &&& i.age_minutes == s.age_minutes
    &&& i.authority_state == AuthorityState::Accepted
    &&& !i.is_override
}

/// The assembly request for a gathered target: the four governance classes
/// allowed, the run's freshness ceiling and override posture, and one
/// accepted input per gathered source.
pub fn assembly_request(params: &AssembleParams, gathered: &GatherResult) -> (r: ContextAssemblyRequest)
    ensures
        r.task_intent_id@ == params.task_intent_id@,
        r.task_family@ == params.task_family@,
        r.task_version@ == params.task_version@,
        opt_view(r.target_refs.active_scene_ref) == first_ref(
            source_views(gathered.sources@),
            SourceRole::Target,
        ),
        opt_view(r.target_refs.adjacent_scene_ref) == first_ref(
            source_views(gathered.sources@),
            SourceRole::Adjacent,
        ),
        views(r.target_refs.accepted_lore_record_refs@) == refs_with_role(
            source_views(gathered.sources@),
            SourceRole::RepoTruth,
        ),
        views(r.target_refs.accepted_style_rule_refs@) == refs_with_role(
            source_views(gathered.sources@),
            SourceRole::Validation,
        ),
        r.allowed_source_classes@ == seq![
            SourceClass::ActiveScene,
            SourceClass::AdjacentSceneSummaryOrClippedBody,
            SourceClass::AcceptedLoreRecord,
            SourceClass::AcceptedStyleRuleRecord,
        ],
        r.freshness_policy.max_source_age_minutes == params.max_source_age_minutes,
        r.override_posture == params.override_posture,
        r.sources@.len() == gathered.sources@.len(),
        forall|i: int|
            0 <= i < r.sources@.len() ==> input_matches(
                #[trigger] r.sources@[i],
                gathered.sources@[i]@,
            ),
{
    let mut classes: Vec<SourceClass> = Vec::new();
    classes.push(SourceClass::ActiveScene);
    classes.push(SourceClass::AdjacentSceneSummaryOrClippedBody);
    classes.push(SourceClass::AcceptedLoreRecord);
    classes.push(SourceClass::AcceptedStyleRuleRecord);
    let mut inputs: Vec<SourceInput> = Vec::new();
    let mut i: usize = 0;
    while i < gathered.sources.len()
        invariant
            i <= gathered.sources.len(),
            inputs@.len() == i,
            forall|k: int|
                0 <= k < i ==> input_matches(#[trigger] inputs@[k], gathered.sources@[k]@),
        decreases gathered.sources.len() - i,
    {
        inputs.push(to_source_input(&gathered.sources[i]));
        i = i + 1;
    }
    ContextAssemblyRequest {
        task_intent_id: params.task_intent_id.clone(),
        task_family: params.task_family.clone(),
        task_version: params.task_version.clone(),
        target_refs: build_target_refs(&gathered.sources),
        allowed_source_classes: classes,
        freshness_policy: FreshnessPolicy { max_source_age_minutes: params.max_source_age_minutes },
        override_posture: params.override_posture,
        sources: inputs,
    }
}

} // verus!

verus! {

// ---------------------------------------------------------------------
// Payloads and the assembled bundle

/// The stored payload of one gathered source.
pub open spec fn spec_stored(src: SourceView, facts: crate::gather::FactsView, repo_id: Seq<char>, now: Seq<char>) -> StoredPayloadView {
    let p = spec_payload(src, facts, repo_id, now);
    StoredPayloadView {
        payload_ref: src.payload_ref,
        role: src.role.name(),
        source_class: spec_source_class(src.role).name(),
        artifact_class: artifact_class_name(p),
        content_hash: spec_content_hash(src.content),
        content: src.content,
        contract: p,
    }
}

/// Index of the first rejecting verdict, or -1 when all accept.
pub open spec fn first_rejection(v: Seq<std::result::Result<(), String>>) -> int
    decreases v.len(),
{
    if v.len() == 0 {
        -1
    } else if v[0] is Err {
        0
    } else {
        let j = first_rejection(v.drop_first());
        if j < 0 {
            -1
        } else {
            j + 1
        }
    }
}

proof fn lemma_first_rejection_scan(v: Seq<std::result::Result<(), String>>, i: int)
    requires
        0 <= i <= v.len(),
        forall|k: int| 0 <= k < i ==> (#[trigger] v[k]) is Ok,
    ensures
        first_rejection(v) == (if first_rejection(v.skip(i)) < 0 {
            -1
        } else {
            first_rejection(v.skip(i)) + i
        }),
    decreases i,
{
    if i > 0 {
        lemma_first_rejection_scan(v.drop_first(), i - 1);
        assert(v.drop_first().skip(i - 1) =~= v.skip(i));
    } else {
        assert(v.skip(0) =~= v);
    }
}

/// Builds the bundle once the governed assembly has answered.
///
/// `outcome` is the governed assembly's answer for
/// `assembly_request(params, &gathered)`: the manifest and admitted refs, or
/// the reason it rejected the sources. `verdicts[i]` is the contract
/// validation verdict for the payload that `build_payload` builds for
/// `gathered.sources[i]` at `now`. A rejected assembly fails closed with
/// `AssemblyRejected`; otherwise the first rejected payload fails closed
/// with `PayloadInvalid`; otherwise every source becomes a stored payload.
pub fn assemble(
    params: &AssembleParams,
    gathered: GatherResult,
    now: Timestamp,
    outcome: std::result::Result<AssemblyOutput, String>,
    verdicts: Vec<std::result::Result<(), String>>,
) -> (r: Result<AssembledBundle>)
    requires
        now.wf(),
        MIN_CLOCK_SECS <= now.secs <= MAX_CLOCK_SECS,
        verdicts@.len() == gathered.sources@.len(),
    ensures
        match outcome {
            Err(e) => r matches Err(ContextError::AssemblyRejected(m)) && m@ == e@,
            Ok(out) => {
                let i = first_rejection(verdicts@);
                if i >= 0 {
                    r matches Err(ContextError::PayloadInvalid(m)) && m@ == rejection_message(
                        gathered.sources@[i].role,
                        verdicts@[i]->Err_0@,
                    )
                } else {
                    r matches Ok(b) && {
                        &&& b.repo_id@ == gathered.repo_id@
                        &&& b.target_rel@ == gathered.target_rel@
                        &&& b.manifest.context_bundle_id@ == out.manifest.context_bundle_id@
                        &&& b.manifest.bundle_hash@ == out.manifest.bundle_hash@
                        &&& views(b.payload_refs@) == views(out.payload_refs@)
                        &&& payload_views(b.payloads@) == source_views(gathered.sources@).map_values(
                            |s: SourceView|
                                spec_stored(
                                    s,
                                    gathered.facts@,
                                    params.repo_id@,
                                    rfc3339_text(now.secs, now.nanos),
                                ),
                        )
                    }
                }
            },
        },
{
    let out = match outcome {
        Err(e) => {
            return Err(ContextError::AssemblyRejected(e));
        },
        Ok(out) => out,
    };
    let now_rfc3339 = to_rfc3339(now);
    let ghost sv = source_views(gathered.sources@);
    let ghost f = |s: SourceView|
        spec_stored(s, gathered.facts@, params.repo_id@, rfc3339_text(now.secs, now.nanos));
    let mut payloads: Vec<StoredPayload> = Vec::new();
    let mut i: usize = 0;
    while i < gathered.sources.len()
        invariant
            outcome is Ok,
            sv == source_views(gathered.sources@),
            f == (|s: SourceView|
                spec_stored(s, gathered.facts@, params.repo_id@, rfc3339_text(now.secs, now.nanos))),
            now_rfc3339@ == rfc3339_text(now.secs, now.nanos),
            verdicts@.len() == gathered.sources@.len(),
            i <= gathered.sources.len(),
            forall|k: int| 0 <= k < i ==> (#[trigger] verdicts@[k]) is Ok,
            payload_views(payloads@) == sv.take(i as int).map_values(f),
        decreases gathered.sources.len() - i,
    {
        let source = &gathered.sources[i];
        let built = build_payload(source, &gathered.facts, params.repo_id.as_str(), now_rfc3339.as_str());
        let verdict = match &verdicts[i] {
            Ok(()) => Ok(()),
            Err(e) => Err(e.clone()),
        };
        let checked = check_payload(source.role, built, verdict);
        let typed = match checked {
            Err(e) => {
                proof {
                    lemma_first_rejection_scan(verdicts@, i as int);
                    assert(verdicts@.skip(i as int)[0] == verdicts@[i as int]);
                }
                return Err(e);
            },
            Ok(p) => p,
        };
        let class = source_class(source.role);
        let artifact = typed.artifact_class();
        let stored = StoredPayload {
            payload_ref: source.payload_ref.clone(),
            role: source.role.as_str().to_owned(),
            source_class: class.as_str().to_owned(),
            artifact_class: artifact.to_owned(),
            content_hash: content_hash(source.content.as_str()),
            content: source.content.clone(),
            contract: typed,
        };
        let ghost old_p = payloads@;
        payloads.push(stored);
        proof {
            assert(stored@ == f(sv[i as int]));
            assert(payload_views(payloads@) =~= payload_views(old_p).push(stored@));
            assert(sv.take(i + 1) =~= sv.take(i as int).push(sv[i as int]));
            assert(sv.take(i + 1).map_values(f) =~= sv.take(i as int).map_values(f).push(
                f(sv[i as int]),
            ));
        }
        i = i + 1;
    }
    proof {
        lemma_first_rejection_scan(verdicts@, i as int);
        assert(verdicts@.skip(i as int).len() == 0);
        assert(sv.take(i as int) =~= sv);
    }
    Ok(
        AssembledBundle {
            repo_id: gathered.repo_id,
            target_rel: gathered.target_rel,
            manifest: out.manifest,
            payload_refs: out.payload_refs,
            payloads,
        },
    )
}

} // verus!

verus! {

impl Clone for StoredPayload {
    fn clone(&self) -> (r: Self)
        ensures
            r@ == self@,
    {
        StoredPayload {
            payload_ref: self.payload_ref.clone(),
            role: self.role.clone(),
            source_class: self.source_class.clone(),
            artifact_class: self.artifact_class.clone(),
            content_hash: self.content_hash.clone(),
            content: self.content.clone(),
            contract: self.contract.clone(),
        }
    }
}

impl Clone for AssembledBundle {
    fn clone(&self) -> (r: Self)
        ensures
            r@ == self@,
    {
        let mut payloads: Vec<StoredPayload> = Vec::new();
        let mut i: usize = 0;
        while i < self.payloads.len()
            invariant
                i <= self.payloads.len(),
                payload_views(payloads@) == payload_views(self.payloads@).take(i as int),
            decreases self.payloads.len() - i,
        {
            let ghost old_p = payloads@;
            payloads.push(self.payloads[i].clone());
            assert(payload_views(payloads@) =~= payload_views(old_p).push(self.payloads@[i as int]@));
            assert(payload_views(self.payloads@).take(i + 1) =~= payload_views(self.payloads@).take(
                i as int,
            ).push(self.payloads@[i as int]@));
            i = i + 1;
        }
        assert(payload_views(self.payloads@).take(self.payloads.len() as int) =~= payload_views(
            self.payloads@,
        ));
        AssembledBundle {
            repo_id: self.repo_id.clone(),
            target_rel: self.target_rel.clone(),
            manifest: BundleManifest {
                context_bundle_id: self.manifest.context_bundle_id.clone(),
                bundle_hash: self.manifest.bundle_hash.clone(),
            },
            payload_refs: clone_strings(&self.payload_refs),
            payloads,
        }
    }
}

} // verus!

verus! {

pub proof fn lemma_payload_map_last(s: Seq<StoredPayloadView>, k: Seq<char>, j: int)
    requires
        0 <= j < s.len(),
        s[j].payload_ref == k,
        forall|m: int| j < m < s.len() ==> (#[trigger] s[m]).payload_ref != k,
    ensures
        payload_map(s).contains_key(k),
        payload_map(s)[k] == s[j],
    decreases s.len(),
{
    if j < s.len() - 1 {
        assert(s[s.len() - 1] == s.last());
        lemma_payload_map_last(s.drop_last(), k, j);
    }
}

pub proof fn lemma_payload_map_absent(s: Seq<StoredPayloadView>, k: Seq<char>)
    requires
        forall|m: int| 0 <= m < s.len() ==> (#[trigger] s[m]).payload_ref != k,
    ensures
        !payload_map(s).contains_key(k),
    decreases s.len(),
{
    if s.len() > 0 {
        assert(s[s.len() - 1] == s.last());
        lemma_payload_map_absent(s.drop_last(), k);
    }
}


/// With distinct source refs, the bundle holds one payload per source,
/// stored under the source's ref, carrying the source's role, governance
/// class and content.
pub proof fn law_one_payload_per_source(
    sources: Seq<SourceView>,
    facts: crate::gather::FactsView,
    repo_id: Seq<char>,
    now: Seq<char>,
)
    requires
        forall|i: int, j: int|
            0 <= i < j < sources.len() ==> (#[trigger] sources[i]).payload_ref != (#[trigger] sources[j]).payload_ref,
    ensures
        ({
            let st = sources.map_values(|s: SourceView| spec_stored(s, facts, repo_id, now));
            forall|i: int|
                0 <= i < sources.len() ==> {
                    &&& payload_map(st).contains_key(#[trigger] sources[i].payload_ref)
                    &&& payload_map(st)[sources[i].payload_ref] == st[i]
                    &&& st[i].role == sources[i].role.name()
                    &&& st[i].source_class == spec_source_class(sources[i].role).name()
                    &&& st[i].content == sources[i].content
                    &&& st[i].content_hash == spec_content_hash(sources[i].content)
                }
        }),
{
    let st = sources.map_values(|s: SourceView| spec_stored(s, facts, repo_id, now));
    assert forall|i: int| 0 <= i < sources.len() implies payload_map(st).contains_key(#[trigger] sources[i].payload_ref)
        && payload_map(st)[sources[i].payload_ref] == st[i] by {
        assert forall|m: int| i < m < st.len() implies (#[trigger] st[m]).payload_ref != sources[i].payload_ref by {
            assert(st[m].payload_ref == sources[m].payload_ref);
        }
        lemma_payload_map_last(st, sources[i].payload_ref, i);
    }
}

} // verus!

verus! {

/// The payloads `assemble` builds for the gathered sources at `now`, in
/// source order, for their owner to validate before `assemble` runs.
pub fn build_payloads(params: &AssembleParams, gathered: &GatherResult, now: Timestamp) -> (r: Vec<TypedPayload>)
    requires
        now.wf(),
        MIN_CLOCK_SECS <= now.secs <= MAX_CLOCK_SECS,
    ensures
        r@.len() == gathered.sources@.len(),
        forall|i: int|
            0 <= i < r@.len() ==> (#[trigger] r@[i])@ == spec_payload(
                gathered.sources@[i]@,
                gathered.facts@,
                params.repo_id@,
                rfc3339_text(now.secs, now.nanos),
            ),
{
    let now_rfc3339 = to_rfc3339(now);
    let mut r: Vec<TypedPayload> = Vec::new();
    let mut i: usize = 0;
    while i < gathered.sources.len()
        invariant
            i <= gathered.sources@.len(),
            r@.len() == i,
            now_rfc3339@ == rfc3339_text(now.secs, now.nanos),
            forall|k: int|
                0 <= k < i ==> (#[trigger] r@[k])@ == spec_payload(
                    gathered.sources@[k]@,
                    gathered.facts@,
                    params.repo_id@,
                    rfc3339_text(now.secs, now.nanos),
                ),
        decreases gathered.sources@.len() - i,
    {
        r.push(build_payload(&gathered.sources[i], &gathered.facts, params.repo_id.as_str(), now_rfc3339.as_str()));
        i = i + 1;
    }
    r
}

/// The four governance classes have distinct names, and every stored
/// payload carries its source's role and the governance class of that
/// role: the target an active scene, the adjacent file an adjacent scene
/// summary or clipped body, the repo-truth doc an accepted lore record, the
/// validation rule an accepted style rule record.
pub proof fn law_governance_classes(
    src: SourceView,
    facts: crate::gather::FactsView,
    repo_id: Seq<char>,
    now: Seq<char>,
)
    ensures
        SourceClass::ActiveScene.name() == "active_scene"@,
        SourceClass::AdjacentSceneSummaryOrClippedBody.name() == "adjacent_scene_summary_or_clipped_body"@,
        SourceClass::AcceptedLoreRecord.name() == "accepted_lore_record"@,
        SourceClass::AcceptedStyleRuleRecord.name() == "accepted_style_rule_record"@,
        forall|a: SourceClass, b: SourceClass| a != b ==> #[trigger] a.name() != #[trigger] b.name(),
        ({
            let st = spec_stored(src, facts, repo_id, now);
            &&& src.role == SourceRole::Target ==> st.role == "target"@ && st.source_class
                == "active_scene"@
            &&& src.role == SourceRole::Adjacent ==> st.role == "adjacent"@ && st.source_class
                == "adjacent_scene_summary_or_clipped_body"@
            &&& src.role == SourceRole::RepoTruth ==> st.role == "repo_truth"@ && st.source_class
                == "accepted_lore_record"@
            &&& src.role == SourceRole::Validation ==> st.role == "validation"@ && st.source_class
                == "accepted_style_rule_record"@
        }),
{
    reveal_strlit("active_scene");
    reveal_strlit("adjacent_scene_summary_or_clipped_body");
    reveal_strlit("accepted_lore_record");
    reveal_strlit("accepted_style_rule_record");
    assert forall|a: SourceClass, b: SourceClass| a != b implies #[trigger] a.name() != #[trigger] b.name() by {
        assert(a.name().len() != b.name().len());
    }
}

} // verus!
