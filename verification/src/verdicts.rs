//! Verdicts and the evidence that goes with them.
use serde_json::Value;
use vstd::prelude::*;
use vstd::string::*;

use crate::evidence;
use crate::evidence::{
    ArtifactBytes, ArtifactModel, ChcPdrCexVerification, ChcPdrEncodingConcreteness, ChcPdrEngine,
    ChcPdrRefutationWitness, ChcPdrStats, EvidenceHash, FullVerificationArtifactKind, HashModel,
    MirChcPdrObligation, NativeTypedChcObligationMetadata, WitnessModel,
};
use crate::identity;
use crate::identity::{
    typed_chc_pdr_semantic_config_sha256, typed_chc_problem_artifact_bytes,
    FullVerificationCacheKey, NativeTypedChcPdrNormalizedInput, TypedChcPdrRoute,
};
use crate::json;
use crate::json::{json_rendering, JsonModel};
use crate::lowering::TypedChcLoweringAccounting;
use crate::text;
use crate::text::{concat3, concat4, decimal_text, join};

verus! {

/// What is reported of a candidate until it has been replayed afresh.
#[derive(Debug, PartialEq, Eq)]
pub struct ReplayWording {
    /// For a candidate that claims the validity of the clauses.
    pub chc_validity: String,
    /// For a candidate that carries an invariant.
    pub pdr_invariant: String,
}

/// The reason for which a refutation of an obligation with unsupported constructs
/// is not reported.
pub open spec fn demotion_reason(sites: nat, reasons: Seq<Seq<char>>) -> Seq<char> {
    let message = text::concat(
        seq![
            "fail-closed lowering reachable: "@,
            text::decimal(sites),
            " unsupported trust_ir construct(s) lowered to unconditional error rules; refutation demoted to unknown"@,
        ],
    );
    if reasons.len() == 0 {
        message
    } else {
        text::concat(seq![message, " (constructs: "@, text::joined(reasons, ", "@), ")"@])
    }
}

/// The reason for which a refutation of an obligation with unsupported constructs
/// is not reported.
pub fn fail_closed_lowering_demotion_reason(sites: u32, reasons: &[String]) -> (message: String)
    ensures
        message@ == demotion_reason(sites as nat, text::owned_texts(reasons@)),
{
    let count = decimal_text(sites as u64);
    let message = concat3(
        "fail-closed lowering reachable: ",
        count.as_str(),
        " unsupported trust_ir construct(s) lowered to unconditional error rules; refutation demoted to unknown",
    );
    if reasons.len() == 0 {
        return message;
    }
    let listed = join(reasons, ", ");
    concat4(message.as_str(), " (constructs: ", listed.as_str(), ")")
}

/// Whether a witness binds a counterexample to an input and a configuration.
pub open spec fn binds<H: Fn(&[u8]) -> EvidenceHash>(
    sha256: H,
    obligation_id: Seq<char>,
    input_hash: HashModel,
    engine: ChcPdrEngine,
    route: TypedChcPdrRoute,
    counterexample: JsonModel,
    verification: ChcPdrCexVerification,
    witness: WitnessModel,
) -> bool {
    &&& witness.obligation_id == obligation_id
    &&& witness.encoded_formula_sha256 == input_hash.value
    &&& identity::config_digest(sha256, engine, route, witness.semantic_config_sha256)
    &&& witness.counterexample_json == json::json_display(counterexample)
    &&& witness.verification == verification
    &&& witness.concreteness.lossless()
}

/// The witness of a refutation. There is one exactly where the lowering lost
/// nothing: an over-approximation is sound for proofs, but a counterexample to it
/// may be none of the obligation.
pub fn typed_chc_pdr_refutation_witness<H: Fn(&[u8]) -> EvidenceHash>(
    obligation_id: &str,
    normalized_input_hash: &EvidenceHash,
    engine: ChcPdrEngine,
    route: TypedChcPdrRoute,
    counterexample: &Value,
    verification: ChcPdrCexVerification,
    lowering: Option<TypedChcLoweringAccounting>,
    sha256: &H,
) -> (witness: Option<ChcPdrRefutationWitness>)
    requires
        evidence::total(*sha256),
    ensures
        match witness {
            Some(witness) => lowering == Some(TypedChcLoweringAccounting::exact()) && binds(
                *sha256,
                obligation_id@,
                normalized_input_hash@,
                engine,
                route,
                json::json_content(*counterexample),
                verification,
                witness@,
            ),
            None => lowering != Some(TypedChcLoweringAccounting::exact()),
        },
{
    let accounting = match lowering {
        Some(accounting) => accounting,
        None => {
            return None;
        },
    };
    if !accounting.is_exact() {
        return None;
    }
    Some(
        ChcPdrRefutationWitness {
            obligation_id: obligation_id.to_owned(),
            encoded_formula_sha256: normalized_input_hash.value.clone(),
            semantic_config_sha256: typed_chc_pdr_semantic_config_sha256(engine, route, sha256),
            counterexample_json: json_rendering(counterexample),
            verification,
            concreteness: ChcPdrEncodingConcreteness::ExactEncoding {
                translation_drops: accounting.translation_drops,
                havocs: accounting.havocs,
                undef_diagnostic_havocs: accounting.undef_diagnostic_havocs,
            },
        },
    )
}

/// Reference from one published artifact to another.
#[derive(Debug, PartialEq, Eq)]
pub struct FullVerificationArtifactReference {
    pub kind: FullVerificationArtifactKind,
    pub digest: EvidenceHash,
}

/// Retained bytes of an artifact, and what their producer says of them.
#[derive(Debug, PartialEq, Eq)]
pub struct FullVerificationArtifactMaterialization {
    pub bytes: Vec<u8>,
    /// Proof that the artifact belongs to.
    pub proof_binding_id: Option<String>,
    /// Artifacts that were consumed or checked.
    pub referenced_artifacts: Vec<FullVerificationArtifactReference>,
}

/// Published artifact.
#[derive(Debug, PartialEq, Eq)]
pub struct FullVerificationArtifact {
    pub kind: FullVerificationArtifactKind,
    pub label: String,
    pub digest: Option<EvidenceHash>,
    pub byte_len: Option<u64>,
    pub materialization: Option<FullVerificationArtifactMaterialization>,
}

/// What a proof candidate claims.
#[derive(Debug, Clone, Copy, PartialEq, Eq, Structural)]
pub enum ChcPdrProofKind {
    /// The clauses are valid.
    ChcValidity,
    /// An invariant separates the query target.
    PdrInvariant,
}

/// Proof candidate.
#[derive(Debug, PartialEq, Eq)]
pub struct ChcPdrProofEvidence {
    pub obligation_id: String,
    pub normalized_input: String,
    pub normalized_input_hash: EvidenceHash,
    pub native_metadata: Option<NativeTypedChcObligationMetadata>,
    pub stats: ChcPdrStats,
    pub artifacts: Vec<FullVerificationArtifact>,
    /// Cache key that the candidate belongs to.
    pub cache_key: Option<EvidenceHash>,
    /// Serialized form of what replay and check reported.
    pub replay_check_status: Option<Value>,
}

/// Verdict of a full verification.
#[derive(Debug, PartialEq, Eq)]
pub enum FullVerificationVerdict {
    /// There is a proof candidate.
    Proved { evidence: ChcPdrProofEvidence },
    /// The query target is derivable.
    Failed { counterexample_artifacts: Vec<ArtifactBytes> },
    /// Nothing was decided.
    Unknown { reason: String },
}

/// What a candidate is built from.
#[derive(Debug, PartialEq, Eq)]
pub struct CandidateBytes {
    pub proof_kind: ChcPdrProofKind,
    pub stats: ChcPdrStats,
    pub normalized_input: String,
    pub solver_transcript: ArtifactBytes,
    pub replay_log: ArtifactBytes,
    pub checked_report: ArtifactBytes,
    /// How many predicates the invariant interprets, and the invariant.
    pub invariant_model: Option<(usize, ArtifactBytes)>,
}

/// The label of an artifact of an obligation.
pub open spec fn artifact_label(obligation_id: Seq<char>, file: Seq<char>) -> Seq<char> {
    text::concat(seq!["trust_mc://typed-chc/"@, obligation_id, file])
}

pub(crate) fn label_artifact(obligation_id: &str, file: &str) -> (label: String)
    ensures
        label@ == artifact_label(obligation_id@, file@),
{
    concat3("trust_mc://typed-chc/", obligation_id, file)
}

/// The counterexample of an obligation, as an artifact.
pub open spec fn counterexample_artifact(
    obligation_id: Seq<char>,
    counterexample: JsonModel,
) -> ArtifactModel {
    evidence::document_artifact(
        FullVerificationArtifactKind::CounterexampleTrace,
        artifact_label(obligation_id, "/counterexample.json"@),
        counterexample,
    )
}

/// Whether a verdict is the failure by a counterexample.
pub open spec fn fails_by(
    verdict: FullVerificationVerdict,
    obligation_id: Seq<char>,
    counterexample: JsonModel,
) -> bool {
    verdict matches FullVerificationVerdict::Failed { counterexample_artifacts }
        && counterexample_artifacts@.len() == 1 && counterexample_artifacts@[0]@
        == counterexample_artifact(obligation_id, counterexample)
}

pub(crate) fn failed_verdict(obligation_id: &str, counterexample: &Value) -> (verdict:
    FullVerificationVerdict)
    ensures
        fails_by(verdict, obligation_id@, json::json_content(*counterexample)),
{
    let label = label_artifact(obligation_id, "/counterexample.json");
    let artifact = evidence::publish_document(
        FullVerificationArtifactKind::CounterexampleTrace,
        label,
        counterexample,
    );
    FullVerificationVerdict::Failed { counterexample_artifacts: vec![artifact] }
}

/// Whether a verdict decides nothing, for a reason.
pub open spec fn unknown_for(verdict: FullVerificationVerdict, why: Seq<char>) -> bool {
    verdict matches FullVerificationVerdict::Unknown { reason } && reason@ == why
}

/// Documents of a candidate.
pub struct CandidateDocuments {
    pub solver_transcript: Vec<u8>,
    pub replay_log: Vec<u8>,
    pub checked_report: Vec<u8>,
}

/// Whether a candidate is built from documents and an optional invariant.
pub open spec fn candidate_of(
    obligation_id: Seq<char>,
    proof_kind: ChcPdrProofKind,
    stats: ChcPdrStats,
    normalized_input: Seq<char>,
    documents: CandidateDocuments,
    invariant_model: Option<(usize, Seq<u8>)>,
    candidate: CandidateBytes,
) -> bool {
    &&& candidate.proof_kind == proof_kind
    &&& candidate.stats == stats
    &&& candidate.normalized_input@ == normalized_input
    &&& candidate.solver_transcript@ == ArtifactModel {
        kind: FullVerificationArtifactKind::SolverTranscript,
        label: artifact_label(obligation_id, "/ay-proof-run-replay-transcript.json"@),
        bytes: documents.solver_transcript@,
    }
    &&& candidate.replay_log@ == ArtifactModel {
        kind: FullVerificationArtifactKind::ReplayLog,
        label: artifact_label(obligation_id, "/replay-log.json"@),
        bytes: documents.replay_log@,
    }
    &&& candidate.checked_report@ == ArtifactModel {
        kind: FullVerificationArtifactKind::CheckedProofReport,
        label: artifact_label(obligation_id, "/checked-proof-report.json"@),
        bytes: documents.checked_report@,
    }
    &&& match (candidate.invariant_model, invariant_model) {
        (Some((count, model)), Some((own_count, own_model))) => count == own_count && model@
            == ArtifactModel {
            kind: FullVerificationArtifactKind::PdrInvariantModel,
            label: artifact_label(obligation_id, "/pdr-invariant-model.json"@),
            bytes: own_model,
        },
        (None, None) => true,
        _ => false,
    }
}

/// Whether an artifact is the typed problem of an obligation with an input.
pub open spec fn is_typed_problem<H: Fn(&[u8]) -> EvidenceHash>(
    sha256: H,
    obligation: MirChcPdrObligation,
    input: Seq<char>,
    artifact: ArtifactModel,
) -> bool {
    &&& artifact.kind == FullVerificationArtifactKind::TypedChcProblem
    &&& artifact.label == artifact_label(obligation.obligation_id@, "/typed-chc-problem.json"@)
    &&& identity::encodes_typed_problem(sha256, obligation, input, artifact.bytes)
}

/// Whether a candidate's proof is completed by the typed problem and the cache
/// key.
pub open spec fn completed(
    linked: ChcPdrProofEvidence,
    problem: FullVerificationArtifact,
    cache_key: HashModel,
    evidence: ChcPdrProofEvidence,
) -> bool {
    &&& evidence.artifacts@ == linked.artifacts@.push(problem)
    &&& evidence::optional_hash(evidence.cache_key) == Some(cache_key)
    &&& evidence.obligation_id == linked.obligation_id
    &&& evidence.normalized_input == linked.normalized_input
    &&& evidence.normalized_input_hash == linked.normalized_input_hash
    &&& evidence.native_metadata == linked.native_metadata
    &&& evidence.stats == linked.stats
    &&& evidence.replay_check_status == linked.replay_check_status
}

/// Whether a verdict is what becomes of a candidate: a proof candidate where both
/// linking and publishing succeed, and nothing decided otherwise.
pub open spec fn candidate_verdict<H, L, P>(
    sha256: H,
    link: L,
    publish: P,
    obligation: MirChcPdrObligation,
    normalized: NativeTypedChcPdrNormalizedInput,
    cache_key: HashModel,
    candidate: CandidateBytes,
    verdict: FullVerificationVerdict,
) -> bool where
    H: Fn(&[u8]) -> EvidenceHash,
    L: Fn(&MirChcPdrObligation, &CandidateBytes) -> Option<ChcPdrProofEvidence>,
    P: Fn(&ArtifactBytes) -> Option<FullVerificationArtifact>,
 {
    exists|linked: Option<ChcPdrProofEvidence>| #[trigger]
        link.ensures((&obligation, &candidate), linked) && match linked {
            None => unknown_for(
                verdict,
                "typed CHC proof artifacts were empty or exceeded the materialization limit"@,
            ),
            Some(linked) => exists|bytes: ArtifactBytes, problem: Option<FullVerificationArtifact>|
                #[trigger] publish.ensures((&bytes,), problem) && is_typed_problem(
                    sha256,
                    obligation,
                    normalized.normalized_input@,
                    bytes@,
                ) && match problem {
                    None => unknown_for(
                        verdict,
                        "typed CHC problem exceeded the materialization limit"@,
                    ),
                    Some(problem) => verdict matches FullVerificationVerdict::Proved { evidence }
                        && completed(linked, problem, cache_key, evidence),
                },
        }
}

/// The verdict for a candidate. The claim and the invariant have to agree: an
/// invariant goes with [`ChcPdrProofKind::PdrInvariant`] and with nothing else.
pub fn typed_proved_verdict<H, L, P>(
    obligation: &MirChcPdrObligation,
    proof_kind: ChcPdrProofKind,
    stats: ChcPdrStats,
    normalized: &NativeTypedChcPdrNormalizedInput,
    cache_key: &FullVerificationCacheKey,
    documents: CandidateDocuments,
    invariant_model: Option<(usize, Vec<u8>)>,
    sha256: &H,
    link: &L,
    publish: &P,
) -> (verdict: FullVerificationVerdict) where
    H: Fn(&[u8]) -> EvidenceHash,
    L: Fn(&MirChcPdrObligation, &CandidateBytes) -> Option<ChcPdrProofEvidence>,
    P: Fn(&ArtifactBytes) -> Option<FullVerificationArtifact>,

    requires
        evidence::total(*sha256),
        forall|candidate: &CandidateBytes| #[trigger] link.requires((obligation, candidate)),
        forall|bytes: &ArtifactBytes| #[trigger] publish.requires((bytes,)),
    ensures
        if (proof_kind == ChcPdrProofKind::PdrInvariant) == (invariant_model is Some) {
            exists|candidate: CandidateBytes|
                candidate_of(
                    obligation.obligation_id@,
                    proof_kind,
                    stats,
                    normalized.normalized_input@,
                    documents,
                    match invariant_model {
                        Some((count, model)) => Some((count, model@)),
                        None => None,
                    },
                    candidate,
                ) && #[trigger] candidate_verdict(
                    *sha256,
                    *link,
                    *publish,
                    *obligation,
                    *normalized,
                    cache_key.key@,
                    candidate,
                    verdict,
                )
        } else {
            unknown_for(verdict, "typed CHC proof kind and invariant artifact disagree"@)
        },
{
    let has_invariant = invariant_model.is_some();
    let wants_invariant = match proof_kind {
        ChcPdrProofKind::PdrInvariant => true,
        ChcPdrProofKind::ChcValidity => false,
    };
    if has_invariant != wants_invariant {
        return FullVerificationVerdict::Unknown {
            reason: "typed CHC proof kind and invariant artifact disagree".to_owned(),
        };
    }
    let id = obligation.obligation_id.as_str();
    let invariant_model = match invariant_model {
        Some((count, model)) => Some(
            (
                count,
                ArtifactBytes {
                    kind: FullVerificationArtifactKind::PdrInvariantModel,
                    label: label_artifact(id, "/pdr-invariant-model.json"),
                    bytes: model,
                },
            ),
        ),
        None => None,
    };
    let candidate = CandidateBytes {
        proof_kind,
        stats,
        normalized_input: normalized.normalized_input.clone(),
        solver_transcript: ArtifactBytes {
            kind: FullVerificationArtifactKind::SolverTranscript,
            label: label_artifact(id, "/ay-proof-run-replay-transcript.json"),
            bytes: documents.solver_transcript,
        },
        replay_log: ArtifactBytes {
            kind: FullVerificationArtifactKind::ReplayLog,
            label: label_artifact(id, "/replay-log.json"),
            bytes: documents.replay_log,
        },
        checked_report: ArtifactBytes {
            kind: FullVerificationArtifactKind::CheckedProofReport,
            label: label_artifact(id, "/checked-proof-report.json"),
            bytes: documents.checked_report,
        },
        invariant_model,
    };
    let verdict = admit_candidate(
        obligation,
        normalized,
        cache_key,
        &candidate,
        sha256,
        link,
        publish,
    );
    assert(candidate_verdict(
        *sha256,
        *link,
        *publish,
        *obligation,
        *normalized,
        cache_key.key@,
        candidate,
        verdict,
    ));
    verdict
}

fn admit_candidate<H, L, P>(
    obligation: &MirChcPdrObligation,
    normalized: &NativeTypedChcPdrNormalizedInput,
    cache_key: &FullVerificationCacheKey,
    candidate: &CandidateBytes,
    sha256: &H,
    link: &L,
    publish: &P,
) -> (verdict: FullVerificationVerdict) where
    H: Fn(&[u8]) -> EvidenceHash,
    L: Fn(&MirChcPdrObligation, &CandidateBytes) -> Option<ChcPdrProofEvidence>,
    P: Fn(&ArtifactBytes) -> Option<FullVerificationArtifact>,

    requires
        evidence::total(*sha256),
        forall|candidate: &CandidateBytes| #[trigger] link.requires((obligation, candidate)),
        forall|bytes: &ArtifactBytes| #[trigger] publish.requires((bytes,)),
    ensures
        candidate_verdict(
            *sha256,
            *link,
            *publish,
            *obligation,
            *normalized,
            cache_key.key@,
            *candidate,
            verdict,
        ),
{
    let linked = link(obligation, candidate);
    assert(link.ensures((obligation, candidate), linked));
    let mut evidence = match linked {
        Some(evidence) => evidence,
        None => {
            return FullVerificationVerdict::Unknown {
                reason:
                    "typed CHC proof artifacts were empty or exceeded the materialization limit".to_owned(),
            };
        },
    };
    let bytes = ArtifactBytes {
        kind: FullVerificationArtifactKind::TypedChcProblem,
        label: label_artifact(obligation.obligation_id.as_str(), "/typed-chc-problem.json"),
        bytes: typed_chc_problem_artifact_bytes(
            obligation,
            normalized.normalized_input.as_str(),
            sha256,
        ),
    };
    let published = publish(&bytes);
    assert(publish.ensures((&bytes,), published));
    match published {
        Some(problem) => {
            evidence.artifacts.push(problem);
            evidence.cache_key = Some(cache_key.key.duplicate());
            FullVerificationVerdict::Proved { evidence }
        },
        None => FullVerificationVerdict::Unknown {
            reason: "typed CHC problem exceeded the materialization limit".to_owned(),
        },
    }
}

} // verus!
