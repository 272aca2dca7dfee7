//! Authority of a live verification.
//!
//! A verification that was replayed afresh carries a seal: the digest of an
//! envelope that names everything the response holds. Authority is granted only
//! while the seal still matches, so that any change of the response revokes it.
//! A copy of a verification carries no seal.
use serde_json::Value;
use vstd::prelude::*;
use vstd::string::*;

use crate::error;
use crate::error::{
    ErrorModel, FullVerificationProblemKind, NativeSolveError, NativeSolveResult,
    ProofEvidenceRejection,
};
use crate::evidence;
use crate::evidence::{
    digest_bytes, ChcPdrSolveOutcome, ChcPdrSolveStatus, EvidenceHash,
    FullVerificationArtifactKind, HashModel, MirChcPdrObligation,
    NativeTypedChcObligationMetadata, OutcomeModel, StatusModel,
};
use crate::identity;
use crate::identity::{
    hash_value, metadata_value, stats_value, typed_artifact_directory,
    typed_chc_problem_artifact_bytes, FullVerificationCacheKey, PreparedTypedChcPdrInput,
    TypedChcPdrRoute,
};
use crate::json;
use crate::json::{
    json_bytes, json_copy, json_object, json_set, json_texts, set_number, set_text, JsonModel,
};
use crate::text;
use crate::text::{copy_texts, same_text};
use crate::transport;
use crate::transport::{
    native_typed_all_artifact_refs, native_typed_artifact_refs, native_typed_backend_label,
    native_typed_proof_strength, single_native_proof_id, still_described,
    NativeTypedChcPdrProofTransport, NativeTypedProofStatus,
};
use crate::verdicts::{
    ChcPdrProofEvidence, ChcPdrProofKind, FullVerificationArtifact, FullVerificationVerdict,
    ReplayWording,
};

verus! {

/// How the validity of clauses was derived.
#[derive(Debug, Clone, Copy, PartialEq, Eq, Structural)]
pub enum PrivateChcValidityDerivation {
    /// No rule of a translated bundle derives the query target.
    NativeBundleStructural,
    /// An exhaustive search of a translated bundle found no error derivation.
    NativeBundleAcyclicDirectSmt,
    /// No rule of the obligation, lowered afresh, derives the query target.
    ExactDirectStructuralReplay,
    /// A second exhaustive search of the obligation, lowered afresh, found no
    /// error derivation.
    ExactDirectAcyclicDirectSmtReplay,
}

impl PrivateChcValidityDerivation {
    /// Name of the derivation.
    pub open spec fn label_text(self) -> Seq<char> {
        match self {
            PrivateChcValidityDerivation::NativeBundleStructural => "native-bundle-structural"@,
            PrivateChcValidityDerivation::NativeBundleAcyclicDirectSmt =>
                "native-bundle-acyclic-direct-smt"@,
            PrivateChcValidityDerivation::ExactDirectStructuralReplay =>
                "exact-direct-structural-replay"@,
            PrivateChcValidityDerivation::ExactDirectAcyclicDirectSmtReplay =>
                "exact-direct-acyclic-direct-smt-replay"@,
        }
    }

    /// Name of the derivation.
    pub fn label(self) -> (label: &'static str)
        ensures
            label@ == self.label_text(),
    {
        match self {
            PrivateChcValidityDerivation::NativeBundleStructural => "native-bundle-structural",
            PrivateChcValidityDerivation::NativeBundleAcyclicDirectSmt =>
                "native-bundle-acyclic-direct-smt",
            PrivateChcValidityDerivation::ExactDirectStructuralReplay =>
                "exact-direct-structural-replay",
            PrivateChcValidityDerivation::ExactDirectAcyclicDirectSmtReplay =>
                "exact-direct-acyclic-direct-smt-replay",
        }
    }

    /// What the derivation rests on.
    pub open spec fn domain_text(self) -> Seq<char> {
        match self {
            PrivateChcValidityDerivation::NativeBundleStructural
            | PrivateChcValidityDerivation::NativeBundleAcyclicDirectSmt =>
                "trusted-native-bundle-translation-plus-exact-derivation-not-serializable"@,
            PrivateChcValidityDerivation::ExactDirectStructuralReplay
            | PrivateChcValidityDerivation::ExactDirectAcyclicDirectSmtReplay =>
                "fresh-exact-typed-obligation-plus-independent-validity-replay-not-serializable"@,
        }
    }

    /// What the derivation rests on.
    pub fn authority_domain(self) -> (domain: &'static str)
        ensures
            domain@ == self.domain_text(),
    {
        match self {
            PrivateChcValidityDerivation::NativeBundleStructural
            | PrivateChcValidityDerivation::NativeBundleAcyclicDirectSmt =>
                "trusted-native-bundle-translation-plus-exact-derivation-not-serializable",
            PrivateChcValidityDerivation::ExactDirectStructuralReplay
            | PrivateChcValidityDerivation::ExactDirectAcyclicDirectSmtReplay =>
                "fresh-exact-typed-obligation-plus-independent-validity-replay-not-serializable",
        }
    }
}

/// What a fresh replay of an invariant was about.
#[derive(Debug, PartialEq, Eq)]
struct PrivatePdrInvariantReplayBinding {
    exact_obligation_set_hash: EvidenceHash,
    fresh_problem_hash: EvidenceHash,
    typed_problem_digest: EvidenceHash,
    invariant_model_digest: EvidenceHash,
    invariant_model_byte_len: u64,
}

/// What a fresh replay of an invariant was about, as its model.
pub struct ReplayModel {
    pub exact_obligation_set_hash: HashModel,
    pub fresh_problem_hash: HashModel,
    pub typed_problem_digest: HashModel,
    pub invariant_model_digest: HashModel,
    pub invariant_model_byte_len: u64,
}

impl View for PrivatePdrInvariantReplayBinding {
    type V = ReplayModel;

    closed spec fn view(&self) -> ReplayModel {
        ReplayModel {
            exact_obligation_set_hash: self.exact_obligation_set_hash@,
            fresh_problem_hash: self.fresh_problem_hash@,
            typed_problem_digest: self.typed_problem_digest@,
            invariant_model_digest: self.invariant_model_digest@,
            invariant_model_byte_len: self.invariant_model_byte_len,
        }
    }
}

/// Seal of a verification.
#[derive(Debug, PartialEq, Eq)]
enum PrivateNativeProofSeal {
    ChcValidity { derivation: PrivateChcValidityDerivation, binding: EvidenceHash },
    PdrInvariant { replay: Box<PrivatePdrInvariantReplayBinding>, binding: EvidenceHash },
}

/// What a seal is.
pub enum SealModel {
    ChcValidity { derivation: PrivateChcValidityDerivation, binding: HashModel },
    PdrInvariant { replay: ReplayModel, binding: HashModel },
}

impl View for PrivateNativeProofSeal {
    type V = SealModel;

    closed spec fn view(&self) -> SealModel {
        match self {
            PrivateNativeProofSeal::ChcValidity { derivation, binding } => SealModel::ChcValidity {
                derivation: *derivation,
                binding: binding@,
            },
            PrivateNativeProofSeal::PdrInvariant { replay, binding } => SealModel::PdrInvariant {
                replay: replay@,
                binding: binding@,
            },
        }
    }
}

/// Place of a seal. Only this module can put one there.
#[derive(Debug, PartialEq, Eq)]
pub struct NativeProofSeal {
    seal: Option<PrivateNativeProofSeal>,
}

impl NativeProofSeal {
    /// The seal, where there is one.
    pub closed spec fn model(self) -> Option<SealModel> {
        match self.seal {
            Some(seal) => Some(seal@),
            None => None,
        }
    }

    /// A place without a seal.
    pub fn none() -> (place: NativeProofSeal)
        ensures
            place.model() is None,
    {
        NativeProofSeal { seal: None }
    }
}

/// Response of a full verification.
#[derive(Debug, PartialEq, Eq)]
pub struct TypedChcPdrFullVerification {
    pub route: TypedChcPdrRoute,
    pub cache_key: FullVerificationCacheKey,
    pub artifact_directory: String,
    pub outcome: ChcPdrSolveOutcome,
    pub verdict: FullVerificationVerdict,
    pub private_native_proof_seal: NativeProofSeal,
}

impl TypedChcPdrFullVerification {
    /// The seal, where there is one.
    pub open spec fn seal(self) -> Option<SealModel> {
        self.private_native_proof_seal.model()
    }

    /// Whether everything but the seal is the same.
    pub open spec fn same_response(self, other: TypedChcPdrFullVerification) -> bool {
        &&& self.route == other.route
        &&& self.cache_key == other.cache_key
        &&& self.artifact_directory == other.artifact_directory
        &&& self.outcome == other.outcome
        &&& self.verdict == other.verdict
    }

    /// A response without a seal.
    pub fn unsealed(
        route: TypedChcPdrRoute,
        cache_key: FullVerificationCacheKey,
        artifact_directory: String,
        outcome: ChcPdrSolveOutcome,
        verdict: FullVerificationVerdict,
    ) -> (verification: TypedChcPdrFullVerification)
        ensures
            verification.route == route,
            verification.cache_key == cache_key,
            verification.artifact_directory == artifact_directory,
            verification.outcome == outcome,
            verification.verdict == verdict,
            verification.seal() is None,
    {
        TypedChcPdrFullVerification {
            route,
            cache_key,
            artifact_directory,
            outcome,
            verdict,
            private_native_proof_seal: NativeProofSeal::none(),
        }
    }
}

/// Answer of the evidence policy: what a candidate claims, or why it is not
/// accepted.
pub type Admission = Result<ChcPdrProofKind, ProofEvidenceRejection>;

/// Whether an artifact is the only one of a kind.
pub open spec fn only(
    artifacts: Seq<FullVerificationArtifact>,
    kind: FullVerificationArtifactKind,
    at: int,
) -> bool {
    &&& 0 <= at < artifacts.len()
    &&& artifacts[at].kind == kind
    &&& forall|other: int|
        0 <= other < artifacts.len() && other != at ==> (#[trigger] artifacts[other]).kind != kind
}

pub(crate) fn single_artifact(
    artifacts: &Vec<FullVerificationArtifact>,
    kind: FullVerificationArtifactKind,
) -> (at: Option<usize>)
    ensures
        match at {
            Some(at) => only(artifacts@, kind, at as int),
            None => forall|at: int| !#[trigger] only(artifacts@, kind, at),
        },
{
    let mut found: Option<usize> = None;
    for i in 0..artifacts.len()
        invariant
            match found {
                Some(at) => at < i && artifacts@[at as int].kind == kind && forall|other: int|
                    0 <= other < i && other != at ==> (#[trigger] artifacts@[other]).kind != kind,
                None => forall|other: int|
                    0 <= other < i ==> (#[trigger] artifacts@[other]).kind != kind,
            },
    {
        if artifacts[i].kind == kind {
            match found {
                Some(first) => {
                    assert(artifacts@[first as int].kind == kind);
                    assert(artifacts@[i as int].kind == kind);
                    return None;
                },
                None => {
                    found = Some(i);
                },
            }
        }
    }
    found
}

/// Whether an artifact's retained bytes match its descriptor, by the digest that
/// is measured now.
pub open spec fn retains<H: Fn(&[u8]) -> EvidenceHash>(
    sha256: H,
    artifact: FullVerificationArtifact,
    yes: bool,
) -> bool {
    match artifact.materialization {
        None => !yes,
        Some(retained) => exists|measured: HashModel| #[trigger]
            evidence::digests(sha256, retained.bytes@, measured) && yes == transport::describes(
                artifact.digest,
                artifact.byte_len,
                retained.bytes@,
                measured,
            ),
    }
}

fn is_retained<H: Fn(&[u8]) -> EvidenceHash>(artifact: &FullVerificationArtifact, sha256: &H) -> (yes:
    bool)
    requires
        evidence::total(*sha256),
    ensures
        retains(*sha256, *artifact, yes),
        yes ==> artifact.materialization is Some && artifact.digest is Some
            && artifact.byte_len is Some,
{
    match &artifact.materialization {
        Some(retained) => still_described(
            &artifact.digest,
            artifact.byte_len,
            &retained.bytes,
            sha256,
        ),
        None => false,
    }
}

/// Name of a route in an envelope.
pub open spec fn envelope_route(route: TypedChcPdrRoute) -> Seq<char> {
    match route {
        TypedChcPdrRoute::TriviallySafe => "trivially-safe"@,
        TypedChcPdrRoute::PdrProof => "pdr-proof"@,
    }
}

/// An undecided outcome in an envelope.
pub open spec fn envelope_outcome(outcome: OutcomeModel, reason: Seq<char>) -> JsonModel {
    JsonModel::Object(
        map![
            "obligation_id"@ => JsonModel::Text(outcome.obligation_id),
            "candidate_status"@ => JsonModel::Text("unknown"@),
            "reason"@ => JsonModel::Text(reason),
            "stats"@ => identity::stats_document(outcome.stats),
            "diagnostics"@ => json::text_array(outcome.diagnostics),
        ],
    )
}

fn envelope_outcome_value(outcome: &ChcPdrSolveOutcome, reason: &str) -> (value: Value)
    ensures
        json::json_content(value) == envelope_outcome(outcome@, reason@),
{
    let mut document = json_object();
    set_text(&mut document, "obligation_id", outcome.obligation_id.as_str());
    set_text(&mut document, "candidate_status", "unknown");
    set_text(&mut document, "reason", reason);
    json_set(&mut document, "stats", stats_value(outcome.stats));
    json_set(&mut document, "diagnostics", json_texts(&outcome.diagnostics));
    document
}

/// The envelope of a verification whose candidate claims validity.
pub open spec fn validity_envelope(
    verification: TypedChcPdrFullVerification,
    derivation: PrivateChcValidityDerivation,
    problem_digest: HashModel,
    reason: Seq<char>,
    verdict_form: JsonModel,
) -> JsonModel {
    JsonModel::Object(
        map![
            "schema"@ => JsonModel::Text("trust_mc.private-chc-validity-authority/v1"@),
            "domain"@ => JsonModel::Text(derivation.domain_text()),
            "derivation"@ => JsonModel::Text(derivation.label_text()),
            "route"@ => JsonModel::Text(envelope_route(verification.route)),
            "cache_key"@ => json::json_content(verification.cache_key.serialized),
            "artifact_directory"@ => JsonModel::Text(verification.artifact_directory@),
            "outcome"@ => envelope_outcome(verification.outcome@, reason),
            "typed_problem_digest"@ => identity::hash_document(problem_digest),
            "candidate_verdict"@ => verdict_form,
        ],
    )
}

/// Whether a verification holds together around its candidate: the candidate, the
/// cache key, the directory and the outcome are about the same obligation.
pub open spec fn coherent(
    verification: TypedChcPdrFullVerification,
    evidence: ChcPdrProofEvidence,
    reason: Seq<char>,
) -> bool {
    &&& evidence::optional_hash(evidence.cache_key) == Some(verification.cache_key.key@)
    &&& evidence.normalized_input_hash@ == verification.cache_key.normalized_input_hash@
    &&& verification.cache_key.valid
    &&& verification.artifact_directory@ == identity::artifact_directory_of(
        verification.cache_key.key@,
    )
    &&& evidence.obligation_id@ == verification.outcome.obligation_id@
    &&& evidence.stats == verification.outcome.stats
    &&& verification.outcome.status@ == StatusModel::Unknown(reason)
}

fn is_coherent(
    verification: &TypedChcPdrFullVerification,
    evidence: &ChcPdrProofEvidence,
    reason: &str,
) -> (yes: bool)
    ensures
        yes == coherent(*verification, *evidence, reason@),
{
    let directory = typed_artifact_directory(&verification.cache_key);
    let undecided_so = match &verification.outcome.status {
        ChcPdrSolveStatus::Unknown { reason: own } => same_text(own.as_str(), reason),
        ChcPdrSolveStatus::Refuted { .. } => false,
    };
    evidence::is_hash(&evidence.cache_key, &verification.cache_key.key)
        && evidence.normalized_input_hash.same(&verification.cache_key.normalized_input_hash)
        && verification.cache_key.valid && same_text(
        verification.artifact_directory.as_str(),
        directory.as_str(),
    ) && same_text(
        evidence.obligation_id.as_str(),
        verification.outcome.obligation_id.as_str(),
    ) && evidence.stats == verification.outcome.stats && undecided_so
}

/// Whether the seal of a verification whose candidate claims validity may be the
/// given one; there is none where the verification does not hold together or its
/// typed problem was altered.
pub open spec fn validity_binding<H: Fn(&[u8]) -> EvidenceHash>(
    sha256: H,
    verification: TypedChcPdrFullVerification,
    derivation: PrivateChcValidityDerivation,
    claim: ChcPdrProofKind,
    wording: ReplayWording,
    verdict_form: JsonModel,
    binding: Option<HashModel>,
) -> bool {
    match verification.verdict {
        FullVerificationVerdict::Proved { evidence } => {
            let artifacts = evidence.artifacts@;
            if claim != ChcPdrProofKind::ChcValidity || !coherent(
                verification,
                evidence,
                wording.chc_validity@,
            ) || forall|at: int|
                !#[trigger] only(artifacts, FullVerificationArtifactKind::TypedChcProblem, at) {
                binding is None
            } else {
                exists|at: int, intact: bool|
                    {
                        &&& #[trigger] only(
                            artifacts,
                            FullVerificationArtifactKind::TypedChcProblem,
                            at,
                        )
                        &&& #[trigger] retains(sha256, artifacts[at], intact)
                        &&& match (intact, binding) {
                            (true, Some(binding)) => evidence::digests(
                                sha256,
                                json::json_encoding(
                                    validity_envelope(
                                        verification,
                                        derivation,
                                        artifacts[at].digest->0@,
                                        wording.chc_validity@,
                                        verdict_form,
                                    ),
                                ),
                                binding,
                            ),
                            (false, None) => true,
                            _ => false,
                        }
                    }
            }
        },
        _ => binding is None,
    }
}

/// The seal of a verification whose candidate claims validity.
fn private_chc_validity_binding<H: Fn(&[u8]) -> EvidenceHash>(
    verification: &TypedChcPdrFullVerification,
    derivation: PrivateChcValidityDerivation,
    claim: ChcPdrProofKind,
    wording: &ReplayWording,
    verdict_form: &Value,
    sha256: &H,
) -> (binding: Option<EvidenceHash>)
    requires
        evidence::total(*sha256),
    ensures
        validity_binding(
            *sha256,
            *verification,
            derivation,
            claim,
            *wording,
            json::json_content(*verdict_form),
            evidence::optional_hash(binding),
        ),
{
    let evidence = match &verification.verdict {
        FullVerificationVerdict::Proved { evidence } => evidence,
        _ => {
            return None;
        },
    };
    let claims_validity = match claim {
        ChcPdrProofKind::ChcValidity => true,
        ChcPdrProofKind::PdrInvariant => false,
    };
    let reason = wording.chc_validity.as_str();
    if !claims_validity || !is_coherent(verification, evidence, reason) {
        return None;
    }
    let at: usize = match single_artifact(
        &evidence.artifacts,
        FullVerificationArtifactKind::TypedChcProblem,
    ) {
        Some(at) => at,
        None => {
            return None;
        },
    };
    let problem = &evidence.artifacts[at];
    let intact = is_retained(problem, sha256);
    assert(only(
        evidence.artifacts@,
        FullVerificationArtifactKind::TypedChcProblem,
        at as int,
    ));
    assert(retains(*sha256, evidence.artifacts@[at as int], intact));
    if !intact {
        return None;
    }
    let problem_digest = match &problem.digest {
        Some(digest) => digest,
        None => {
            return None;
        },
    };
    let route = match verification.route {
        TypedChcPdrRoute::TriviallySafe => "trivially-safe",
        TypedChcPdrRoute::PdrProof => "pdr-proof",
    };
    let mut document = json_object();
    set_text(&mut document, "schema", "trust_mc.private-chc-validity-authority/v1");
    set_text(&mut document, "domain", derivation.authority_domain());
    set_text(&mut document, "derivation", derivation.label());
    set_text(&mut document, "route", route);
    json_set(&mut document, "cache_key", json_copy(&verification.cache_key.serialized));
    set_text(&mut document, "artifact_directory", verification.artifact_directory.as_str());
    json_set(
        &mut document,
        "outcome",
        envelope_outcome_value(&verification.outcome, reason),
    );
    json_set(&mut document, "typed_problem_digest", hash_value(problem_digest));
    json_set(&mut document, "candidate_verdict", json_copy(verdict_form));
    let bytes = json_bytes(&document);
    Some(digest_bytes(sha256, &bytes))
}

/// The envelope of a verification whose candidate carries an invariant.
pub open spec fn invariant_envelope(
    verification: TypedChcPdrFullVerification,
    replay: ReplayModel,
    reason: Seq<char>,
    verdict_form: JsonModel,
) -> JsonModel {
    JsonModel::Object(
        map![
            "schema"@ => JsonModel::Text("trust_mc.private-pdr-invariant-replay-authority/v1"@),
            "domain"@ => JsonModel::Text(
                "fresh-exact-typed-obligation-plus-independent-strict-invariant-replay-not-serializable"@,
            ),
            "route"@ => JsonModel::Text("pdr-proof"@),
            "cache_key"@ => json::json_content(verification.cache_key.serialized),
            "artifact_directory"@ => JsonModel::Text(verification.artifact_directory@),
            "exact_obligation_set_hash"@ => identity::hash_document(
                replay.exact_obligation_set_hash,
            ),
            "fresh_problem_hash"@ => identity::hash_document(replay.fresh_problem_hash),
            "typed_problem_digest"@ => identity::hash_document(replay.typed_problem_digest),
            "invariant_model_digest"@ => identity::hash_document(replay.invariant_model_digest),
            "invariant_model_byte_len"@ => JsonModel::Number(
                replay.invariant_model_byte_len as nat,
            ),
            "outcome"@ => envelope_outcome(verification.outcome@, reason),
            "candidate_verdict"@ => verdict_form,
        ],
    )
}

/// Whether a replay was about the invariant of a verification that holds together.
pub open spec fn replays(
    verification: TypedChcPdrFullVerification,
    evidence: ChcPdrProofEvidence,
    replay: ReplayModel,
    reason: Seq<char>,
) -> bool {
    &&& verification.route == TypedChcPdrRoute::PdrProof
    &&& coherent(verification, evidence, reason)
    &&& evidence.normalized_input_hash@ == replay.fresh_problem_hash
    &&& verification.cache_key.obligation_set_hash@ == replay.exact_obligation_set_hash
}

/// Whether an artifact is the only one of its kind and has the digest that a
/// replay saw.
pub open spec fn only_seen(
    artifacts: Seq<FullVerificationArtifact>,
    kind: FullVerificationArtifactKind,
    at: int,
    digest: HashModel,
) -> bool {
    only(artifacts, kind, at) && evidence::optional_hash(artifacts[at].digest) == Some(digest)
}

/// Whether the seal of a verification whose candidate carries an invariant may be
/// the given one.
pub open spec fn invariant_binding<H: Fn(&[u8]) -> EvidenceHash>(
    sha256: H,
    verification: TypedChcPdrFullVerification,
    replay: ReplayModel,
    claim: ChcPdrProofKind,
    wording: ReplayWording,
    verdict_form: JsonModel,
    binding: Option<HashModel>,
) -> bool {
    match verification.verdict {
        FullVerificationVerdict::Proved { evidence } => {
            let artifacts = evidence.artifacts@;
            if claim != ChcPdrProofKind::PdrInvariant || !replays(
                verification,
                evidence,
                replay,
                wording.pdr_invariant@,
            ) {
                binding is None
            } else {
                ||| binding is None && forall|at: int|
                    !#[trigger] only_seen(
                        artifacts,
                        FullVerificationArtifactKind::TypedChcProblem,
                        at,
                        replay.typed_problem_digest,
                    )
                ||| binding is None && forall|at: int|
                    #[trigger] only_seen(
                        artifacts,
                        FullVerificationArtifactKind::PdrInvariantModel,
                        at,
                        replay.invariant_model_digest,
                    ) ==> artifacts[at].byte_len != Some(replay.invariant_model_byte_len)
                ||| exists|problem: int, model: int, problem_intact: bool, model_intact: bool|
                    {
                        &&& #[trigger] only_seen(
                            artifacts,
                            FullVerificationArtifactKind::TypedChcProblem,
                            problem,
                            replay.typed_problem_digest,
                        )
                        &&& #[trigger] only_seen(
                            artifacts,
                            FullVerificationArtifactKind::PdrInvariantModel,
                            model,
                            replay.invariant_model_digest,
                        )
                        &&& artifacts[model].byte_len == Some(replay.invariant_model_byte_len)
                        &&& #[trigger] retains(sha256, artifacts[problem], problem_intact)
                        &&& #[trigger] retains(sha256, artifacts[model], model_intact)
                        &&& match (problem_intact && model_intact, binding) {
                            (true, Some(binding)) => evidence::digests(
                                sha256,
                                json::json_encoding(
                                    invariant_envelope(
                                        verification,
                                        replay,
                                        wording.pdr_invariant@,
                                        verdict_form,
                                    ),
                                ),
                                binding,
                            ),
                            (false, None) => true,
                            _ => false,
                        }
                    }
            }
        },
        _ => binding is None,
    }
}

fn single_seen(
    artifacts: &Vec<FullVerificationArtifact>,
    kind: FullVerificationArtifactKind,
    digest: &EvidenceHash,
) -> (at: Option<usize>)
    ensures
        match at {
            Some(at) => only_seen(artifacts@, kind, at as int, digest@),
            None => forall|at: int| !#[trigger] only_seen(artifacts@, kind, at, digest@),
        },
{
    match single_artifact(artifacts, kind) {
        Some(at) => if evidence::is_hash(&artifacts[at].digest, digest) {
            Some(at)
        } else {
            assert forall|other: int| !#[trigger] only_seen(artifacts@, kind, other, digest@) by {
                if only(artifacts@, kind, other) {
                    assert(other == at);
                }
            }
            None
        },
        None => {
            assert forall|other: int| !#[trigger] only_seen(artifacts@, kind, other, digest@) by {
                assert(!only(artifacts@, kind, other));
            }
            None
        },
    }
}

/// The seal of a verification whose candidate carries an invariant.
fn private_pdr_invariant_binding<H: Fn(&[u8]) -> EvidenceHash>(
    verification: &TypedChcPdrFullVerification,
    replay: &PrivatePdrInvariantReplayBinding,
    claim: ChcPdrProofKind,
    wording: &ReplayWording,
    verdict_form: &Value,
    sha256: &H,
) -> (binding: Option<EvidenceHash>)
    requires
        evidence::total(*sha256),
    ensures
        invariant_binding(
            *sha256,
            *verification,
            replay@,
            claim,
            *wording,
            json::json_content(*verdict_form),
            evidence::optional_hash(binding),
        ),
{
    let evidence = match &verification.verdict {
        FullVerificationVerdict::Proved { evidence } => evidence,
        _ => {
            return None;
        },
    };
    let claims_invariant = match claim {
        ChcPdrProofKind::ChcValidity => false,
        ChcPdrProofKind::PdrInvariant => true,
    };
    let on_route = match verification.route {
        TypedChcPdrRoute::PdrProof => true,
        TypedChcPdrRoute::TriviallySafe => false,
    };
    let reason = wording.pdr_invariant.as_str();
    if !claims_invariant || !on_route || !is_coherent(verification, evidence, reason)
        || !evidence.normalized_input_hash.same(&replay.fresh_problem_hash)
        || !verification.cache_key.obligation_set_hash.same(&replay.exact_obligation_set_hash) {
        return None;
    }
    let problem: usize = match single_seen(
        &evidence.artifacts,
        FullVerificationArtifactKind::TypedChcProblem,
        &replay.typed_problem_digest,
    ) {
        Some(at) => at,
        None => {
            return None;
        },
    };
    let model: usize = match single_seen(
        &evidence.artifacts,
        FullVerificationArtifactKind::PdrInvariantModel,
        &replay.invariant_model_digest,
    ) {
        Some(at) => at,
        None => {
            return None;
        },
    };
    let same_len = match evidence.artifacts[model].byte_len {
        Some(byte_len) => byte_len == replay.invariant_model_byte_len,
        None => false,
    };
    if !same_len {
        assert forall|at: int| #[trigger]
            only_seen(
                evidence.artifacts@,
                FullVerificationArtifactKind::PdrInvariantModel,
                at,
                replay@.invariant_model_digest,
            ) implies evidence.artifacts@[at].byte_len != Some(
            replay@.invariant_model_byte_len,
        ) by {
            assert(at == model);
        }
        return None;
    }
    let problem_intact = is_retained(&evidence.artifacts[problem], sha256);
    let model_intact = is_retained(&evidence.artifacts[model], sha256);
    assert(retains(*sha256, evidence.artifacts@[problem as int], problem_intact));
    assert(retains(*sha256, evidence.artifacts@[model as int], model_intact));
    if !problem_intact || !model_intact {
        return None;
    }
    let mut document = json_object();
    set_text(&mut document, "schema", "trust_mc.private-pdr-invariant-replay-authority/v1");
    set_text(
        &mut document,
        "domain",
        "fresh-exact-typed-obligation-plus-independent-strict-invariant-replay-not-serializable",
    );
    set_text(&mut document, "route", "pdr-proof");
    json_set(&mut document, "cache_key", json_copy(&verification.cache_key.serialized));
    set_text(&mut document, "artifact_directory", verification.artifact_directory.as_str());
    json_set(
        &mut document,
        "exact_obligation_set_hash",
        hash_value(&replay.exact_obligation_set_hash),
    );
    json_set(&mut document, "fresh_problem_hash", hash_value(&replay.fresh_problem_hash));
    json_set(&mut document, "typed_problem_digest", hash_value(&replay.typed_problem_digest));
    json_set(&mut document, "invariant_model_digest", hash_value(&replay.invariant_model_digest));
    set_number(&mut document, "invariant_model_byte_len", replay.invariant_model_byte_len);
    json_set(
        &mut document,
        "outcome",
        envelope_outcome_value(&verification.outcome, reason),
    );
    json_set(&mut document, "candidate_verdict", json_copy(verdict_form));
    let bytes = json_bytes(&document);
    Some(digest_bytes(sha256, &bytes))
}

/// Whether the given binding may be what a seal's binding is now.
pub open spec fn rebinds<H: Fn(&[u8]) -> EvidenceHash>(
    sha256: H,
    verification: TypedChcPdrFullVerification,
    seal: SealModel,
    claim: ChcPdrProofKind,
    wording: ReplayWording,
    verdict_form: JsonModel,
    binding: Option<HashModel>,
) -> bool {
    match (claim, seal) {
        (ChcPdrProofKind::ChcValidity, SealModel::ChcValidity { derivation, .. }) =>
            validity_binding(
                sha256,
                verification,
                derivation,
                claim,
                wording,
                verdict_form,
                binding,
            ),
        (ChcPdrProofKind::PdrInvariant, SealModel::PdrInvariant { replay, .. }) =>
            invariant_binding(
                sha256,
                verification,
                replay,
                claim,
                wording,
                verdict_form,
                binding,
            ),
        _ => binding is None,
    }
}

/// The binding that a seal holds.
pub open spec fn held_binding(seal: SealModel) -> HashModel {
    match seal {
        SealModel::ChcValidity { binding, .. } => binding,
        SealModel::PdrInvariant { binding, .. } => binding,
    }
}

/// The refusal of authority.
pub open spec fn authority_refusal(reason: Seq<char>) -> ErrorModel {
    ErrorModel::ProofGradeRejected {
        problem_kind: Some(FullVerificationProblemKind::ChcPdr),
        reasons: seq![reason],
    }
}

fn private_native_proof_rejection(reason: &str) -> (refused: NativeSolveError)
    ensures
        refused@ == authority_refusal(reason@),
{
    let reasons: Vec<String> = vec![reason.to_owned()];
    assert(text::owned_texts(reasons@) =~= seq![reason@]);
    NativeSolveError::ProofGradeRejected {
        rejection: ProofEvidenceRejection {
            problem_kind: Some(FullVerificationProblemKind::ChcPdr),
            reasons,
        },
    }
}

/// Whether an answer to a request for authority is right: the claim is granted
/// exactly where the evidence policy admits the candidate, a seal is there, and
/// its binding is the one that the response has now.
pub open spec fn authorizes<H: Fn(&[u8]) -> EvidenceHash>(
    sha256: H,
    verification: TypedChcPdrFullVerification,
    admission: Admission,
    wording: ReplayWording,
    verdict_form: JsonModel,
    granted: NativeSolveResult<ChcPdrProofKind>,
) -> bool {
    match admission {
        Err(rejection) => error::failure(granted) == Some(
            ErrorModel::ProofGradeRejected {
                problem_kind: rejection.problem_kind,
                reasons: text::owned_texts(rejection.reasons@),
            },
        ),
        Ok(claim) => match verification.seal() {
            None => error::failure(granted) == Some(
                authority_refusal(
                    "missing private in-process native typed CHC/PDR proof authority"@,
                ),
            ),
            Some(seal) => exists|binding: Option<HashModel>| #[trigger]
                rebinds(
                    sha256,
                    verification,
                    seal,
                    claim,
                    wording,
                    verdict_form,
                    binding,
                ) && if binding == Some(held_binding(seal)) {
                    granted == Ok::<ChcPdrProofKind, NativeSolveError>(claim)
                } else {
                    error::failure(granted) == Some(
                        authority_refusal(
                            "private native typed CHC/PDR proof authority no longer matches the verification response"@,
                        ),
                    )
                },
        },
    }
}

fn copy_rejection(rejection: &ProofEvidenceRejection) -> (copy: ProofEvidenceRejection)
    ensures
        copy.problem_kind == rejection.problem_kind,
        text::owned_texts(copy.reasons@) == text::owned_texts(rejection.reasons@),
{
    let reasons = copy_texts(&rejection.reasons);
    ProofEvidenceRejection { problem_kind: rejection.problem_kind, reasons }
}

impl TypedChcPdrFullVerification {
    /// Grants the claim of the candidate, where the seal still matches the
    /// response.
    pub fn privately_authorized_native_candidate<H: Fn(&[u8]) -> EvidenceHash>(
        &self,
        admission: &Admission,
        wording: &ReplayWording,
        verdict_form: &Value,
        sha256: &H,
    ) -> (granted: NativeSolveResult<ChcPdrProofKind>)
        requires
            evidence::total(*sha256),
        ensures
            authorizes(
                *sha256,
                *self,
                *admission,
                *wording,
                json::json_content(*verdict_form),
                granted,
            ),
    {
        let claim = match admission {
            Ok(claim) => *claim,
            Err(rejection) => {
                return Err(
                    NativeSolveError::ProofGradeRejected { rejection: copy_rejection(rejection) },
                );
            },
        };
        let seal = match &self.private_native_proof_seal.seal {
            Some(seal) => seal,
            None => {
                return Err(
                    private_native_proof_rejection(
                        "missing private in-process native typed CHC/PDR proof authority",
                    ),
                );
            },
        };
        let (current, held) = match (claim, seal) {
            (
                ChcPdrProofKind::ChcValidity,
                PrivateNativeProofSeal::ChcValidity { derivation, binding },
            ) => (
                private_chc_validity_binding(
                    self,
                    *derivation,
                    claim,
                    wording,
                    verdict_form,
                    sha256,
                ),
                binding,
            ),
            (
                ChcPdrProofKind::PdrInvariant,
                PrivateNativeProofSeal::PdrInvariant { replay, binding },
            ) => (
                private_pdr_invariant_binding(self, replay, claim, wording, verdict_form, sha256),
                binding,
            ),
            (_, PrivateNativeProofSeal::ChcValidity { binding, .. }) => (None, binding),
            (_, PrivateNativeProofSeal::PdrInvariant { binding, .. }) => (None, binding),
        };
        assert(rebinds(
            *sha256,
            *self,
            seal@,
            claim,
            *wording,
            json::json_content(*verdict_form),
            evidence::optional_hash(current),
        ));
        if evidence::is_hash(&current, held) {
            Ok(claim)
        } else {
            Err(
                private_native_proof_rejection(
                    "private native typed CHC/PDR proof authority no longer matches the verification response",
                ),
            )
        }
    }
}

/// Whether two cache keys are the same.
pub open spec fn same_key(left: FullVerificationCacheKey, right: FullVerificationCacheKey) -> bool {
    &&& left.key@ == right.key@
    &&& left.normalized_input_hash@ == right.normalized_input_hash@
    &&& left.obligation_set_hash@ == right.obligation_set_hash@
    &&& json::json_encoding(json::json_content(left.serialized)) == json::json_encoding(
        json::json_content(right.serialized),
    )
}

fn is_same_key(left: &FullVerificationCacheKey, right: &FullVerificationCacheKey) -> (yes: bool)
    ensures
        yes == same_key(*left, *right),
{
    left.key.same(&right.key) && left.normalized_input_hash.same(&right.normalized_input_hash)
        && left.obligation_set_hash.same(&right.obligation_set_hash) && same_bytes(
        &json_bytes(&left.serialized),
        &json_bytes(&right.serialized),
    )
}

fn same_bytes(left: &Vec<u8>, right: &Vec<u8>) -> (yes: bool)
    ensures
        yes == (left@ == right@),
{
    if left.len() != right.len() {
        return false;
    }
    for i in 0..left.len()
        invariant
            left@.len() == right@.len(),
            forall|j: int| 0 <= j < i ==> #[trigger] left@[j] == right@[j],
    {
        if left[i] != right[i] {
            return false;
        }
    }
    assert(left@ =~= right@);
    true
}

/// Whether two optional records of metadata serialize to the same.
pub open spec fn same_metadata(
    left: Option<NativeTypedChcObligationMetadata>,
    right: Option<NativeTypedChcObligationMetadata>,
) -> bool {
    json::json_encoding(identity::metadata_document(left)) == json::json_encoding(
        identity::metadata_document(right),
    )
}

/// What an obligation was prepared to afresh, after its verification.
pub struct FreshInput {
    pub prepared: PreparedTypedChcPdrInput,
    /// The cache key for it.
    pub cache_key: FullVerificationCacheKey,
}

/// Whether a verification is about an obligation as it was prepared afresh,
/// leaving its typed problem aside.
pub open spec fn about(
    verification: TypedChcPdrFullVerification,
    evidence: ChcPdrProofEvidence,
    obligation: MirChcPdrObligation,
    fresh: FreshInput,
) -> bool {
    let normalized = fresh.prepared.normalized;
    &&& normalized.route == verification.route
    &&& normalized.normalized_input@ == evidence.normalized_input@
    &&& normalized.normalized_input_hash@ == evidence.normalized_input_hash@
    &&& normalized.obligation_set_hash@ == verification.cache_key.obligation_set_hash@
    &&& same_key(fresh.cache_key, verification.cache_key)
    &&& verification.cache_key.valid
    &&& verification.artifact_directory@ == identity::artifact_directory_of(fresh.cache_key.key@)
    &&& evidence::optional_hash(evidence.cache_key) == Some(fresh.cache_key.key@)
    &&& same_metadata(obligation.native_metadata, evidence.native_metadata)
    &&& obligation.obligation_id@ == evidence.obligation_id@
    &&& obligation.size() == evidence.stats
    &&& verification.outcome.obligation_id@ == obligation.obligation_id@
    &&& verification.outcome.stats == obligation.size()
}

fn is_about(
    verification: &TypedChcPdrFullVerification,
    evidence: &ChcPdrProofEvidence,
    obligation: &MirChcPdrObligation,
    fresh: &FreshInput,
) -> (yes: bool)
    ensures
        yes == about(*verification, *evidence, *obligation, *fresh),
{
    let normalized = &fresh.prepared.normalized;
    let directory = typed_artifact_directory(&fresh.cache_key);
    let own_metadata = json_bytes(&metadata_value(&obligation.native_metadata));
    let candidate_metadata = json_bytes(&metadata_value(&evidence.native_metadata));
    normalized.route == verification.route && same_text(
        normalized.normalized_input.as_str(),
        evidence.normalized_input.as_str(),
    ) && normalized.normalized_input_hash.same(&evidence.normalized_input_hash)
        && normalized.obligation_set_hash.same(&verification.cache_key.obligation_set_hash)
        && is_same_key(&fresh.cache_key, &verification.cache_key) && verification.cache_key.valid
        && same_text(verification.artifact_directory.as_str(), directory.as_str())
        && evidence::is_hash(&evidence.cache_key, &fresh.cache_key.key) && same_bytes(
        &own_metadata,
        &candidate_metadata,
    ) && same_text(obligation.obligation_id.as_str(), evidence.obligation_id.as_str())
        && obligation.stats() == evidence.stats && same_text(
        verification.outcome.obligation_id.as_str(),
        obligation.obligation_id.as_str(),
    ) && verification.outcome.stats == obligation.stats()
}

/// Whether a verification is about an obligation as it was prepared afresh, its
/// only typed problem being the one of the obligation.
pub open spec fn exactly_about<H: Fn(&[u8]) -> EvidenceHash>(
    sha256: H,
    verification: TypedChcPdrFullVerification,
    admission: Admission,
    obligation: MirChcPdrObligation,
    fresh: FreshInput,
    yes: bool,
) -> bool {
    match (admission, verification.verdict) {
        (Ok(_), FullVerificationVerdict::Proved { evidence }) => {
            let artifacts = evidence.artifacts@;
            if forall|at: int|
                !#[trigger] only(artifacts, FullVerificationArtifactKind::TypedChcProblem, at) {
                !yes
            } else {
                exists|at: int, intact: bool, expected: Seq<u8>|
                    {
                        &&& #[trigger] only(
                            artifacts,
                            FullVerificationArtifactKind::TypedChcProblem,
                            at,
                        )
                        &&& #[trigger] retains(sha256, artifacts[at], intact)
                        &&& #[trigger] identity::encodes_typed_problem(
                            sha256,
                            obligation,
                            fresh.prepared.normalized.normalized_input@,
                            expected,
                        )
                        &&& yes == (intact && about(verification, evidence, obligation, fresh) && (
                        artifacts[at].materialization matches Some(retained) && retained.bytes@
                            == expected))
                    }
            }
        },
        _ => !yes,
    }
}

/// Whether a verification is about an obligation as it was prepared afresh.
fn private_exact_typed_prepared_input<H: Fn(&[u8]) -> EvidenceHash>(
    verification: &TypedChcPdrFullVerification,
    admission: &Admission,
    obligation: &MirChcPdrObligation,
    fresh: &FreshInput,
    sha256: &H,
) -> (yes: bool)
    requires
        evidence::total(*sha256),
    ensures
        exactly_about(*sha256, *verification, *admission, *obligation, *fresh, yes),
{
    if admission.is_err() {
        return false;
    }
    let evidence = match &verification.verdict {
        FullVerificationVerdict::Proved { evidence } => evidence,
        _ => {
            return false;
        },
    };
    let at: usize = match single_artifact(
        &evidence.artifacts,
        FullVerificationArtifactKind::TypedChcProblem,
    ) {
        Some(at) => at,
        None => {
            return false;
        },
    };
    let problem = &evidence.artifacts[at];
    let intact = is_retained(problem, sha256);
    assert(only(
        evidence.artifacts@,
        FullVerificationArtifactKind::TypedChcProblem,
        at as int,
    ));
    assert(retains(*sha256, evidence.artifacts@[at as int], intact));
    let expected = typed_chc_problem_artifact_bytes(
        obligation,
        fresh.prepared.normalized.normalized_input.as_str(),
        sha256,
    );
    assert(identity::encodes_typed_problem(
        *sha256,
        *obligation,
        fresh.prepared.normalized.normalized_input@,
        expected@,
    ));
    if !intact {
        return false;
    }
    let as_expected = match &problem.materialization {
        Some(retained) => same_bytes(&retained.bytes, &expected),
        None => false,
    };
    as_expected && is_about(verification, evidence, obligation, fresh)
}

/// How the validity of a translated bundle was derived, by its route.
pub open spec fn bundle_derivation(route: TypedChcPdrRoute) -> PrivateChcValidityDerivation {
    match route {
        TypedChcPdrRoute::TriviallySafe => PrivateChcValidityDerivation::NativeBundleStructural,
        TypedChcPdrRoute::PdrProof => PrivateChcValidityDerivation::NativeBundleAcyclicDirectSmt,
    }
}

/// How the validity of a translated bundle was derived, by its route.
fn private_native_bundle_derivation(verification: &TypedChcPdrFullVerification) -> (derivation:
    PrivateChcValidityDerivation)
    ensures
        derivation == bundle_derivation(verification.route),
{
    match verification.route {
        TypedChcPdrRoute::TriviallySafe => PrivateChcValidityDerivation::NativeBundleStructural,
        TypedChcPdrRoute::PdrProof => PrivateChcValidityDerivation::NativeBundleAcyclicDirectSmt,
    }
}

/// Whether a seal is one for validity with a binding that the response has.
pub open spec fn validity_seal<H: Fn(&[u8]) -> EvidenceHash>(
    sha256: H,
    verification: TypedChcPdrFullVerification,
    derivation: PrivateChcValidityDerivation,
    wording: ReplayWording,
    verdict_form: JsonModel,
    seal: Option<SealModel>,
) -> bool {
    exists|binding: Option<HashModel>| #[trigger]
        validity_binding(
            sha256,
            verification,
            derivation,
            ChcPdrProofKind::ChcValidity,
            wording,
            verdict_form,
            binding,
        ) && seal == (match binding {
            Some(binding) => Some(SealModel::ChcValidity { derivation, binding }),
            None => None,
        })
}

fn seal_validity<H: Fn(&[u8]) -> EvidenceHash>(
    verification: &TypedChcPdrFullVerification,
    derivation: PrivateChcValidityDerivation,
    wording: &ReplayWording,
    verdict_form: &Value,
    sha256: &H,
) -> (place: NativeProofSeal)
    requires
        evidence::total(*sha256),
    ensures
        validity_seal(
            *sha256,
            *verification,
            derivation,
            *wording,
            json::json_content(*verdict_form),
            place.model(),
        ),
{
    let binding = private_chc_validity_binding(
        verification,
        derivation,
        ChcPdrProofKind::ChcValidity,
        wording,
        verdict_form,
        sha256,
    );
    let ghost model = evidence::optional_hash(binding);
    assert(validity_binding(
        *sha256,
        *verification,
        derivation,
        ChcPdrProofKind::ChcValidity,
        *wording,
        json::json_content(*verdict_form),
        model,
    ));
    match binding {
        Some(binding) => NativeProofSeal {
            seal: Some(PrivateNativeProofSeal::ChcValidity { derivation, binding }),
        },
        None => NativeProofSeal { seal: None },
    }
}

/// The derivation that a fresh replay of a validity claim establishes: that no
/// rule derives the query target, or that a second exhaustive search of the fresh
/// problem found no error derivation. A problem with a single predicate may be
/// only part of its obligation and establishes nothing.
pub open spec fn replayed_derivation(
    prepared: PreparedTypedChcPdrInput,
    searched_safe: bool,
) -> Option<PrivateChcValidityDerivation> {
    match prepared.normalized.route {
        TypedChcPdrRoute::TriviallySafe => if prepared.problem is None {
            Some(PrivateChcValidityDerivation::ExactDirectStructuralReplay)
        } else {
            None
        },
        TypedChcPdrRoute::PdrProof => match prepared.problem {
            Some(problem) => if problem@.predicates.len() >= 2 && searched_safe {
                Some(PrivateChcValidityDerivation::ExactDirectAcyclicDirectSmtReplay)
            } else {
                None
            },
            None => None,
        },
    }
}

fn replay_derivation(prepared: &PreparedTypedChcPdrInput, searched_safe: bool) -> (derivation:
    Option<PrivateChcValidityDerivation>)
    ensures
        derivation == replayed_derivation(*prepared, searched_safe),
{
    match prepared.normalized.route {
        TypedChcPdrRoute::TriviallySafe => match &prepared.problem {
            None => Some(PrivateChcValidityDerivation::ExactDirectStructuralReplay),
            Some(_) => None,
        },
        TypedChcPdrRoute::PdrProof => match &prepared.problem {
            Some(problem) => if problem.predicates.len() >= 2 && searched_safe {
                Some(PrivateChcValidityDerivation::ExactDirectAcyclicDirectSmtReplay)
            } else {
                None
            },
            None => None,
        },
    }
}

/// Whether a seal is the right one for a fresh replay of a validity claim.
pub open spec fn validity_replay_seal<H: Fn(&[u8]) -> EvidenceHash>(
    sha256: H,
    verification: TypedChcPdrFullVerification,
    prepared: PreparedTypedChcPdrInput,
    searched_safe: bool,
    wording: ReplayWording,
    verdict_form: JsonModel,
    seal: Option<SealModel>,
) -> bool {
    match replayed_derivation(prepared, searched_safe) {
        Some(derivation) => validity_seal(
            sha256,
            verification,
            derivation,
            wording,
            verdict_form,
            seal,
        ),
        None => seal is None,
    }
}

fn private_exact_chc_validity_replay_seal<H: Fn(&[u8]) -> EvidenceHash>(
    verification: &TypedChcPdrFullVerification,
    prepared: &PreparedTypedChcPdrInput,
    searched_safe: bool,
    wording: &ReplayWording,
    verdict_form: &Value,
    sha256: &H,
) -> (place: NativeProofSeal)
    requires
        evidence::total(*sha256),
    ensures
        validity_replay_seal(
            *sha256,
            *verification,
            *prepared,
            searched_safe,
            *wording,
            json::json_content(*verdict_form),
            place.model(),
        ),
{
    match replay_derivation(prepared, searched_safe) {
        Some(derivation) => seal_validity(
            verification,
            derivation,
            wording,
            verdict_form,
            sha256,
        ),
        None => NativeProofSeal { seal: None },
    }
}

/// The replay of an invariant that a verification carries, against the input that
/// was prepared afresh.
pub open spec fn replay_of(
    evidence: ChcPdrProofEvidence,
    prepared: PreparedTypedChcPdrInput,
    problem: int,
    model: int,
) -> ReplayModel {
    ReplayModel {
        exact_obligation_set_hash: prepared.normalized.obligation_set_hash@,
        fresh_problem_hash: prepared.normalized.normalized_input_hash@,
        typed_problem_digest: evidence.artifacts@[problem].digest->0@,
        invariant_model_digest: evidence.artifacts@[model].digest->0@,
        invariant_model_byte_len: evidence.artifacts@[model].byte_len->0,
    }
}

/// Whether a seal is the right one for a fresh replay of an invariant: there is
/// one only where the invariant was validated against the fresh problem, is the
/// only one and its bytes are intact.
pub open spec fn invariant_replay_seal<H: Fn(&[u8]) -> EvidenceHash>(
    sha256: H,
    verification: TypedChcPdrFullVerification,
    prepared: PreparedTypedChcPdrInput,
    validated: bool,
    wording: ReplayWording,
    verdict_form: JsonModel,
    seal: Option<SealModel>,
) -> bool {
    match verification.verdict {
        FullVerificationVerdict::Proved { evidence } => {
            let artifacts = evidence.artifacts@;
            if !validated || prepared.problem is None || (forall|at: int|
                !#[trigger] only(artifacts, FullVerificationArtifactKind::TypedChcProblem, at)) || (
            forall|at: int|
                !#[trigger] only(artifacts, FullVerificationArtifactKind::PdrInvariantModel, at)) {
                seal is None
            } else {
                exists|problem: int, model: int, intact: bool|
                    {
                        &&& #[trigger] only(
                            artifacts,
                            FullVerificationArtifactKind::TypedChcProblem,
                            problem,
                        )
                        &&& #[trigger] only(
                            artifacts,
                            FullVerificationArtifactKind::PdrInvariantModel,
                            model,
                        )
                        &&& #[trigger] retains(sha256, artifacts[model], intact)
                        &&& if intact && artifacts[problem].digest is Some {
                            bound_replay(
                                sha256,
                                verification,
                                replay_of(evidence, prepared, problem, model),
                                wording,
                                verdict_form,
                                seal,
                            )
                        } else {
                            seal is None
                        }
                    }
            }
        },
        _ => seal is None,
    }
}

/// Whether a seal is one for a replay with a binding that the response has.
pub open spec fn bound_replay<H: Fn(&[u8]) -> EvidenceHash>(
    sha256: H,
    verification: TypedChcPdrFullVerification,
    replay: ReplayModel,
    wording: ReplayWording,
    verdict_form: JsonModel,
    seal: Option<SealModel>,
) -> bool {
    exists|binding: Option<HashModel>| #[trigger]
        invariant_binding(
            sha256,
            verification,
            replay,
            ChcPdrProofKind::PdrInvariant,
            wording,
            verdict_form,
            binding,
        ) && seal == (match binding {
            Some(binding) => Some(SealModel::PdrInvariant { replay, binding }),
            None => None,
        })
}

fn private_pdr_invariant_replay_seal<H: Fn(&[u8]) -> EvidenceHash>(
    verification: &TypedChcPdrFullVerification,
    prepared: &PreparedTypedChcPdrInput,
    validated: bool,
    wording: &ReplayWording,
    verdict_form: &Value,
    sha256: &H,
) -> (place: NativeProofSeal)
    requires
        evidence::total(*sha256),
    ensures
        invariant_replay_seal(
            *sha256,
            *verification,
            *prepared,
            validated,
            *wording,
            json::json_content(*verdict_form),
            place.model(),
        ),
{
    let none = NativeProofSeal { seal: None };
    if !validated || prepared.problem.is_none() {
        return none;
    }
    let evidence = match &verification.verdict {
        FullVerificationVerdict::Proved { evidence } => evidence,
        _ => {
            return none;
        },
    };
    let problem: usize = match single_artifact(
        &evidence.artifacts,
        FullVerificationArtifactKind::TypedChcProblem,
    ) {
        Some(at) => at,
        None => {
            return none;
        },
    };
    let model: usize = match single_artifact(
        &evidence.artifacts,
        FullVerificationArtifactKind::PdrInvariantModel,
    ) {
        Some(at) => at,
        None => {
            return none;
        },
    };
    let intact = is_retained(&evidence.artifacts[model], sha256);
    assert(only(
        evidence.artifacts@,
        FullVerificationArtifactKind::TypedChcProblem,
        problem as int,
    ));
    assert(only(
        evidence.artifacts@,
        FullVerificationArtifactKind::PdrInvariantModel,
        model as int,
    ));
    assert(retains(*sha256, evidence.artifacts@[model as int], intact));
    if !intact {
        return none;
    }
    let (typed_problem_digest, invariant_model_digest, invariant_model_byte_len) = match (
        &evidence.artifacts[problem].digest,
        &evidence.artifacts[model].digest,
        evidence.artifacts[model].byte_len,
    ) {
        (Some(problem_digest), Some(model_digest), Some(byte_len)) => (
            problem_digest.duplicate(),
            model_digest.duplicate(),
            byte_len,
        ),
        _ => {
            return none;
        },
    };
    let replay = PrivatePdrInvariantReplayBinding {
        exact_obligation_set_hash: prepared.normalized.obligation_set_hash.duplicate(),
        fresh_problem_hash: prepared.normalized.normalized_input_hash.duplicate(),
        typed_problem_digest,
        invariant_model_digest,
        invariant_model_byte_len,
    };
    let ghost model_of_replay = replay_of(*evidence, *prepared, problem as int, model as int);
    assert(replay@ == model_of_replay);
    let binding = private_pdr_invariant_binding(
        verification,
        &replay,
        ChcPdrProofKind::PdrInvariant,
        wording,
        verdict_form,
        sha256,
    );
    let ghost model_of_binding = evidence::optional_hash(binding);
    assert(invariant_binding(
        *sha256,
        *verification,
        model_of_replay,
        ChcPdrProofKind::PdrInvariant,
        *wording,
        json::json_content(*verdict_form),
        model_of_binding,
    ));
    match binding {
        Some(binding) => NativeProofSeal {
            seal: Some(PrivateNativeProofSeal::PdrInvariant { replay: Box::new(replay), binding }),
        },
        None => none,
    }
}

/// Whether a response is another one, sealed as a request of an admitted
/// bundle.
pub open spec fn bundle_sealed<H: Fn(&[u8]) -> EvidenceHash>(
    sha256: H,
    verification: TypedChcPdrFullVerification,
    obligation: MirChcPdrObligation,
    fresh: FreshInput,
    admission: Admission,
    wording: ReplayWording,
    verdict_form: JsonModel,
    sealed: TypedChcPdrFullVerification,
) -> bool {
    &&& sealed.same_response(verification)
    &&& exists|yes: bool| #[trigger]
        exactly_about(sha256, verification, admission, obligation, fresh, yes) && if yes {
            match admission->Ok_0 {
                ChcPdrProofKind::ChcValidity => validity_seal(
                    sha256,
                    verification,
                    bundle_derivation(verification.route),
                    wording,
                    verdict_form,
                    sealed.seal(),
                ),
                ChcPdrProofKind::PdrInvariant => sealed.seal() is None,
            }
        } else {
            sealed.seal() == verification.seal()
        }
}

/// Whether a response is another one, sealed as a fresh replay.
pub open spec fn replay_sealed<H: Fn(&[u8]) -> EvidenceHash>(
    sha256: H,
    verification: TypedChcPdrFullVerification,
    obligation: MirChcPdrObligation,
    fresh: FreshInput,
    searched_safe: bool,
    validated: bool,
    admission: Admission,
    wording: ReplayWording,
    verdict_form: JsonModel,
    sealed: TypedChcPdrFullVerification,
) -> bool {
    &&& sealed.same_response(verification)
    &&& exists|yes: bool| #[trigger]
        exactly_about(sha256, verification, admission, obligation, fresh, yes) && if yes {
            match admission->Ok_0 {
                ChcPdrProofKind::ChcValidity => validity_replay_seal(
                    sha256,
                    verification,
                    fresh.prepared,
                    searched_safe,
                    wording,
                    verdict_form,
                    sealed.seal(),
                ),
                ChcPdrProofKind::PdrInvariant => invariant_replay_seal(
                    sha256,
                    verification,
                    fresh.prepared,
                    validated,
                    wording,
                    verdict_form,
                    sealed.seal(),
                ),
            }
        } else {
            sealed.seal() == verification.seal()
        }
}

impl TypedChcPdrFullVerification {
    /// Seals the verification of an obligation that belongs to a request of an
    /// admitted bundle. A claim of validity is sealed by how it was derived; an
    /// invariant is not, since a whole function's invariant does not tell which of
    /// the function's obligations it is about.
    pub fn with_private_native_bundle_authority<H: Fn(&[u8]) -> EvidenceHash>(
        self,
        obligation: &MirChcPdrObligation,
        fresh: &FreshInput,
        admission: &Admission,
        wording: &ReplayWording,
        verdict_form: &Value,
        sha256: &H,
    ) -> (sealed: TypedChcPdrFullVerification)
        requires
            evidence::total(*sha256),
        ensures
            bundle_sealed(
                *sha256,
                self,
                *obligation,
                *fresh,
                *admission,
                *wording,
                json::json_content(*verdict_form),
                sealed,
            ),
    {
        let yes = private_exact_typed_prepared_input(&self, admission, obligation, fresh, sha256);
        assert(exactly_about(*sha256, self, *admission, *obligation, *fresh, yes));
        let claim = match admission {
            Ok(claim) => *claim,
            Err(_) => {
                return self;
            },
        };
        if !yes {
            return self;
        }
        let place = match claim {
            ChcPdrProofKind::ChcValidity => seal_validity(
                &self,
                private_native_bundle_derivation(&self),
                wording,
                verdict_form,
                sha256,
            ),
            ChcPdrProofKind::PdrInvariant => NativeProofSeal::none(),
        };
        TypedChcPdrFullVerification {
            route: self.route,
            cache_key: self.cache_key,
            artifact_directory: self.artifact_directory,
            outcome: self.outcome,
            verdict: self.verdict,
            private_native_proof_seal: place,
        }
    }

    /// Seals the verification of an obligation whose candidate was replayed afresh.
    /// `searched_safe` tells that a second exhaustive search of the fresh problem
    /// found no error derivation, `validated` that the invariant passed every
    /// clause of it.
    pub fn with_private_exact_typed_replay_authority<H: Fn(&[u8]) -> EvidenceHash>(
        self,
        obligation: &MirChcPdrObligation,
        fresh: &FreshInput,
        searched_safe: bool,
        validated: bool,
        admission: &Admission,
        wording: &ReplayWording,
        verdict_form: &Value,
        sha256: &H,
    ) -> (sealed: TypedChcPdrFullVerification)
        requires
            evidence::total(*sha256),
        ensures
            replay_sealed(
                *sha256,
                self,
                *obligation,
                *fresh,
                searched_safe,
                validated,
                *admission,
                *wording,
                json::json_content(*verdict_form),
                sealed,
            ),
    {
        let yes = private_exact_typed_prepared_input(&self, admission, obligation, fresh, sha256);
        assert(exactly_about(*sha256, self, *admission, *obligation, *fresh, yes));
        let claim = match admission {
            Ok(claim) => *claim,
            Err(_) => {
                return self;
            },
        };
        if !yes {
            return self;
        }
        let place = match claim {
            ChcPdrProofKind::ChcValidity => private_exact_chc_validity_replay_seal(
                &self,
                &fresh.prepared,
                searched_safe,
                wording,
                verdict_form,
                sha256,
            ),
            ChcPdrProofKind::PdrInvariant => private_pdr_invariant_replay_seal(
                &self,
                &fresh.prepared,
                validated,
                wording,
                verdict_form,
                sha256,
            ),
        };
        TypedChcPdrFullVerification {
            route: self.route,
            cache_key: self.cache_key,
            artifact_directory: self.artifact_directory,
            outcome: self.outcome,
            verdict: self.verdict,
            private_native_proof_seal: place,
        }
    }
}

/// The candidate that an authority is about.
pub struct ValidatedChcPdrCandidateEvidence<'a> {
    pub proof_kind: ChcPdrProofKind,
    pub proof: &'a ChcPdrProofEvidence,
    pub native_metadata: Option<&'a NativeTypedChcObligationMetadata>,
}

/// Authority for the proof of a live verification. It cannot be kept beyond the
/// verification, nor built from a snapshot.
pub struct AuthorizedNativeTypedChcPdrProof<'a> {
    verification: &'a TypedChcPdrFullVerification,
    proof: &'a ChcPdrProofEvidence,
    claim: ChcPdrProofKind,
}

/// Whether a snapshot tells of a proof.
pub open spec fn snapshot_of(
    route: TypedChcPdrRoute,
    diagnostics: Seq<Seq<char>>,
    claim: ChcPdrProofKind,
    proof: ChcPdrProofEvidence,
    metadata: NativeTypedChcObligationMetadata,
    snapshot: NativeTypedChcPdrProofTransport,
) -> bool {
    &&& snapshot.schema_version == transport::TRANSPORT_SCHEMA_VERSION
    &&& snapshot.suite@ == metadata.producer@
    &&& snapshot.backend@ == transport::backend_label(route, metadata.verification_mode@)
    &&& snapshot.request_id == metadata.native_request_id
    &&& snapshot.proof_id == transport::single_id(metadata.proof_obligation_ids@)
    &&& snapshot.native_id@ == proof.obligation_id@
    &&& snapshot.proof_status == NativeTypedProofStatus::Proved
    &&& snapshot.proof_strength == transport::strength_of(claim)
    &&& transport::refer_to(
        snapshot.solver_artifacts@,
        transport::of_kind(proof.artifacts@, FullVerificationArtifactKind::SolverTranscript),
    )
    &&& transport::refer_to(
        snapshot.replay_artifacts@,
        transport::of_kind(proof.artifacts@, FullVerificationArtifactKind::ReplayLog),
    )
    &&& transport::refer_to(
        snapshot.check_artifacts@,
        transport::of_kind(proof.artifacts@, FullVerificationArtifactKind::CheckedProofReport),
    )
    &&& transport::refer_to(snapshot.response_artifacts@, proof.artifacts@)
    &&& match (snapshot.replay_check_status, proof.replay_check_status) {
        (Some(left), Some(right)) => json::json_content(left) == json::json_content(right),
        (None, None) => true,
        _ => false,
    }
    &&& text::owned_texts(snapshot.diagnostics@) == diagnostics
}

impl<'a> AuthorizedNativeTypedChcPdrProof<'a> {
    /// The proof that is authorized.
    pub closed spec fn authorized(self) -> ChcPdrProofEvidence {
        *self.proof
    }

    /// What it claims.
    pub closed spec fn authorized_claim(self) -> ChcPdrProofKind {
        self.claim
    }

    /// The verification that the authority is borrowed from.
    pub closed spec fn source(self) -> TypedChcPdrFullVerification {
        *self.verification
    }

    /// The candidate that this authority is about. The candidate alone grants
    /// nothing.
    pub fn candidate(&self) -> (candidate: ValidatedChcPdrCandidateEvidence<'_>)
        ensures
            candidate.proof_kind == self.authorized_claim(),
            *candidate.proof == self.authorized(),
            match (candidate.native_metadata, self.authorized().native_metadata) {
                (Some(left), Some(right)) => *left == right,
                (None, None) => true,
                _ => false,
            },
    {
        let native_metadata = match &self.proof.native_metadata {
            Some(metadata) => Some(metadata),
            None => None,
        };
        ValidatedChcPdrCandidateEvidence {
            proof_kind: self.claim,
            proof: self.proof,
            native_metadata,
        }
    }

    /// A snapshot of the authorized proof. The snapshot grants nothing.
    pub fn transport_record(&self) -> (snapshot: NativeTypedChcPdrProofTransport)
        requires
            self.authorized().native_metadata is Some,
        ensures
            snapshot_of(
                self.source().route,
                text::owned_texts(self.source().outcome.diagnostics@),
                self.authorized_claim(),
                self.authorized(),
                self.authorized().native_metadata->0,
                snapshot,
            ),
    {
        match &self.proof.native_metadata {
            Some(metadata) => snapshot_proof(
                self.verification,
                self.claim,
                self.proof,
                metadata,
            ),
            None => vstd::pervasive::unreached(),
        }
    }
}

fn snapshot_proof(
    verification: &TypedChcPdrFullVerification,
    claim: ChcPdrProofKind,
    proof: &ChcPdrProofEvidence,
    metadata: &NativeTypedChcObligationMetadata,
) -> (snapshot: NativeTypedChcPdrProofTransport)
    ensures
        snapshot_of(
            verification.route,
            text::owned_texts(verification.outcome.diagnostics@),
            claim,
            *proof,
            *metadata,
            snapshot,
        ),
{
    let replay_check_status = match &proof.replay_check_status {
        Some(status) => Some(json_copy(status)),
        None => None,
    };
    NativeTypedChcPdrProofTransport {
        schema_version: transport::TRANSPORT_SCHEMA_VERSION,
        suite: metadata.producer.clone(),
        backend: native_typed_backend_label(
            verification.route,
            metadata.verification_mode.as_str(),
        ),
        request_id: metadata.native_request_id,
        proof_id: single_native_proof_id(metadata.proof_obligation_ids.as_slice()),
        native_id: proof.obligation_id.clone(),
        proof_status: NativeTypedProofStatus::Proved,
        proof_strength: native_typed_proof_strength(claim),
        solver_artifacts: native_typed_artifact_refs(
            &proof.artifacts,
            FullVerificationArtifactKind::SolverTranscript,
        ),
        replay_artifacts: native_typed_artifact_refs(
            &proof.artifacts,
            FullVerificationArtifactKind::ReplayLog,
        ),
        check_artifacts: native_typed_artifact_refs(
            &proof.artifacts,
            FullVerificationArtifactKind::CheckedProofReport,
        ),
        response_artifacts: native_typed_all_artifact_refs(&proof.artifacts),
        replay_check_status,
        diagnostics: copy_texts(&verification.outcome.diagnostics),
    }
}

/// A claim is granted only to a verdict with a proof candidate.
proof fn lemma_granted_is_proved<H: Fn(&[u8]) -> EvidenceHash>(
    sha256: H,
    verification: TypedChcPdrFullVerification,
    admission: Admission,
    wording: ReplayWording,
    verdict_form: JsonModel,
    granted: NativeSolveResult<ChcPdrProofKind>,
)
    requires
        authorizes(sha256, verification, admission, wording, verdict_form, granted),
        granted is Ok,
    ensures
        verification.verdict is Proved,
{
    let claim = admission->Ok_0;
    let seal = verification.seal()->0;
    let binding = choose|binding: Option<HashModel>| #[trigger]
        rebinds(
            sha256,
            verification,
            seal,
            claim,
            wording,
            verdict_form,
            binding,
        ) && if binding == Some(held_binding(seal)) {
            granted == Ok::<ChcPdrProofKind, NativeSolveError>(claim)
        } else {
            error::failure(granted) == Some(
                authority_refusal(
                    "private native typed CHC/PDR proof authority no longer matches the verification response"@,
                ),
            )
        };
    assert(binding is Some);
}

/// Whether an answer to a request for a snapshot is right.
pub open spec fn records<H: Fn(&[u8]) -> EvidenceHash>(
    sha256: H,
    verification: TypedChcPdrFullVerification,
    admission: Admission,
    wording: ReplayWording,
    verdict_form: JsonModel,
    recorded: NativeSolveResult<NativeTypedChcPdrProofTransport>,
) -> bool {
    exists|granted: NativeSolveResult<ChcPdrProofKind>| #[trigger]
        authorizes(sha256, verification, admission, wording, verdict_form, granted) && match (
            recorded,
            granted,
        ) {
            (Ok(snapshot), Ok(claim)) => snapshot_of(
                verification.route,
                text::owned_texts(verification.outcome.diagnostics@),
                claim,
                verification.verdict->evidence,
                verification.verdict->evidence.native_metadata->0,
                snapshot,
            ),
            (Err(refused), Err(own)) => refused@ == own@,
            _ => false,
        }
}

impl TypedChcPdrFullVerification {
    /// Borrows the authority of this verification.
    pub fn authorized_native_proof<H: Fn(&[u8]) -> EvidenceHash>(
        &self,
        admission: &Admission,
        wording: &ReplayWording,
        verdict_form: &Value,
        sha256: &H,
    ) -> (authority: NativeSolveResult<AuthorizedNativeTypedChcPdrProof<'_>>)
        requires
            evidence::total(*sha256),
        ensures
            exists|granted: NativeSolveResult<ChcPdrProofKind>| #[trigger]
                authorizes(
                    *sha256,
                    *self,
                    *admission,
                    *wording,
                    json::json_content(*verdict_form),
                    granted,
                ) && match (authority, granted) {
                    (Ok(authority), Ok(claim)) => {
                        &&& authority.source() == *self
                        &&& authority.authorized_claim() == claim
                        &&& self.verdict == (FullVerificationVerdict::Proved {
                            evidence: authority.authorized(),
                        })
                    },
                    (Err(refused), Err(own)) => refused@ == own@,
                    _ => false,
                },
    {
        let granted = self.privately_authorized_native_candidate(
            admission,
            wording,
            verdict_form,
            sha256,
        );
        let ghost kept = granted;
        assert(authorizes(
            *sha256,
            *self,
            *admission,
            *wording,
            json::json_content(*verdict_form),
            kept,
        ));
        let claim = match granted {
            Ok(claim) => claim,
            Err(refused) => {
                return Err(refused);
            },
        };
        proof {
            lemma_granted_is_proved(
                *sha256,
                *self,
                *admission,
                *wording,
                json::json_content(*verdict_form),
                kept,
            );
        }
        match &self.verdict {
            FullVerificationVerdict::Proved { evidence } => Ok(
                AuthorizedNativeTypedChcPdrProof { verification: self, proof: evidence, claim },
            ),
            _ => Err(
                private_native_proof_rejection(
                    "private native typed CHC/PDR proof authority no longer matches the verification response",
                ),
            ),
        }
    }

    /// A snapshot of the authorized proof, where there is authority.
    pub fn native_proof_transport_record<H: Fn(&[u8]) -> EvidenceHash>(
        &self,
        admission: &Admission,
        wording: &ReplayWording,
        verdict_form: &Value,
        sha256: &H,
    ) -> (recorded: NativeSolveResult<NativeTypedChcPdrProofTransport>)
        requires
            evidence::total(*sha256),
            admission is Ok ==> (self.verdict matches FullVerificationVerdict::Proved { evidence }
                && evidence.native_metadata is Some),
        ensures
            records(
                *sha256,
                *self,
                *admission,
                *wording,
                json::json_content(*verdict_form),
                recorded,
            ),
    {
        match self.authorized_native_proof(admission, wording, verdict_form, sha256) {
            Ok(authority) => Ok(authority.transport_record()),
            Err(refused) => Err(refused),
        }
    }
}

/// Without a seal no authority is granted.
pub proof fn law_no_authority_without_a_seal<H: Fn(&[u8]) -> EvidenceHash>(
    sha256: H,
    verification: TypedChcPdrFullVerification,
    admission: Admission,
    wording: ReplayWording,
    verdict_form: JsonModel,
    granted: NativeSolveResult<ChcPdrProofKind>,
)
    requires
        authorizes(sha256, verification, admission, wording, verdict_form, granted),
        granted is Ok,
    ensures
        verification.seal() is Some,
        admission == Ok::<ChcPdrProofKind, ProofEvidenceRejection>(granted->Ok_0),
        verification.verdict is Proved,
{
    lemma_granted_is_proved(sha256, verification, admission, wording, verdict_form, granted);
}

/// A seal for validity that grants authority to another response, too, needs two
/// envelopes with the same digest.
pub proof fn law_validity_seal_is_bound_to_its_response<H: Fn(&[u8]) -> EvidenceHash>(
    sha256: H,
    sealed: TypedChcPdrFullVerification,
    derivation: PrivateChcValidityDerivation,
    sealed_form: JsonModel,
    other: TypedChcPdrFullVerification,
    other_form: JsonModel,
    wording: ReplayWording,
    granted: NativeSolveResult<ChcPdrProofKind>,
)
    requires
        validity_seal(sha256, sealed, derivation, wording, sealed_form, other.seal()),
        authorizes(
            sha256,
            other,
            Ok(ChcPdrProofKind::ChcValidity),
            wording,
            other_form,
            granted,
        ),
        granted is Ok,
    ensures
        exists|binding: HashModel, left: HashModel, right: HashModel|
            #![trigger envelope_digest(sha256, sealed, derivation, left, wording, sealed_form, binding), envelope_digest(sha256, other, derivation, right, wording, other_form, binding)]
            envelope_digest(sha256, sealed, derivation, left, wording, sealed_form, binding)
                && envelope_digest(
                sha256,
                other,
                derivation,
                right,
                wording,
                other_form,
                binding,
            ),
{
    let binding = choose|binding: Option<HashModel>| #[trigger]
        validity_binding(
            sha256,
            sealed,
            derivation,
            ChcPdrProofKind::ChcValidity,
            wording,
            sealed_form,
            binding,
        ) && other.seal() == (match binding {
            Some(binding) => Some(SealModel::ChcValidity { derivation, binding }),
            None => None,
        });
    let held = binding->0;
    let left = lemma_bound_envelope(sha256, sealed, derivation, wording, sealed_form, held);
    let current = choose|current: Option<HashModel>| #[trigger]
        rebinds(
            sha256,
            other,
            other.seal()->0,
            ChcPdrProofKind::ChcValidity,
            wording,
            other_form,
            current,
        ) && if current == Some(held_binding(other.seal()->0)) {
            granted == Ok::<ChcPdrProofKind, NativeSolveError>(ChcPdrProofKind::ChcValidity)
        } else {
            error::failure(granted) == Some(
                authority_refusal(
                    "private native typed CHC/PDR proof authority no longer matches the verification response"@,
                ),
            )
        };
    assert(current == Some(held));
    let right = lemma_bound_envelope(sha256, other, derivation, wording, other_form, held);
    assert(envelope_digest(sha256, sealed, derivation, left, wording, sealed_form, held));
    assert(envelope_digest(sha256, other, derivation, right, wording, other_form, held));
}

/// Whether the envelope of a response with the given problem digest may have the
/// given digest.
pub open spec fn envelope_digest<H: Fn(&[u8]) -> EvidenceHash>(
    sha256: H,
    verification: TypedChcPdrFullVerification,
    derivation: PrivateChcValidityDerivation,
    problem_digest: HashModel,
    wording: ReplayWording,
    verdict_form: JsonModel,
    binding: HashModel,
) -> bool {
    evidence::digests(
        sha256,
        json::json_encoding(
            validity_envelope(
                verification,
                derivation,
                problem_digest,
                wording.chc_validity@,
                verdict_form,
            ),
        ),
        binding,
    )
}

/// A binding for validity is the digest of an envelope.
proof fn lemma_bound_envelope<H: Fn(&[u8]) -> EvidenceHash>(
    sha256: H,
    verification: TypedChcPdrFullVerification,
    derivation: PrivateChcValidityDerivation,
    wording: ReplayWording,
    verdict_form: JsonModel,
    binding: HashModel,
) -> (problem_digest: HashModel)
    requires
        validity_binding(
            sha256,
            verification,
            derivation,
            ChcPdrProofKind::ChcValidity,
            wording,
            verdict_form,
            Some(binding),
        ),
    ensures
        envelope_digest(
            sha256,
            verification,
            derivation,
            problem_digest,
            wording,
            verdict_form,
            binding,
        ),
{
    let artifacts = verification.verdict->evidence.artifacts@;
    let (at, intact) = choose|at: int, intact: bool|
        {
            &&& #[trigger] only(artifacts, FullVerificationArtifactKind::TypedChcProblem, at)
            &&& #[trigger] retains(sha256, artifacts[at], intact)
            &&& intact && evidence::digests(
                sha256,
                json::json_encoding(
                    validity_envelope(
                        verification,
                        derivation,
                        artifacts[at].digest->0@,
                        wording.chc_validity@,
                        verdict_form,
                    ),
                ),
                binding,
            )
        };
    artifacts[at].digest->0@
}

/// Whether the envelope of a response with a replayed invariant may have the given
/// digest.
pub open spec fn replay_envelope_digest<H: Fn(&[u8]) -> EvidenceHash>(
    sha256: H,
    verification: TypedChcPdrFullVerification,
    replay: ReplayModel,
    wording: ReplayWording,
    verdict_form: JsonModel,
    binding: HashModel,
) -> bool {
    evidence::digests(
        sha256,
        json::json_encoding(
            invariant_envelope(verification, replay, wording.pdr_invariant@, verdict_form),
        ),
        binding,
    )
}

/// A seal for an invariant that grants authority to another response, too, needs
/// two envelopes with the same digest.
pub proof fn law_invariant_seal_is_bound_to_its_response<H: Fn(&[u8]) -> EvidenceHash>(
    sha256: H,
    sealed: TypedChcPdrFullVerification,
    replay: ReplayModel,
    sealed_form: JsonModel,
    other: TypedChcPdrFullVerification,
    other_form: JsonModel,
    wording: ReplayWording,
    granted: NativeSolveResult<ChcPdrProofKind>,
)
    requires
        bound_replay(sha256, sealed, replay, wording, sealed_form, other.seal()),
        authorizes(
            sha256,
            other,
            Ok(ChcPdrProofKind::PdrInvariant),
            wording,
            other_form,
            granted,
        ),
        granted is Ok,
    ensures
        exists|binding: HashModel|
            #![trigger replay_envelope_digest(sha256, sealed, replay, wording, sealed_form, binding)]
            replay_envelope_digest(sha256, sealed, replay, wording, sealed_form, binding)
                && replay_envelope_digest(sha256, other, replay, wording, other_form, binding),
{
    let binding = choose|binding: Option<HashModel>| #[trigger]
        invariant_binding(
            sha256,
            sealed,
            replay,
            ChcPdrProofKind::PdrInvariant,
            wording,
            sealed_form,
            binding,
        ) && other.seal() == (match binding {
            Some(binding) => Some(SealModel::PdrInvariant { replay, binding }),
            None => None,
        });
    let held = binding->0;
    assert(replay_envelope_digest(sha256, sealed, replay, wording, sealed_form, held));
    assert(replay_envelope_digest(sha256, other, replay, wording, other_form, held));
}

} // verus!
