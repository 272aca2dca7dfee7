//! What a fresh replay seals.
use serde_json::Value;
use vstd::prelude::*;

use crate::chc::{ChcProblem, ProblemModel};
use crate::error::{ErrorModel, NativeSolveError};
use crate::evidence;
use crate::evidence::{
    ChcPdrSolveOptions, ChcPdrSolveStatus, EvidenceHash, FullVerificationArtifactKind, HashModel,
    MirChcPdrObligation, SolveTimeout,
};
use crate::identity;
use crate::identity::{
    BuildIdentity, FullVerificationCacheKey, FullVerificationCacheKeyParts, TypedChcPdrRoute,
};
use crate::json;
use crate::json::JsonModel;
use crate::lanes::AcyclicDecision;
use crate::lowering;
use crate::runner;
use crate::seal;
use crate::seal::{Admission, FreshInput, TypedChcPdrFullVerification};
use crate::solve::EvidenceLayer;
use crate::verdicts::{
    ChcPdrProofEvidence, ChcPdrProofKind, FullVerificationArtifact, FullVerificationVerdict,
    ReplayWording,
};

verus! {

/// Whether no rule of an obligation derives its query target.
pub open spec fn underivable(obligation: MirChcPdrObligation) -> bool {
    forall|i: int|
        0 <= i < obligation.vc.rules@.len() ==> (
        #[trigger] obligation.vc.rules@[i]).head.name@ != obligation.vc.query_target@
}

/// Whether an exhaustive search of the lowered obligation, which has more predicates than
/// the query's own, told that it is safe.
pub open spec fn searched_safe<D: Fn(&ChcProblem, SolveTimeout) -> Option<AcyclicDecision>>(
    obligation: MirChcPdrObligation,
    decide: D,
) -> bool {
    exists|problem: ChcProblem, limit: SolveTimeout|
        {
            &&& #[trigger] decide.ensures((&problem, limit), Some(AcyclicDecision::Safe))
            &&& lowering::lowered_vc(obligation.vc) == Ok::<ProblemModel, ErrorModel>(problem@)
            &&& problem@.predicates.len() >= 2
        }
}

/// Whether the only invariant among the artifacts of a verdict was validated against the
/// lowered obligation.
pub open spec fn validated<V: Fn(&ChcProblem, &Vec<u8>, SolveTimeout) -> bool>(
    obligation: MirChcPdrObligation,
    verdict: FullVerificationVerdict,
    validate: V,
) -> bool {
    verdict matches FullVerificationVerdict::Proved { evidence } && exists|
        problem: ChcProblem,
        model: Vec<u8>,
        limit: SolveTimeout,
        at: int,
    |
        {
            &&& #[trigger] validate.ensures((&problem, &model, limit), true)
            &&& lowering::lowered_vc(obligation.vc) == Ok::<ProblemModel, ErrorModel>(problem@)
            &&& 0 <= at < evidence.artifacts@.len()
            &&& (#[trigger] evidence.artifacts@[at]).kind
                == FullVerificationArtifactKind::PdrInvariantModel
            &&& evidence.artifacts@[at].materialization matches Some(retained) && retained.bytes
                == model
            &&& forall|other: int|
                0 <= other < evidence.artifacts@.len() && other != at ==> (
                #[trigger] evidence.artifacts@[other]).kind
                    != FullVerificationArtifactKind::PdrInvariantModel
        }
}

/// A fresh replay changes nothing of a response but its seal. It seals a response that
/// had no seal only where the evidence policy accepts the candidate, the candidate is
/// about this obligation, and its claim was established anew: the validity of the clauses
/// because no rule derives the query target or because an exhaustive search of the lowered
/// obligation told that it is safe; an invariant because it was validated against the
/// lowered obligation.
pub proof fn law_replays_seal_what_they_established<N, C, K, H, L, P, D, A, F, V>(
    obligation: MirChcPdrObligation,
    options: ChcPdrSolveOptions,
    build: BuildIdentity,
    wording: ReplayWording,
    layer: EvidenceLayer<N, C, K, H, L, P>,
    decide: D,
    policy: A,
    form: F,
    validate: V,
    verification: TypedChcPdrFullVerification,
    sealed: TypedChcPdrFullVerification,
) where
    N: Fn(&ChcProblem) -> String,
    C: Fn(&str) -> String,
    K: Fn(&FullVerificationCacheKeyParts) -> FullVerificationCacheKey,
    H: Fn(&[u8]) -> EvidenceHash,
    D: Fn(&ChcProblem, SolveTimeout) -> Option<AcyclicDecision>,
    A: Fn(&FullVerificationVerdict) -> Admission,
    F: Fn(&FullVerificationVerdict) -> Value,
    V: Fn(&ChcProblem, &Vec<u8>, SolveTimeout) -> bool,

    requires
        runner::replayed_afresh(
            obligation,
            options,
            build,
            wording,
            layer,
            decide,
            policy,
            form,
            validate,
            verification,
            sealed,
        ),
    ensures
        sealed.route == verification.route,
        sealed.outcome == verification.outcome,
        sealed.verdict == verification.verdict,
        sealed.artifact_directory@ == verification.artifact_directory@,
        verification.seal() is None && sealed.seal() is Some ==> {
            &&& verification.verdict matches FullVerificationVerdict::Proved { evidence }
                && evidence.obligation_id@ == obligation.obligation_id@
                && evidence.stats.relation_count == obligation.vc.relations.len()
                && evidence.stats.clause_count == obligation.vc.rules.len()
                && verification.outcome.obligation_id@ == obligation.obligation_id@
            &&& exists|kind: ChcPdrProofKind| #[trigger]
                policy.ensures((&verification.verdict,), Ok(kind)) && match kind {
                    ChcPdrProofKind::ChcValidity => underivable(obligation) || searched_safe(
                        obligation,
                        decide,
                    ),
                    ChcPdrProofKind::PdrInvariant => validated(
                        obligation,
                        verification.verdict,
                        validate,
                    ),
                }
        },
{
    let fresh = choose|fresh: Option<FreshInput>| #[trigger]
        runner::prepared_afresh(obligation, options, build, layer, fresh) && match fresh {
            None => sealed == verification,
            Some(fresh) => exists|
                admission: Admission,
                verdict_form: Value,
                safe: bool,
                valid: bool,
            |
                {
                    &&& #[trigger] policy.ensures((&verification.verdict,), admission)
                    &&& #[trigger] form.ensures((&verification.verdict,), verdict_form)
                    &&& #[trigger] runner::searched_again(
                        fresh.prepared,
                        options,
                        admission,
                        decide,
                        safe,
                    )
                    &&& #[trigger] runner::revalidated(
                        verification,
                        fresh.prepared,
                        options,
                        admission,
                        validate,
                        valid,
                    )
                    &&& seal::replay_sealed(
                        layer.sha256,
                        verification,
                        obligation,
                        fresh,
                        safe,
                        valid,
                        admission,
                        wording,
                        json::json_content(verdict_form),
                        sealed,
                    )
                },
        };
    if let Some(fresh) = fresh {
        let (admission, verdict_form, safe, valid) = choose|
            admission: Admission,
            verdict_form: Value,
            safe: bool,
            valid: bool,
        |
            {
                &&& #[trigger] policy.ensures((&verification.verdict,), admission)
                &&& #[trigger] form.ensures((&verification.verdict,), verdict_form)
                &&& #[trigger] runner::searched_again(
                    fresh.prepared,
                    options,
                    admission,
                    decide,
                    safe,
                )
                &&& #[trigger] runner::revalidated(
                    verification,
                    fresh.prepared,
                    options,
                    admission,
                    validate,
                    valid,
                )
                &&& seal::replay_sealed(
                    layer.sha256,
                    verification,
                    obligation,
                    fresh,
                    safe,
                    valid,
                    admission,
                    wording,
                    json::json_content(verdict_form),
                    sealed,
                )
            };
        if verification.seal() is None && sealed.seal() is Some {
            assert(admission is Ok);
            let kind = admission->Ok_0;
            assert(policy.ensures((&verification.verdict,), Ok(kind)));
            match kind {
                ChcPdrProofKind::ChcValidity => {
                    if obligation.target_derived() {
                        let problem = fresh.prepared.problem->0;
                        assert(safe);
                        let limit = evidence::watchdog_limit(
                            evidence::effective_timeout(options),
                        );
                        assert(decide.ensures((&problem, limit), Some(AcyclicDecision::Safe)));
                    }
                },
                ChcPdrProofKind::PdrInvariant => {
                    assert(valid);
                    let problem = fresh.prepared.problem->0;
                    assert(obligation.target_derived());
                    let artifacts = verification.verdict->evidence.artifacts@;
                    let limit = evidence::effective_timeout(options);
                    let at = choose|at: int| #[trigger]
                        seal::only(
                            artifacts,
                            FullVerificationArtifactKind::PdrInvariantModel,
                            at,
                        ) && match artifacts[at].materialization {
                            Some(retained) => validate.ensures(
                                (&problem, &retained.bytes, limit),
                                valid,
                            ),
                            None => !valid,
                        };
                    let model = artifacts[at].materialization->0.bytes;
                    assert(validate.ensures((&problem, &model, limit), true));
                    assert(artifacts[at].kind == FullVerificationArtifactKind::PdrInvariantModel);
                    assert(validated(obligation, verification.verdict, validate));
                },
            }
        }
    }
}

/// Whether an artifact holds what its descriptor says, by whatever digest is measured.
pub open spec fn whole<H: Fn(&[u8]) -> EvidenceHash>(
    sha256: H,
    artifact: FullVerificationArtifact,
) -> bool {
    artifact.materialization matches Some(retained) && artifact.byte_len == Some(
        retained.bytes@.len() as u64,
    ) && (artifact.digest matches Some(digest) && forall|measured: HashModel| #[trigger]
        evidence::digests(sha256, retained.bytes@, measured) ==> digest@ == measured)
}

/// Whether a response, its candidate and an obligation prepared afresh tell the same, and
/// the response is undecided for a reason.
pub open spec fn tell_the_same(
    verification: TypedChcPdrFullVerification,
    evidence: ChcPdrProofEvidence,
    obligation: MirChcPdrObligation,
    fresh: FreshInput,
    reason: Seq<char>,
) -> bool {
    let normalized = fresh.prepared.normalized;
    &&& verification.route == normalized.route
    &&& verification.cache_key.valid
    &&& verification.cache_key.key@ == fresh.cache_key.key@
    &&& verification.cache_key.serialized == fresh.cache_key.serialized
    &&& fresh.cache_key.normalized_input_hash@ == normalized.normalized_input_hash@
    &&& fresh.cache_key.obligation_set_hash@ == normalized.obligation_set_hash@
    &&& verification.cache_key.normalized_input_hash@ == normalized.normalized_input_hash@
    &&& verification.cache_key.obligation_set_hash@ == normalized.obligation_set_hash@
    &&& verification.artifact_directory@ == identity::artifact_directory_of(fresh.cache_key.key@)
    &&& verification.outcome.obligation_id@ == obligation.obligation_id@
    &&& verification.outcome.stats == obligation.size()
    &&& verification.outcome.status matches ChcPdrSolveStatus::Unknown { reason: own } && own@
        == reason
    &&& evidence.obligation_id@ == obligation.obligation_id@
    &&& evidence.stats == obligation.size()
    &&& evidence.native_metadata == obligation.native_metadata
    &&& evidence.normalized_input@ == normalized.normalized_input@
    &&& evidence.normalized_input_hash@ == normalized.normalized_input_hash@
    &&& evidence.cache_key matches Some(key) && key@ == fresh.cache_key.key@
}

/// Whether an artifact is the only one of its kind.
pub open spec fn sole(
    artifacts: Seq<FullVerificationArtifact>,
    kind: FullVerificationArtifactKind,
    at: int,
) -> bool {
    forall|i: int| 0 <= i < artifacts.len() ==> (i == at <==> (#[trigger] artifacts[i]).kind == kind)
}

/// A fresh replay seals what it established: where the response, its candidate and the
/// obligation prepared afresh tell the same and the only typed problem of the candidate is
/// whole and the obligation's own, a claim of validity is sealed where no rule derives the
/// query target or where the second search of a problem with at least two predicates told
/// that it is safe, and an invariant is sealed where the only one is whole and was
/// validated.
pub proof fn law_established_claims_are_sealed<H: Fn(&[u8]) -> EvidenceHash>(
    sha256: H,
    verification: TypedChcPdrFullVerification,
    evidence: ChcPdrProofEvidence,
    obligation: MirChcPdrObligation,
    fresh: FreshInput,
    searched_safe: bool,
    validated: bool,
    claim: ChcPdrProofKind,
    wording: ReplayWording,
    verdict_form: JsonModel,
    sealed: TypedChcPdrFullVerification,
    problem: int,
    model: int,
)
    requires
        evidence::settled(sha256),
        seal::replay_sealed(
            sha256,
            verification,
            obligation,
            fresh,
            searched_safe,
            validated,
            Ok(claim),
            wording,
            verdict_form,
            sealed,
        ),
        verification.verdict == (FullVerificationVerdict::Proved { evidence }),
        0 <= problem < evidence.artifacts@.len(),
        sole(evidence.artifacts@, FullVerificationArtifactKind::TypedChcProblem, problem),
        whole(sha256, evidence.artifacts@[problem]),
        forall|expected: Seq<u8>| #[trigger]
            identity::encodes_typed_problem(
                sha256,
                obligation,
                fresh.prepared.normalized.normalized_input@,
                expected,
            ) ==> evidence.artifacts@[problem].materialization->0.bytes@ == expected,
        match claim {
            ChcPdrProofKind::ChcValidity => {
                &&& tell_the_same(
                    verification,
                    evidence,
                    obligation,
                    fresh,
                    wording.chc_validity@,
                )
                &&& match fresh.prepared.problem {
                    None => fresh.prepared.normalized.route == TypedChcPdrRoute::TriviallySafe,
                    Some(lowered) => fresh.prepared.normalized.route == TypedChcPdrRoute::PdrProof
                        && lowered@.predicates.len() >= 2 && searched_safe,
                }
            },
            ChcPdrProofKind::PdrInvariant => {
                &&& tell_the_same(
                    verification,
                    evidence,
                    obligation,
                    fresh,
                    wording.pdr_invariant@,
                )
                &&& fresh.prepared.problem is Some
                &&& fresh.prepared.normalized.route == TypedChcPdrRoute::PdrProof
                &&& validated
                &&& 0 <= model < evidence.artifacts@.len()
                &&& sole(
                    evidence.artifacts@,
                    FullVerificationArtifactKind::PdrInvariantModel,
                    model,
                )
                &&& whole(sha256, evidence.artifacts@[model])
            },
        },
    ensures
        sealed.seal() is Some,
{
    let artifacts = evidence.artifacts@;
    assert(seal::only(artifacts, FullVerificationArtifactKind::TypedChcProblem, problem));
    assert(seal::about(verification, evidence, obligation, fresh));
    let yes = choose|yes: bool| #[trigger]
        seal::exactly_about(sha256, verification, Ok(claim), obligation, fresh, yes) && if yes {
            match claim {
                ChcPdrProofKind::ChcValidity => seal::validity_replay_seal(
                    sha256,
                    verification,
                    fresh.prepared,
                    searched_safe,
                    wording,
                    verdict_form,
                    sealed.seal(),
                ),
                ChcPdrProofKind::PdrInvariant => seal::invariant_replay_seal(
                    sha256,
                    verification,
                    fresh.prepared,
                    validated,
                    wording,
                    verdict_form,
                    sealed.seal(),
                ),
            }
        } else {
            sealed.seal() == verification.seal()
        };
    assert(yes);
    match claim {
        ChcPdrProofKind::ChcValidity => {
            assert(seal::coherent(verification, evidence, wording.chc_validity@));
        },
        ChcPdrProofKind::PdrInvariant => {
            assert(seal::coherent(verification, evidence, wording.pdr_invariant@));
            assert(seal::only(artifacts, FullVerificationArtifactKind::PdrInvariantModel, model));
            let (own_problem, own_model, intact) = choose|
                own_problem: int,
                own_model: int,
                intact: bool,
            |
                {
                    &&& #[trigger] seal::only(
                        artifacts,
                        FullVerificationArtifactKind::TypedChcProblem,
                        own_problem,
                    )
                    &&& #[trigger] seal::only(
                        artifacts,
                        FullVerificationArtifactKind::PdrInvariantModel,
                        own_model,
                    )
                    &&& #[trigger] seal::retains(sha256, artifacts[own_model], intact)
                    &&& if intact && artifacts[own_problem].digest is Some {
                        seal::bound_replay(
                            sha256,
                            verification,
                            seal::replay_of(evidence, fresh.prepared, own_problem, own_model),
                            wording,
                            verdict_form,
                            sealed.seal(),
                        )
                    } else {
                        sealed.seal() is None
                    }
                };
            assert(own_problem == problem && own_model == model);
            assert(intact);
            let replay = seal::replay_of(evidence, fresh.prepared, problem, model);
            assert(seal::replays(verification, evidence, replay, wording.pdr_invariant@));
            assert(seal::only_seen(
                artifacts,
                FullVerificationArtifactKind::TypedChcProblem,
                problem,
                replay.typed_problem_digest,
            ));
            assert(seal::only_seen(
                artifacts,
                FullVerificationArtifactKind::PdrInvariantModel,
                model,
                replay.invariant_model_digest,
            ));
        },
    }
}

/// Whether a response, its candidate and an obligation prepared afresh are about the same,
/// as far as their documents tell.
pub open spec fn are_about_the_same(
    verification: TypedChcPdrFullVerification,
    evidence: ChcPdrProofEvidence,
    obligation: MirChcPdrObligation,
    fresh: FreshInput,
) -> bool {
    let normalized = fresh.prepared.normalized;
    &&& verification.route == normalized.route
    &&& verification.cache_key.valid
    &&& verification.cache_key.key@ == fresh.cache_key.key@
    &&& json::json_encoding(json::json_content(verification.cache_key.serialized))
        == json::json_encoding(json::json_content(fresh.cache_key.serialized))
    &&& verification.cache_key.obligation_set_hash@ == normalized.obligation_set_hash@
    &&& verification.artifact_directory@ == identity::artifact_directory_of(fresh.cache_key.key@)
    &&& verification.outcome.obligation_id@ == obligation.obligation_id@
    &&& verification.outcome.stats == obligation.size()
    &&& evidence.obligation_id@ == obligation.obligation_id@
    &&& evidence.stats == obligation.size()
    &&& json::json_encoding(identity::metadata_document(evidence.native_metadata))
        == json::json_encoding(identity::metadata_document(obligation.native_metadata))
    &&& evidence.normalized_input@ == normalized.normalized_input@
    &&& evidence.normalized_input_hash@ == normalized.normalized_input_hash@
    &&& evidence.cache_key matches Some(key) && key@ == fresh.cache_key.key@
}

/// Whether the only typed problem of a candidate is the obligation's own.
pub open spec fn carries_own_problem<H: Fn(&[u8]) -> EvidenceHash>(
    sha256: H,
    evidence: ChcPdrProofEvidence,
    obligation: MirChcPdrObligation,
    input: Seq<char>,
) -> bool {
    exists|at: int|
        {
            &&& 0 <= at < evidence.artifacts@.len()
            &&& #[trigger] sole(
                evidence.artifacts@,
                FullVerificationArtifactKind::TypedChcProblem,
                at,
            )
            &&& evidence.artifacts@[at].materialization matches Some(retained)
                && identity::encodes_typed_problem(sha256, obligation, input, retained.bytes@)
                && evidence.artifacts@[at].byte_len == Some(retained.bytes@.len() as u64)
        }
}

proof fn lemma_exactly_about<H: Fn(&[u8]) -> EvidenceHash>(
    sha256: H,
    verification: TypedChcPdrFullVerification,
    claim: ChcPdrProofKind,
    obligation: MirChcPdrObligation,
    fresh: FreshInput,
)
    requires
        seal::exactly_about(sha256, verification, Ok(claim), obligation, fresh, true),
    ensures
        verification.verdict matches FullVerificationVerdict::Proved { evidence }
            && are_about_the_same(verification, evidence, obligation, fresh)
            && carries_own_problem(
            sha256,
            evidence,
            obligation,
            fresh.prepared.normalized.normalized_input@,
        ),
{
    let evidence = verification.verdict->evidence;
    let artifacts = evidence.artifacts@;
    let (at, intact, expected) = choose|at: int, intact: bool, expected: Seq<u8>|
        {
            &&& #[trigger] seal::only(
                artifacts,
                FullVerificationArtifactKind::TypedChcProblem,
                at,
            )
            &&& #[trigger] seal::retains(sha256, artifacts[at], intact)
            &&& #[trigger] identity::encodes_typed_problem(
                sha256,
                obligation,
                fresh.prepared.normalized.normalized_input@,
                expected,
            )
            &&& true == (intact && seal::about(verification, evidence, obligation, fresh) && (
            artifacts[at].materialization matches Some(retained) && retained.bytes@ == expected))
        };
    assert(sole(artifacts, FullVerificationArtifactKind::TypedChcProblem, at));
}

/// A response that had no seal is sealed, by a fresh replay or as a request of an admitted
/// bundle, only where it, its candidate and the obligation prepared afresh are about the
/// same, and the only typed problem of the candidate is the obligation's own.
pub proof fn law_sealed_responses_are_about_their_obligation<H: Fn(&[u8]) -> EvidenceHash>(
    sha256: H,
    verification: TypedChcPdrFullVerification,
    obligation: MirChcPdrObligation,
    fresh: FreshInput,
    searched_safe: bool,
    validated: bool,
    claim: ChcPdrProofKind,
    wording: ReplayWording,
    verdict_form: JsonModel,
    sealed: TypedChcPdrFullVerification,
)
    requires
        verification.seal() is None,
        sealed.seal() is Some,
        seal::replay_sealed(
            sha256,
            verification,
            obligation,
            fresh,
            searched_safe,
            validated,
            Ok(claim),
            wording,
            verdict_form,
            sealed,
        ) || seal::bundle_sealed(
            sha256,
            verification,
            obligation,
            fresh,
            Ok(claim),
            wording,
            verdict_form,
            sealed,
        ),
    ensures
        verification.verdict matches FullVerificationVerdict::Proved { evidence }
            && are_about_the_same(verification, evidence, obligation, fresh)
            && carries_own_problem(
            sha256,
            evidence,
            obligation,
            fresh.prepared.normalized.normalized_input@,
        ),
{
    assert(seal::exactly_about(sha256, verification, Ok(claim), obligation, fresh, true)) by {
        if !seal::exactly_about(sha256, verification, Ok(claim), obligation, fresh, true) {
            assert(sealed.seal() == verification.seal());
        }
    }
    lemma_exactly_about(sha256, verification, claim, obligation, fresh);
}

/// A fresh replay seals nothing that it did not establish: a claim of validity only where
/// there was no problem to search, or where the second search of a problem with at least
/// two predicates told that it is safe, and an invariant only where it was validated
/// against a problem. A request of an admitted bundle is sealed for validity alone.
pub proof fn law_only_established_claims_are_sealed<H: Fn(&[u8]) -> EvidenceHash>(
    sha256: H,
    verification: TypedChcPdrFullVerification,
    obligation: MirChcPdrObligation,
    fresh: FreshInput,
    searched_safe: bool,
    validated: bool,
    claim: ChcPdrProofKind,
    wording: ReplayWording,
    verdict_form: JsonModel,
    sealed: TypedChcPdrFullVerification,
)
    requires
        verification.seal() is None,
        sealed.seal() is Some,
    ensures
        seal::replay_sealed(
            sha256,
            verification,
            obligation,
            fresh,
            searched_safe,
            validated,
            Ok(claim),
            wording,
            verdict_form,
            sealed,
        ) ==> match claim {
            ChcPdrProofKind::ChcValidity => match fresh.prepared.problem {
                None => verification.route == TypedChcPdrRoute::TriviallySafe,
                Some(problem) => verification.route == TypedChcPdrRoute::PdrProof
                    && problem@.predicates.len() >= 2 && searched_safe,
            },
            ChcPdrProofKind::PdrInvariant => fresh.prepared.problem is Some && validated,
        },
        seal::bundle_sealed(
            sha256,
            verification,
            obligation,
            fresh,
            Ok(claim),
            wording,
            verdict_form,
            sealed,
        ) ==> claim == ChcPdrProofKind::ChcValidity,
{
    if seal::replay_sealed(
        sha256,
        verification,
        obligation,
        fresh,
        searched_safe,
        validated,
        Ok(claim),
        wording,
        verdict_form,
        sealed,
    ) {
        law_sealed_responses_are_about_their_obligation(
            sha256,
            verification,
            obligation,
            fresh,
            searched_safe,
            validated,
            claim,
            wording,
            verdict_form,
            sealed,
        );
    }
}

/// A claim is granted only to a response that holds together: the policy accepts the
/// candidate with this claim, the candidate, the cache key, the directory and the outcome
/// are about one obligation and one input, the key is valid, and the outcome is open for
/// the reason that goes with the claim.
pub proof fn law_granted_responses_hold_together<H: Fn(&[u8]) -> EvidenceHash>(
    sha256: H,
    verification: TypedChcPdrFullVerification,
    admission: Admission,
    wording: ReplayWording,
    verdict_form: JsonModel,
    claim: ChcPdrProofKind,
)
    requires
        seal::authorizes(
            sha256,
            verification,
            admission,
            wording,
            verdict_form,
            Ok::<ChcPdrProofKind, NativeSolveError>(claim),
        ),
    ensures
        admission matches Ok(own) && own == claim,
        verification.seal() is Some,
        verification.cache_key.valid,
        verification.artifact_directory@ == identity::artifact_directory_of(
            verification.cache_key.key@,
        ),
        verification.outcome.status matches ChcPdrSolveStatus::Unknown { reason } && reason@
            == match claim {
            ChcPdrProofKind::ChcValidity => wording.chc_validity@,
            ChcPdrProofKind::PdrInvariant => wording.pdr_invariant@,
        },
        verification.verdict matches FullVerificationVerdict::Proved { evidence } && {
            &&& evidence.obligation_id@ == verification.outcome.obligation_id@
            &&& evidence.stats == verification.outcome.stats
            &&& evidence.normalized_input_hash@ == verification.cache_key.normalized_input_hash@
            &&& evidence.cache_key matches Some(key) && key@ == verification.cache_key.key@
        },
        claim == ChcPdrProofKind::PdrInvariant ==> verification.route
            == TypedChcPdrRoute::PdrProof,
{
}

} // verus!
