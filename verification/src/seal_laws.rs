//! What a seal promises.
use vstd::prelude::*;

use crate::copies;
use crate::error;
use crate::error::{ErrorModel, NativeSolveError, NativeSolveResult};
use crate::evidence;
use crate::evidence::{
    EvidenceHash, FullVerificationArtifactKind, HashModel, MirChcPdrObligation, OutcomeModel,
};
use crate::identity;
use crate::json;
use crate::json::JsonModel;
use crate::seal;
use crate::seal::{
    Admission, FreshInput, PrivateChcValidityDerivation, ReplayModel, SealModel,
    TypedChcPdrFullVerification,
};
use crate::transport::NativeTypedChcPdrProofTransport;
use crate::verdicts::{ChcPdrProofKind, FullVerificationArtifact, ReplayWording};

verus! {

/// Whether retained bytes match their descriptor is settled by the digest
/// function.
proof fn lemma_retains_once<H: Fn(&[u8]) -> EvidenceHash>(
    sha256: H,
    artifact: FullVerificationArtifact,
    left: bool,
    right: bool,
)
    requires
        evidence::settled(sha256),
        seal::retains(sha256, artifact, left),
        seal::retains(sha256, artifact, right),
    ensures
        left == right,
{
}

/// The binding of a claim of validity is settled by the digest function, and does
/// not depend on the seal that the response carries.
proof fn lemma_validity_binds_once<H: Fn(&[u8]) -> EvidenceHash>(
    sha256: H,
    verification: TypedChcPdrFullVerification,
    other: TypedChcPdrFullVerification,
    derivation: PrivateChcValidityDerivation,
    wording: ReplayWording,
    verdict_form: JsonModel,
    binding: HashModel,
    again: Option<HashModel>,
)
    requires
        evidence::settled(sha256),
        other.same_response(verification),
        seal::validity_binding(
            sha256,
            verification,
            derivation,
            ChcPdrProofKind::ChcValidity,
            wording,
            verdict_form,
            Some(binding),
        ),
        seal::validity_binding(
            sha256,
            other,
            derivation,
            ChcPdrProofKind::ChcValidity,
            wording,
            verdict_form,
            again,
        ),
    ensures
        again == Some(binding),
{
    let kind = FullVerificationArtifactKind::TypedChcProblem;
    let artifacts = verification.verdict->evidence.artifacts@;
    let (at, intact) = choose|at: int, intact: bool|
        {
            &&& #[trigger] seal::only(artifacts, kind, at)
            &&& #[trigger] seal::retains(sha256, artifacts[at], intact)
            &&& intact && evidence::digests(
                sha256,
                json::json_encoding(
                    seal::validity_envelope(
                        verification,
                        derivation,
                        artifacts[at].digest->0@,
                        wording.chc_validity@,
                        verdict_form,
                    ),
                ),
                binding,
            )
        };
    let (at_again, intact_again) = choose|at_again: int, intact_again: bool|
        {
            &&& #[trigger] seal::only(artifacts, kind, at_again)
            &&& #[trigger] seal::retains(sha256, artifacts[at_again], intact_again)
            &&& match (intact_again, again) {
                (true, Some(again)) => evidence::digests(
                    sha256,
                    json::json_encoding(
                        seal::validity_envelope(
                            other,
                            derivation,
                            artifacts[at_again].digest->0@,
                            wording.chc_validity@,
                            verdict_form,
                        ),
                    ),
                    again,
                ),
                (false, None) => true,
                _ => false,
            }
        };
    assert(at == at_again);
    lemma_retains_once(sha256, artifacts[at], intact, intact_again);
}

/// The binding of a replayed invariant is settled by the digest function, and does
/// not depend on the seal that the response carries.
proof fn lemma_invariant_binds_once<H: Fn(&[u8]) -> EvidenceHash>(
    sha256: H,
    verification: TypedChcPdrFullVerification,
    other: TypedChcPdrFullVerification,
    replay: ReplayModel,
    wording: ReplayWording,
    verdict_form: JsonModel,
    binding: HashModel,
    again: Option<HashModel>,
)
    requires
        evidence::settled(sha256),
        other.same_response(verification),
        seal::invariant_binding(
            sha256,
            verification,
            replay,
            ChcPdrProofKind::PdrInvariant,
            wording,
            verdict_form,
            Some(binding),
        ),
        seal::invariant_binding(
            sha256,
            other,
            replay,
            ChcPdrProofKind::PdrInvariant,
            wording,
            verdict_form,
            again,
        ),
    ensures
        again == Some(binding),
{
    let artifacts = verification.verdict->evidence.artifacts@;
    let (problem, model, problem_intact, model_intact) = choose|
        problem: int,
        model: int,
        problem_intact: bool,
        model_intact: bool,
    |
        {
            &&& #[trigger] seal::only_seen(
                artifacts,
                FullVerificationArtifactKind::TypedChcProblem,
                problem,
                replay.typed_problem_digest,
            )
            &&& #[trigger] seal::only_seen(
                artifacts,
                FullVerificationArtifactKind::PdrInvariantModel,
                model,
                replay.invariant_model_digest,
            )
            &&& artifacts[model].byte_len == Some(replay.invariant_model_byte_len)
            &&& #[trigger] seal::retains(sha256, artifacts[problem], problem_intact)
            &&& #[trigger] seal::retains(sha256, artifacts[model], model_intact)
            &&& problem_intact && model_intact && evidence::digests(
                sha256,
                json::json_encoding(
                    seal::invariant_envelope(
                        verification,
                        replay,
                        wording.pdr_invariant@,
                        verdict_form,
                    ),
                ),
                binding,
            )
        };
    let (problem_again, model_again, problem_intact_again, model_intact_again) = choose|
        problem_again: int,
        model_again: int,
        problem_intact_again: bool,
        model_intact_again: bool,
    |
        {
            &&& #[trigger] seal::only_seen(
                artifacts,
                FullVerificationArtifactKind::TypedChcProblem,
                problem_again,
                replay.typed_problem_digest,
            )
            &&& #[trigger] seal::only_seen(
                artifacts,
                FullVerificationArtifactKind::PdrInvariantModel,
                model_again,
                replay.invariant_model_digest,
            )
            &&& artifacts[model_again].byte_len == Some(replay.invariant_model_byte_len)
            &&& #[trigger] seal::retains(sha256, artifacts[problem_again], problem_intact_again)
            &&& #[trigger] seal::retains(sha256, artifacts[model_again], model_intact_again)
            &&& match (problem_intact_again && model_intact_again, again) {
                (true, Some(again)) => evidence::digests(
                    sha256,
                    json::json_encoding(
                        seal::invariant_envelope(
                            other,
                            replay,
                            wording.pdr_invariant@,
                            verdict_form,
                        ),
                    ),
                    again,
                ),
                (false, None) => true,
                _ => false,
            }
        };
    assert(problem == problem_again);
    assert(model == model_again);
    lemma_retains_once(sha256, artifacts[problem], problem_intact, problem_intact_again);
    lemma_retains_once(sha256, artifacts[model], model_intact, model_intact_again);
}

/// A response with a seal that was made for it is granted its claim, as long as
/// nothing of it was altered.
proof fn lemma_own_seal_grants<H: Fn(&[u8]) -> EvidenceHash>(
    sha256: H,
    verification: TypedChcPdrFullVerification,
    sealed: TypedChcPdrFullVerification,
    claim: ChcPdrProofKind,
    wording: ReplayWording,
    verdict_form: JsonModel,
    granted: NativeSolveResult<ChcPdrProofKind>,
)
    requires
        evidence::settled(sha256),
        sealed.same_response(verification),
        sealed.seal() is Some,
        match claim {
            ChcPdrProofKind::ChcValidity => exists|derivation: PrivateChcValidityDerivation|
                #[trigger]
                seal::validity_seal(
                    sha256,
                    verification,
                    derivation,
                    wording,
                    verdict_form,
                    sealed.seal(),
                ),
            ChcPdrProofKind::PdrInvariant => exists|replay: ReplayModel| #[trigger]
                seal::bound_replay(
                    sha256,
                    verification,
                    replay,
                    wording,
                    verdict_form,
                    sealed.seal(),
                ),
        },
        seal::authorizes(sha256, sealed, Ok(claim), wording, verdict_form, granted),
    ensures
        granted == Ok::<ChcPdrProofKind, NativeSolveError>(claim),
{
    let own = sealed.seal()->0;
    let held = seal::held_binding(own);
    let current = choose|current: Option<HashModel>| #[trigger]
        seal::rebinds(sha256, sealed, own, claim, wording, verdict_form, current) && if current
            == Some(held) {
            granted == Ok::<ChcPdrProofKind, NativeSolveError>(claim)
        } else {
            error::failure(granted) == Some(
                seal::authority_refusal(
                    "private native typed CHC/PDR proof authority no longer matches the verification response"@,
                ),
            )
        };
    match claim {
        ChcPdrProofKind::ChcValidity => {
            let derivation = choose|derivation: PrivateChcValidityDerivation| #[trigger]
                seal::validity_seal(
                    sha256,
                    verification,
                    derivation,
                    wording,
                    verdict_form,
                    sealed.seal(),
                );
            lemma_validity_binds_once(
                sha256,
                verification,
                sealed,
                derivation,
                wording,
                verdict_form,
                held,
                current,
            );
        },
        ChcPdrProofKind::PdrInvariant => {
            let replay = choose|replay: ReplayModel| #[trigger]
                seal::bound_replay(
                    sha256,
                    verification,
                    replay,
                    wording,
                    verdict_form,
                    sealed.seal(),
                );
            lemma_invariant_binds_once(
                sha256,
                verification,
                sealed,
                replay,
                wording,
                verdict_form,
                held,
                current,
            );
        },
    }
}

/// A response that a fresh replay sealed is granted the claim of its candidate, as
/// long as nothing of it was altered.
pub proof fn law_replayed_responses_are_authorized<H: Fn(&[u8]) -> EvidenceHash>(
    sha256: H,
    verification: TypedChcPdrFullVerification,
    obligation: MirChcPdrObligation,
    fresh: FreshInput,
    searched_safe: bool,
    validated: bool,
    claim: ChcPdrProofKind,
    wording: ReplayWording,
    verdict_form: JsonModel,
    sealed: TypedChcPdrFullVerification,
    granted: NativeSolveResult<ChcPdrProofKind>,
)
    requires
        evidence::settled(sha256),
        verification.seal() is None,
        seal::replay_sealed(
            sha256,
            verification,
            obligation,
            fresh,
            searched_safe,
            validated,
            Ok(claim),
            wording,
            verdict_form,
            sealed,
        ),
        sealed.seal() is Some,
        seal::authorizes(sha256, sealed, Ok(claim), wording, verdict_form, granted),
    ensures
        granted == Ok::<ChcPdrProofKind, NativeSolveError>(claim),
{
    match claim {
        ChcPdrProofKind::ChcValidity => {
            let derivation = seal::replayed_derivation(fresh.prepared, searched_safe)->0;
            assert(seal::validity_seal(
                sha256,
                verification,
                derivation,
                wording,
                verdict_form,
                sealed.seal(),
            ));
        },
        ChcPdrProofKind::PdrInvariant => {
            let evidence = verification.verdict->evidence;
            let artifacts = evidence.artifacts@;
            let (problem, model, intact) = choose|problem: int, model: int, intact: bool|
                {
                    &&& #[trigger] seal::only(
                        artifacts,
                        FullVerificationArtifactKind::TypedChcProblem,
                        problem,
                    )
                    &&& #[trigger] seal::only(
                        artifacts,
                        FullVerificationArtifactKind::PdrInvariantModel,
                        model,
                    )
                    &&& #[trigger] seal::retains(sha256, artifacts[model], intact)
                    &&& intact && artifacts[problem].digest is Some && seal::bound_replay(
                        sha256,
                        verification,
                        seal::replay_of(evidence, fresh.prepared, problem, model),
                        wording,
                        verdict_form,
                        sealed.seal(),
                    )
                };
            assert(seal::bound_replay(
                sha256,
                verification,
                seal::replay_of(evidence, fresh.prepared, problem, model),
                wording,
                verdict_form,
                sealed.seal(),
            ));
        },
    }
    lemma_own_seal_grants(
        sha256,
        verification,
        sealed,
        claim,
        wording,
        verdict_form,
        granted,
    );
}

/// A response that was sealed as a request of an admitted bundle is granted the
/// claim of its candidate, as long as nothing of it was altered.
pub proof fn law_bundle_responses_are_authorized<H: Fn(&[u8]) -> EvidenceHash>(
    sha256: H,
    verification: TypedChcPdrFullVerification,
    obligation: MirChcPdrObligation,
    fresh: FreshInput,
    claim: ChcPdrProofKind,
    wording: ReplayWording,
    verdict_form: JsonModel,
    sealed: TypedChcPdrFullVerification,
    granted: NativeSolveResult<ChcPdrProofKind>,
)
    requires
        evidence::settled(sha256),
        verification.seal() is None,
        seal::bundle_sealed(
            sha256,
            verification,
            obligation,
            fresh,
            Ok(claim),
            wording,
            verdict_form,
            sealed,
        ),
        sealed.seal() is Some,
        seal::authorizes(sha256, sealed, Ok(claim), wording, verdict_form, granted),
    ensures
        granted == Ok::<ChcPdrProofKind, NativeSolveError>(claim),
{
    assert(seal::validity_seal(
        sha256,
        verification,
        seal::bundle_derivation(verification.route),
        wording,
        verdict_form,
        sealed.seal(),
    ));
    lemma_own_seal_grants(
        sha256,
        verification,
        sealed,
        claim,
        wording,
        verdict_form,
        granted,
    );
}

/// A copy of a response is granted nothing and has no snapshot, whatever the
/// response is granted. It is the same as the response exactly where the response
/// has no seal either.
pub proof fn law_copies_hold_no_authority<H: Fn(&[u8]) -> EvidenceHash>(
    sha256: H,
    verification: TypedChcPdrFullVerification,
    copy: TypedChcPdrFullVerification,
    admission: Admission,
    wording: ReplayWording,
    verdict_form: JsonModel,
    granted: NativeSolveResult<ChcPdrProofKind>,
    recorded: NativeSolveResult<NativeTypedChcPdrProofTransport>,
)
    requires
        copies::alike(copy, verification),
        copy.seal() is None,
        seal::authorizes(sha256, copy, admission, wording, verdict_form, granted),
        seal::records(sha256, copy, admission, wording, verdict_form, recorded),
    ensures
        error::failure(granted) matches Some(ErrorModel::ProofGradeRejected { .. }),
        error::failure(recorded) matches Some(ErrorModel::ProofGradeRejected { .. }),
        copies::same_whole(copy, verification) <==> verification.seal() is None,
{
}

/// Whether two responses, with the serialized forms of their verdicts, are the same
/// in all that a seal is bound to.
pub open spec fn unaltered(
    sealed: TypedChcPdrFullVerification,
    sealed_form: JsonModel,
    other: TypedChcPdrFullVerification,
    other_form: JsonModel,
) -> bool {
    &&& other.route == sealed.route
    &&& json::json_content(other.cache_key.serialized) == json::json_content(
        sealed.cache_key.serialized,
    )
    &&& other.artifact_directory@ == sealed.artifact_directory@
    &&& other.outcome@ == sealed.outcome@
    &&& other_form == sealed_form
}

/// Whether a seal was made for a response.
pub open spec fn made_for<H: Fn(&[u8]) -> EvidenceHash>(
    sha256: H,
    sealed: TypedChcPdrFullVerification,
    wording: ReplayWording,
    sealed_form: JsonModel,
    own: SealModel,
) -> bool {
    match own {
        SealModel::ChcValidity { derivation, .. } => seal::validity_seal(
            sha256,
            sealed,
            derivation,
            wording,
            sealed_form,
            Some(own),
        ),
        SealModel::PdrInvariant { replay, .. } => seal::bound_replay(
            sha256,
            sealed,
            replay,
            wording,
            sealed_form,
            Some(own),
        ),
    }
}

/// Whether the envelopes of two responses have different encodings, unless they are
/// the same.
pub open spec fn enveloped_apart(
    sealed: TypedChcPdrFullVerification,
    sealed_form: JsonModel,
    other: TypedChcPdrFullVerification,
    other_form: JsonModel,
    wording: ReplayWording,
    own: SealModel,
) -> bool {
    match own {
        SealModel::ChcValidity { derivation, .. } => forall|left: HashModel, right: HashModel|
            json::encoded_apart(
                #[trigger] seal::validity_envelope(
                    sealed,
                    derivation,
                    left,
                    wording.chc_validity@,
                    sealed_form,
                ),
                #[trigger] seal::validity_envelope(
                    other,
                    derivation,
                    right,
                    wording.chc_validity@,
                    other_form,
                ),
            ),
        SealModel::PdrInvariant { replay, .. } => json::encoded_apart(
            seal::invariant_envelope(sealed, replay, wording.pdr_invariant@, sealed_form),
            seal::invariant_envelope(other, replay, wording.pdr_invariant@, other_form),
        ),
    }
}

/// Outcomes with one form in an envelope are the same, their status aside.
proof fn lemma_outcome_form_tells(left: OutcomeModel, right: OutcomeModel, reason: Seq<char>)
    requires
        seal::envelope_outcome(left, reason) == seal::envelope_outcome(right, reason),
    ensures
        left.obligation_id == right.obligation_id,
        left.stats == right.stats,
        left.diagnostics == right.diagnostics,
{
    reveal_strlit("obligation_id");
    assert("obligation_id"@.len() == 13);
    reveal_strlit("candidate_status");
    assert("candidate_status"@.len() == 16);
    reveal_strlit("reason");
    assert("reason"@.len() == 6);
    reveal_strlit("stats");
    assert("stats"@.len() == 5);
    reveal_strlit("diagnostics");
    assert("diagnostics"@.len() == 11);
    reveal_strlit("relation_count");
    assert("relation_count"@.len() == 14);
    reveal_strlit("clause_count");
    assert("clause_count"@.len() == 12);
    let one = seal::envelope_outcome(left, reason)->Object_0;
    let other = seal::envelope_outcome(right, reason)->Object_0;
    assert(one["obligation_id"@] == JsonModel::Text(left.obligation_id));
    assert(other["obligation_id"@] == JsonModel::Text(right.obligation_id));
    assert(one["diagnostics"@] == json::text_array(left.diagnostics));
    assert(other["diagnostics"@] == json::text_array(right.diagnostics));
    let texts = json::text_array(left.diagnostics)->Array_0;
    let again = json::text_array(right.diagnostics)->Array_0;
    assert(texts == again);
    assert(texts.len() == left.diagnostics.len() && again.len() == right.diagnostics.len());
    assert forall|i: int| 0 <= i < left.diagnostics.len() implies left.diagnostics[i]
        == right.diagnostics[i] by {
        assert(texts[i] == JsonModel::Text(left.diagnostics[i]));
        assert(again[i] == JsonModel::Text(right.diagnostics[i]));
    }
    assert(left.diagnostics =~= right.diagnostics);
    assert(one["stats"@] == identity::stats_document(left.stats));
    assert(other["stats"@] == identity::stats_document(right.stats));
    let counts = identity::stats_document(left.stats)->Object_0;
    assert(counts == identity::stats_document(right.stats)->Object_0);
    assert(counts["relation_count"@] == JsonModel::Number(left.stats.relation_count as nat));
    assert(counts["relation_count"@] == JsonModel::Number(right.stats.relation_count as nat));
    assert(counts["clause_count"@] == JsonModel::Number(left.stats.clause_count as nat));
    assert(counts["clause_count"@] == JsonModel::Number(right.stats.clause_count as nat));
}

/// The envelope of a claim of validity tells what the response is.
proof fn lemma_validity_envelope_tells(
    left: TypedChcPdrFullVerification,
    left_digest: HashModel,
    left_form: JsonModel,
    right: TypedChcPdrFullVerification,
    right_digest: HashModel,
    right_form: JsonModel,
    derivation: PrivateChcValidityDerivation,
    reason: Seq<char>,
)
    requires
        seal::validity_envelope(left, derivation, left_digest, reason, left_form)
            == seal::validity_envelope(right, derivation, right_digest, reason, right_form),
        left.outcome@.status == right.outcome@.status,
    ensures
        unaltered(left, left_form, right, right_form),
{
    reveal_strlit("schema");
    assert("schema"@.len() == 6);
    reveal_strlit("domain");
    assert("domain"@.len() == 6);
    reveal_strlit("derivation");
    assert("derivation"@.len() == 10);
    reveal_strlit("route");
    assert("route"@.len() == 5);
    reveal_strlit("cache_key");
    assert("cache_key"@.len() == 9);
    reveal_strlit("artifact_directory");
    assert("artifact_directory"@.len() == 18);
    reveal_strlit("outcome");
    assert("outcome"@.len() == 7);
    reveal_strlit("typed_problem_digest");
    assert("typed_problem_digest"@.len() == 20);
    reveal_strlit("candidate_verdict");
    assert("candidate_verdict"@.len() == 17);
    reveal_strlit("trivially-safe");
    assert("trivially-safe"@.len() == 14);
    reveal_strlit("pdr-proof");
    assert("pdr-proof"@.len() == 9);
    let one = seal::validity_envelope(left, derivation, left_digest, reason, left_form)->Object_0;
    let other = seal::validity_envelope(
        right,
        derivation,
        right_digest,
        reason,
        right_form,
    )->Object_0;
    assert(one["route"@] == JsonModel::Text(seal::envelope_route(left.route)));
    assert(other["route"@] == JsonModel::Text(seal::envelope_route(right.route)));
    assert(one["cache_key"@] == json::json_content(left.cache_key.serialized));
    assert(other["cache_key"@] == json::json_content(right.cache_key.serialized));
    assert(one["artifact_directory"@] == JsonModel::Text(left.artifact_directory@));
    assert(other["artifact_directory"@] == JsonModel::Text(right.artifact_directory@));
    assert(one["outcome"@] == seal::envelope_outcome(left.outcome@, reason));
    assert(other["outcome"@] == seal::envelope_outcome(right.outcome@, reason));
    assert(one["candidate_verdict"@] == left_form);
    assert(other["candidate_verdict"@] == right_form);
    lemma_outcome_form_tells(left.outcome@, right.outcome@, reason);
}

/// The envelope of a replayed invariant tells what the response is.
proof fn lemma_invariant_envelope_tells(
    left: TypedChcPdrFullVerification,
    left_form: JsonModel,
    right: TypedChcPdrFullVerification,
    right_form: JsonModel,
    replay: ReplayModel,
    reason: Seq<char>,
)
    requires
        seal::invariant_envelope(left, replay, reason, left_form) == seal::invariant_envelope(
            right,
            replay,
            reason,
            right_form,
        ),
        left.route == right.route,
        left.outcome@.status == right.outcome@.status,
    ensures
        unaltered(left, left_form, right, right_form),
{
    reveal_strlit("cache_key");
    assert("cache_key"@.len() == 9);
    reveal_strlit("artifact_directory");
    assert("artifact_directory"@.len() == 18);
    reveal_strlit("exact_obligation_set_hash");
    assert("exact_obligation_set_hash"@.len() == 25);
    reveal_strlit("fresh_problem_hash");
    assert("fresh_problem_hash"@.len() == 18);
    reveal_strlit("typed_problem_digest");
    assert("typed_problem_digest"@.len() == 20);
    reveal_strlit("invariant_model_digest");
    assert("invariant_model_digest"@.len() == 22);
    reveal_strlit("invariant_model_byte_len");
    assert("invariant_model_byte_len"@.len() == 24);
    reveal_strlit("outcome");
    assert("outcome"@.len() == 7);
    reveal_strlit("candidate_verdict");
    assert("candidate_verdict"@.len() == 17);
    assert("artifact_directory"@[0] != "fresh_problem_hash"@[0]);
    let one = seal::invariant_envelope(left, replay, reason, left_form)->Object_0;
    let other = seal::invariant_envelope(right, replay, reason, right_form)->Object_0;
    assert(one["cache_key"@] == json::json_content(left.cache_key.serialized));
    assert(other["cache_key"@] == json::json_content(right.cache_key.serialized));
    assert(one["artifact_directory"@] == JsonModel::Text(left.artifact_directory@));
    assert(other["artifact_directory"@] == JsonModel::Text(right.artifact_directory@));
    assert(one["outcome"@] == seal::envelope_outcome(left.outcome@, reason));
    assert(other["outcome"@] == seal::envelope_outcome(right.outcome@, reason));
    assert(one["candidate_verdict"@] == left_form);
    assert(other["candidate_verdict"@] == right_form);
    lemma_outcome_form_tells(left.outcome@, right.outcome@, reason);
}

/// A seal grants nothing to a response that was altered.
proof fn lemma_altered_is_refused<H: Fn(&[u8]) -> EvidenceHash>(
    sha256: H,
    sealed: TypedChcPdrFullVerification,
    sealed_form: JsonModel,
    other: TypedChcPdrFullVerification,
    other_form: JsonModel,
    admission: Admission,
    wording: ReplayWording,
    granted: NativeSolveResult<ChcPdrProofKind>,
)
    requires
        evidence::tells_apart(sha256),
        other.seal() matches Some(own) && made_for(sha256, sealed, wording, sealed_form, own)
            && enveloped_apart(sealed, sealed_form, other, other_form, wording, own),
        !unaltered(sealed, sealed_form, other, other_form),
        seal::authorizes(sha256, other, admission, wording, other_form, granted),
    ensures
        error::failure(granted) matches Some(ErrorModel::ProofGradeRejected { .. }),
{
    if granted is Ok {
        let own = other.seal()->0;
        let claim = admission->Ok_0;
        let binding = choose|binding: Option<HashModel>| #[trigger]
            seal::rebinds(sha256, other, own, claim, wording, other_form, binding) && binding
                == Some(seal::held_binding(own));
        match own {
            SealModel::ChcValidity { derivation, .. } => {
                seal::law_validity_seal_is_bound_to_its_response(
                    sha256,
                    sealed,
                    derivation,
                    sealed_form,
                    other,
                    other_form,
                    wording,
                    granted,
                );
                let (held, left, right) = choose|held: HashModel, left: HashModel, right: HashModel|
                    #![trigger seal::envelope_digest(sha256, sealed, derivation, left, wording, sealed_form, held), seal::envelope_digest(sha256, other, derivation, right, wording, other_form, held)]
                    seal::envelope_digest(
                        sha256,
                        sealed,
                        derivation,
                        left,
                        wording,
                        sealed_form,
                        held,
                    ) && seal::envelope_digest(
                        sha256,
                        other,
                        derivation,
                        right,
                        wording,
                        other_form,
                        held,
                    );
                lemma_validity_envelope_tells(
                    sealed,
                    left,
                    sealed_form,
                    other,
                    right,
                    other_form,
                    derivation,
                    wording.chc_validity@,
                );
            },
            SealModel::PdrInvariant { replay, .. } => {
                seal::law_invariant_seal_is_bound_to_its_response(
                    sha256,
                    sealed,
                    replay,
                    sealed_form,
                    other,
                    other_form,
                    wording,
                    granted,
                );
                let held = choose|held: HashModel|
                    #![trigger seal::replay_envelope_digest(sha256, sealed, replay, wording, sealed_form, held)]
                    seal::replay_envelope_digest(
                        sha256,
                        sealed,
                        replay,
                        wording,
                        sealed_form,
                        held,
                    ) && seal::replay_envelope_digest(
                        sha256,
                        other,
                        replay,
                        wording,
                        other_form,
                        held,
                    );
                lemma_invariant_envelope_tells(
                    sealed,
                    sealed_form,
                    other,
                    other_form,
                    replay,
                    wording.pdr_invariant@,
                );
            },
        }
    }
}

/// A response with the seal that was made for another one, or for itself before it
/// was altered, is granted nothing and has no snapshot: not after a change of the
/// route, the cache key, the artifact directory, the outcome or the verdict. This
/// takes a digest function that tells bytes apart and an encoding that tells the two
/// envelopes apart.
pub proof fn law_altered_responses_are_refused<H: Fn(&[u8]) -> EvidenceHash>(
    sha256: H,
    sealed: TypedChcPdrFullVerification,
    sealed_form: JsonModel,
    other: TypedChcPdrFullVerification,
    other_form: JsonModel,
    admission: Admission,
    wording: ReplayWording,
    granted: NativeSolveResult<ChcPdrProofKind>,
    recorded: NativeSolveResult<NativeTypedChcPdrProofTransport>,
)
    requires
        evidence::tells_apart(sha256),
        other.seal() matches Some(own) && made_for(sha256, sealed, wording, sealed_form, own)
            && enveloped_apart(sealed, sealed_form, other, other_form, wording, own),
        !unaltered(sealed, sealed_form, other, other_form),
        seal::authorizes(sha256, other, admission, wording, other_form, granted),
        seal::records(sha256, other, admission, wording, other_form, recorded),
    ensures
        error::failure(granted) matches Some(ErrorModel::ProofGradeRejected { .. }),
        error::failure(recorded) matches Some(ErrorModel::ProofGradeRejected { .. }),
{
    lemma_altered_is_refused(
        sha256,
        sealed,
        sealed_form,
        other,
        other_form,
        admission,
        wording,
        granted,
    );
    let own = choose|own: NativeSolveResult<ChcPdrProofKind>| #[trigger]
        seal::authorizes(sha256, other, admission, wording, other_form, own) && match (
            recorded,
            own,
        ) {
            (Ok(_), Ok(_)) => true,
            (Err(refused), Err(own)) => refused@ == own@,
            _ => false,
        };
    lemma_altered_is_refused(
        sha256,
        sealed,
        sealed_form,
        other,
        other_form,
        admission,
        wording,
        own,
    );
}

} // verus!
