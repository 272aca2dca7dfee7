//! What an answer of a solve carries, and what each lane concludes.
use vstd::prelude::*;

use crate::candidates;
use crate::candidates::VerifiedChcResult;
use crate::chc::{ChcProblem, ProblemModel};
use crate::error;
use crate::error::{NativeSolveError, NativeSolveResult};
use crate::evidence;
use crate::evidence::{
    ArtifactBytes, ChcPdrCexVerification, ChcPdrEncodingConcreteness, ChcPdrEngine,
    ChcPdrSolveOptions, EvidenceHash, FullVerificationArtifactKind, HashModel,
    MirChcPdrObligation, OutcomeModel, SolveTimeout, StatusModel,
};
use crate::grounding_laws;
use crate::identity;
use crate::identity::{
    FullVerificationCacheKey, NativeTypedChcPdrNormalizedInput, TypedChcPdrRoute,
};
use crate::json;
use crate::json::JsonModel;
use crate::lanes;
use crate::lanes::{AcyclicDecision, LoopLaneRun, ProofRun, RunStep, TypedSolve};
use crate::lowering::TypedChcLoweringAccounting;
use crate::seal::TypedChcPdrFullVerification;
use crate::solve;
use crate::solve::{AyVerdict, PlainEngine};
use crate::text;
use crate::text_laws;
use crate::transport_laws;
use crate::verdicts;
use crate::verdicts::{
    CandidateBytes, CandidateDocuments, ChcPdrProofEvidence, ChcPdrProofKind,
    FullVerificationArtifact, FullVerificationVerdict, ReplayWording,
};

verus! {

/// A refutation is reported for the obligation that was solved, with the size of its
/// problem. Its only artifact is the encoded counterexample, labelled by the obligation.
/// It has a witness exactly where the lowering was exact; the witness is about the
/// obligation, the digest of the input, the engine and the route, tells the
/// counterexample and how it was checked, and counts no loss.
pub proof fn law_refutations_carry_their_counterexample<H: Fn(&[u8]) -> EvidenceHash>(
    solve: TypedSolve,
    sha256: H,
    verification: TypedChcPdrFullVerification,
    counterexample: JsonModel,
    checked: ChcPdrCexVerification,
    diagnostic: Seq<char>,
)
    requires
        solve.refuted_by(sha256, verification, counterexample, checked, diagnostic),
    ensures
        verification.seal() is None,
        verification.route == solve.normalized.route,
        verification.outcome@.obligation_id == solve.obligation.obligation_id@,
        verification.outcome@.stats.relation_count == solve.obligation.vc.relations.len(),
        verification.outcome@.stats.clause_count == solve.obligation.vc.rules.len(),
        verification.outcome@.diagnostics.len() == 1,
        verification.outcome@.diagnostics[0] == diagnostic,
        verification.verdict matches FullVerificationVerdict::Failed { counterexample_artifacts } && {
            &&& counterexample_artifacts@.len() == 1
            &&& counterexample_artifacts@[0].kind
                == FullVerificationArtifactKind::CounterexampleTrace
            &&& counterexample_artifacts@[0].bytes@ == json::json_encoding(counterexample)
            &&& counterexample_artifacts@[0].label@ == "trust_mc://typed-chc/"@
                + solve.obligation.obligation_id@ + "/counterexample.json"@
        },
        verification.outcome@.status matches StatusModel::Refuted(witness) && {
            &&& witness is Some <==> solve.lowering == Some(TypedChcLoweringAccounting::exact())
            &&& witness matches Some(witness) ==> {
                &&& witness.obligation_id == solve.obligation.obligation_id@
                &&& witness.encoded_formula_sha256 == solve.normalized.normalized_input_hash@.value
                &&& identity::config_digest(
                    sha256,
                    solve.options.engine,
                    solve.normalized.route,
                    witness.semantic_config_sha256,
                )
                &&& witness.counterexample_json == json::json_display(counterexample)
                &&& witness.verification == checked
                &&& witness.concreteness matches ChcPdrEncodingConcreteness::ExactEncoding {
                    translation_drops,
                    havocs,
                    undef_diagnostic_havocs,
                } && translation_drops == 0 && havocs == 0 && undef_diagnostic_havocs == 0
            }
        },
{
    let parts = seq![
        "trust_mc://typed-chc/"@,
        solve.obligation.obligation_id@,
        "/counterexample.json"@,
    ];
    lemma_three(parts);
}

proof fn lemma_three(parts: Seq<Seq<char>>)
    requires
        parts.len() == 3,
    ensures
        text::concat(parts) == parts[0] + parts[1] + parts[2],
{
    text_laws::law_concatenations_split(seq![parts[0]], seq![parts[1], parts[2]]);
    text_laws::law_concatenations_split(seq![parts[1]], seq![parts[2]]);
    text_laws::law_concatenations_split(seq![parts[2]], Seq::empty());
    assert(seq![parts[0]] + seq![parts[1], parts[2]] =~= parts);
    assert(seq![parts[1]] + seq![parts[2]] =~= seq![parts[1], parts[2]]);
    assert(text::concat(parts) =~= parts[0] + parts[1] + parts[2]);
}

/// An answer that decides nothing is about the obligation that was solved, tells the size
/// of its problem and the reasons, and carries no seal.
pub proof fn law_undecided_answers_tell_why(
    solve: TypedSolve,
    verification: TypedChcPdrFullVerification,
    reason: Seq<char>,
    diagnostic: Seq<char>,
    verdict_reason: Seq<char>,
)
    requires
        solve.undecided_by(verification, reason, diagnostic, verdict_reason),
    ensures
        verification.seal() is None,
        verification.route == solve.normalized.route,
        verification.artifact_directory@ == solve.artifact_directory@,
        verification.outcome@.obligation_id == solve.obligation.obligation_id@,
        verification.outcome@.stats.relation_count == solve.obligation.vc.relations.len(),
        verification.outcome@.stats.clause_count == solve.obligation.vc.rules.len(),
        verification.outcome@.diagnostics.len() == 1,
        verification.outcome@.diagnostics[0] == diagnostic,
        verification.outcome@.status matches StatusModel::Unknown(own) && own == reason,
        verification.verdict matches FullVerificationVerdict::Unknown { reason: own } && own@
            == verdict_reason,
{
}

/// Whether a proof run proves an input: it is safe, its engine accepts it as a proof, its
/// certificate names the digest of this very input, and it comes with an invariant in the
/// strict form.
pub open spec fn proves<H: Fn(&[u8]) -> EvidenceHash>(
    sha256: H,
    run: ProofRun,
    input: Seq<char>,
) -> bool {
    &&& run.result is Safe
    &&& run.certificate.accepted_as_proof
    &&& run.certificate.quantifier_free_invariant_model is Some
    &&& exists|input_hash: HashModel| #[trigger]
        evidence::digests(sha256, vstd::utf8::encode_utf8(input), input_hash)
            && run.certificate.normalized_input_sha256@ == input_hash.value
}

/// Whether a response is undecided for a reason and is no failure.
pub open spec fn is_open(verification: TypedChcPdrFullVerification, reason: Seq<char>) -> bool {
    &&& verification.outcome@.status matches StatusModel::Unknown(own) && own == reason
    &&& !(verification.verdict is Failed)
}

/// An invariant is transported exactly where its run proves the input of the solve. The
/// response is then open: until the fresh replay, or for the reason of its verdict.
pub proof fn law_proving_runs_are_transported<H, L, P>(
    solve: TypedSolve,
    sha256: H,
    link: L,
    publish: P,
    run: ProofRun,
    step: Option<TypedChcPdrFullVerification>,
) where
    H: Fn(&[u8]) -> EvidenceHash,
    L: Fn(&MirChcPdrObligation, &CandidateBytes) -> Option<ChcPdrProofEvidence>,
    P: Fn(&ArtifactBytes) -> Option<FullVerificationArtifact>,

    requires
        lanes::transports(solve, sha256, link, publish, run, step),
    ensures
        step is Some ==> proves(sha256, run, solve.normalized.normalized_input@),
        evidence::settled(sha256) && proves(sha256, run, solve.normalized.normalized_input@)
            ==> step is Some,
        step matches Some(verification) ==> match verification.verdict {
            FullVerificationVerdict::Unknown { reason } => is_open(verification, reason@),
            _ => is_open(verification, solve.wording.pdr_invariant@),
        },
        step matches Some(verification) ==> verification.seal() is None
            && verification.outcome@.obligation_id == solve.obligation.obligation_id@,
{
    if let Some(verification) = step {
        solve::lemma_transport_is_sound(solve, sha256, link, publish, run, verification);
    }
}

/// A validated invariant of the search for one is transported exactly where the run that
/// it was given to proves the input; what was not validated is never transported.
pub proof fn law_loop_invariants_are_validated<H, L, P>(
    solve: TypedSolve,
    sha256: H,
    link: L,
    publish: P,
    lane: Option<LoopLaneRun>,
    step: Option<TypedChcPdrFullVerification>,
) where
    H: Fn(&[u8]) -> EvidenceHash,
    L: Fn(&MirChcPdrObligation, &CandidateBytes) -> Option<ChcPdrProofEvidence>,
    P: Fn(&ArtifactBytes) -> Option<FullVerificationArtifact>,

    requires
        lanes::follows_loop_lane(solve, sha256, link, publish, lane, step),
    ensures
        step is Some ==> (lane matches Some(found) && found.validated && (found.run matches Some(
            run,
        ) && proves(sha256, run, solve.normalized.normalized_input@))),
        evidence::settled(sha256) && (lane matches Some(found) && found.validated && (
        found.run matches Some(run) && proves(sha256, run, solve.normalized.normalized_input@)))
            ==> step is Some,
{
    if let Some(found) = lane {
        if let Some(run) = found.run {
            if found.validated {
                law_proving_runs_are_transported(solve, sha256, link, publish, run, step);
            }
        }
    }
}

/// What follows from an exhaustive search: an answer where it ran out of time, a candidate
/// of validity where it found a problem safe that has at least two predicates, and
/// otherwise the next lane, unless it found an error derivation.
pub proof fn law_searches_are_concluded<H, L, P>(
    solve: TypedSolve,
    sha256: H,
    link: L,
    publish: P,
    decision: Option<AcyclicDecision>,
    step: Option<TypedChcPdrFullVerification>,
) where
    H: Fn(&[u8]) -> EvidenceHash,
    L: Fn(&MirChcPdrObligation, &CandidateBytes) -> Option<ChcPdrProofEvidence>,
    P: Fn(&ArtifactBytes) -> Option<FullVerificationArtifact>,

    requires
        lanes::follows_search(solve, sha256, link, publish, decision, step),
    ensures
        decision is None ==> (step matches Some(verification) && verification.verdict is Unknown
            && verification.outcome@.status is Unknown),
        decision == Some(AcyclicDecision::Inconclusive) ==> step is None,
        decision == Some(AcyclicDecision::Safe) ==> (step is Some
            <==> solve.problem@.predicates.len() >= 2),
        decision == Some(AcyclicDecision::Safe) ==> (step matches Some(verification) ==> is_open(
            verification,
            solve.wording.chc_validity@,
        )),
        decision matches Some(AcyclicDecision::Unsafe(_)) ==> step is Some,
{
    if decision == Some(AcyclicDecision::Safe) {
        if let Some(verification) = step {
            solve::lemma_search_is_sound(
                solve,
                sha256,
                link,
                publish,
                decision,
                verification,
            );
        }
    }
}

/// What follows from a proof run: its error where it failed, the next lane and its own
/// reason where it did not decide, and an answer otherwise. A safe run that does not prove
/// the input is no candidate.
pub proof fn law_runs_are_concluded<H, L, P>(
    solve: TypedSolve,
    sha256: H,
    link: L,
    publish: P,
    run: Option<Result<ProofRun, String>>,
    step: NativeSolveResult<RunStep>,
) where
    H: Fn(&[u8]) -> EvidenceHash,
    L: Fn(&MirChcPdrObligation, &CandidateBytes) -> Option<ChcPdrProofEvidence>,
    P: Fn(&ArtifactBytes) -> Option<FullVerificationArtifact>,

    requires
        lanes::follows_run(solve, sha256, link, publish, run, step),
    ensures
        step is Err <==> (run matches Some(run) && run is Err),
        (step matches Ok(RunStep::Undecided(reason)) && (run matches Some(Ok(own)) && (
        own.result matches VerifiedChcResult::Unknown { reason: told } && reason@ == told@))) <==> (
        step matches Ok(RunStep::Undecided(_))),
        (run matches Some(Ok(own)) && own.result is Unknown) ==> (step matches Ok(
            RunStep::Undecided(_),
        )),
        step matches Ok(RunStep::Answered(verification)) ==> {
            &&& verification.verdict is Proved ==> (run matches Some(Ok(own)) && proves(
                sha256,
                own,
                solve.normalized.normalized_input@,
            ))
            &&& verification.verdict is Failed ==> (run matches Some(Ok(own)) && own.result
                is Unsafe)
            &&& run is None || (run matches Some(Ok(own)) && own.result is Unrecognized)
                ==> verification.verdict is Unknown && verification.outcome@.status is Unknown
        },
{
    if let Ok(RunStep::Answered(verification)) = step {
        if let Some(Ok(own)) = run {
            if lanes::transports(solve, sha256, link, publish, own, Some(verification)) {
                law_proving_runs_are_transported(
                    solve,
                    sha256,
                    link,
                    publish,
                    own,
                    Some(verification),
                );
            }
        }
    }
}

/// A plain solve reports what its engine answered, for the obligation and with the size of
/// its problem: a proof as open until its fresh replay, an undecided answer with the reason
/// that the engine gave.
pub proof fn law_plain_answers_are_reported<H: Fn(&[u8]) -> EvidenceHash>(
    obligation: MirChcPdrObligation,
    options: ChcPdrSolveOptions,
    normalized: NativeTypedChcPdrNormalizedInput,
    lowering: TypedChcLoweringAccounting,
    wording: ReplayWording,
    sha256: H,
    verdict: AyVerdict,
    outcome: OutcomeModel,
)
    requires
        solve::interprets(
            obligation,
            options,
            normalized,
            lowering,
            wording,
            sha256,
            verdict,
            outcome,
        ),
    ensures
        outcome.obligation_id == obligation.obligation_id@,
        outcome.stats.relation_count == obligation.vc.relations.len(),
        outcome.stats.clause_count == obligation.vc.rules.len(),
        outcome.diagnostics.len() == 1,
        outcome.status is Refuted ==> verdict is Violated,
        verdict is Proved ==> outcome.status == StatusModel::Unknown(wording.pdr_invariant@),
        verdict matches AyVerdict::Unknown { detail: Some(detail) } ==> outcome.status
            == StatusModel::Unknown(detail@),
{
}

/// A plain solve runs the proof engine alone exactly where it is asked for by name.
pub proof fn law_plain_solves_run_the_engine_asked_for(engine: ChcPdrEngine)
    ensures
        solve::plain_engine(engine) == PlainEngine::Pdr <==> engine == ChcPdrEngine::Pdr,
{
}

/// An obligation whose query target no rule derives is answered exactly where it comes from
/// no bundle or its producer claims that no rule was dropped. The answer is a candidate of
/// validity, or open for the reason of its verdict, and never a failure.
pub proof fn law_underivable_targets_are_credited<H, L, P>(
    obligation: MirChcPdrObligation,
    normalized: NativeTypedChcPdrNormalizedInput,
    cache_key: FullVerificationCacheKey,
    wording: ReplayWording,
    sha256: H,
    link: L,
    publish: P,
    answer: NativeSolveResult<TypedChcPdrFullVerification>,
) where
    H: Fn(&[u8]) -> EvidenceHash,
    L: Fn(&MirChcPdrObligation, &CandidateBytes) -> Option<ChcPdrProofEvidence>,
    P: Fn(&ArtifactBytes) -> Option<FullVerificationArtifact>,

    requires
        solve::answers_trivially(
            obligation,
            normalized,
            cache_key,
            wording,
            sha256,
            link,
            publish,
            answer,
        ),
    ensures
        answer is Ok <==> match obligation.native_metadata {
            None => true,
            Some(metadata) => metadata.structural_reachability_complete,
        },
        answer matches Ok(verification) ==> {
            &&& is_open(verification, wording.chc_validity@)
            &&& verification.outcome@.obligation_id == obligation.obligation_id@
            &&& verification.route == TypedChcPdrRoute::TriviallySafe
            &&& verification.seal() is None
        },
        answer matches Err(fault) ==> fault@ is Unsupported,
{
    if let Ok(verification) = answer {
        let (input_hash, found) = choose|input_hash: HashModel, found: CandidateDocuments|
            #[trigger] evidence::digests(
                sha256,
                vstd::utf8::encode_utf8(normalized.normalized_input@),
                input_hash,
            ) && candidates::trivial_documents(
                sha256,
                obligation,
                input_hash,
                obligation.size(),
                found,
            ) && #[trigger] candidates::documented_verdict(
                sha256,
                link,
                publish,
                obligation,
                normalized,
                cache_key.key@,
                obligation.size(),
                ChcPdrProofKind::ChcValidity,
                found,
                None,
                verification.verdict,
            );
        let candidate = choose|candidate: CandidateBytes|
            verdicts::candidate_of(
                obligation.obligation_id@,
                ChcPdrProofKind::ChcValidity,
                obligation.size(),
                normalized.normalized_input@,
                found,
                None,
                candidate,
            ) && #[trigger] verdicts::candidate_verdict(
                sha256,
                link,
                publish,
                obligation,
                normalized,
                cache_key.key@,
                candidate,
                verification.verdict,
            );
        transport_laws::law_candidates_become_proofs(
            sha256,
            link,
            publish,
            obligation,
            normalized,
            cache_key.key@,
            candidate,
            verification.verdict,
        );
    }
}

/// Whether a lane's answer is an invariant that was validated and whose run proves the
/// input.
pub open spec fn is_proving_lane<H: Fn(&[u8]) -> EvidenceHash>(
    sha256: H,
    lane: Option<LoopLaneRun>,
    input: Seq<char>,
) -> bool {
    lane matches Some(found) && found.validated && (found.run matches Some(run) && proves(
        sha256,
        run,
        input,
    ))
}

/// Whether a problem has a loop of predicates.
pub open spec fn loops(problem: ProblemModel) -> bool {
    exists|walk: Seq<int>| #[trigger] grounding_laws::is_loop(problem, walk)
}

/// A loop invariant is sought exactly where the problem has a loop: without one the lane
/// concludes nothing, and with one it concludes what the search for it answered.
pub proof fn law_loop_invariants_are_sought_in_loops<H, L, P, W>(
    solve: TypedSolve,
    sha256: H,
    link: L,
    publish: P,
    loop_lane: W,
    step: Option<TypedChcPdrFullVerification>,
) where
    H: Fn(&[u8]) -> EvidenceHash,
    L: Fn(&MirChcPdrObligation, &CandidateBytes) -> Option<ChcPdrProofEvidence>,
    P: Fn(&ArtifactBytes) -> Option<FullVerificationArtifact>,
    W: Fn(&ChcProblem, SolveTimeout) -> Option<LoopLaneRun>,

    requires
        solve::runs_loop_lane(solve, sha256, link, publish, loop_lane, step),
    ensures
        step is Some ==> loops(solve.problem@) && exists|
            limit: SolveTimeout,
            lane: Option<LoopLaneRun>,
        | #[trigger]
            loop_lane.ensures((&solve.problem, limit), lane) && is_proving_lane(
                sha256,
                lane,
                solve.normalized.normalized_input@,
            ),
        evidence::settled(sha256) && loops(solve.problem@) && (forall|
            limit: SolveTimeout,
            lane: Option<LoopLaneRun>,
        | #[trigger]
            loop_lane.ensures((&solve.problem, limit), lane) ==> is_proving_lane(
                sha256,
                lane,
                solve.normalized.normalized_input@,
            )) ==> step is Some,
        step matches Some(verification) ==> verification.seal() is None
            && verification.outcome@.status is Unknown && !(verification.verdict is Failed),
{
    grounding_laws::law_cycles_are_loops(solve.problem@);
    if loops(solve.problem@) {
        let limit = evidence::watchdog_limit(evidence::effective_timeout(solve.options));
        let lane = choose|lane: Option<LoopLaneRun>| #[trigger]
            loop_lane.ensures((&solve.problem, limit), lane) && lanes::follows_loop_lane(
                solve,
                sha256,
                link,
                publish,
                lane,
                step,
            );
        assert(loop_lane.ensures((&solve.problem, limit), lane));
        law_loop_invariants_are_validated(solve, sha256, link, publish, lane, step);
        if let Some(found) = lane {
            if let Some(run) = found.run {
                if found.validated {
                    law_proving_runs_are_transported(solve, sha256, link, publish, run, step);
                }
            }
        }
    }
}

/// Where the exhaustive search never decides, the lanes come in turn: in a problem with a
/// loop a proving invariant answers the solve; in one without, a proving run answers it,
/// and a run that decides nothing leaves the solve open for the run's own reason.
pub proof fn law_lanes_come_in_turn<H, L, P, D, W, S, R>(
    solve: TypedSolve,
    sha256: H,
    link: L,
    publish: P,
    decide: D,
    loop_lane: W,
    search: S,
    prove: R,
    answer: NativeSolveResult<TypedChcPdrFullVerification>,
) where
    H: Fn(&[u8]) -> EvidenceHash,
    L: Fn(&MirChcPdrObligation, &CandidateBytes) -> Option<ChcPdrProofEvidence>,
    P: Fn(&ArtifactBytes) -> Option<FullVerificationArtifact>,
    D: Fn(&ChcProblem, SolveTimeout) -> Option<AcyclicDecision>,
    W: Fn(&ChcProblem, SolveTimeout) -> Option<LoopLaneRun>,
    S: Fn(&ChcProblem, u32) -> Option<AcyclicDecision>,
    R: Fn(&ChcProblem, SolveTimeout) -> Option<Result<ProofRun, String>>,

    requires
        evidence::settled(sha256),
        solve::answers_full(
            solve,
            sha256,
            link,
            publish,
            decide,
            loop_lane,
            search,
            prove,
            answer,
        ),
        forall|limit: SolveTimeout, decision: Option<AcyclicDecision>| #[trigger]
            decide.ensures((&solve.problem, limit), decision) ==> decision == Some(
                AcyclicDecision::Inconclusive,
            ),
    ensures
        loops(solve.problem@) && (forall|limit: SolveTimeout, lane: Option<LoopLaneRun>| #[trigger]
            loop_lane.ensures((&solve.problem, limit), lane) ==> is_proving_lane(
                sha256,
                lane,
                solve.normalized.normalized_input@,
            )) ==> (answer matches Ok(verification) && verification.outcome@.status is Unknown
            && !(verification.verdict is Failed)),
        !loops(solve.problem@) && (forall|
            limit: SolveTimeout,
            run: Option<Result<ProofRun, String>>,
        | #[trigger]
            prove.ensures((&solve.problem, limit), run) ==> (run matches Some(Ok(own)) && proves(
                sha256,
                own,
                solve.normalized.normalized_input@,
            ))) ==> (answer matches Ok(verification) && match verification.verdict {
            FullVerificationVerdict::Unknown { reason } => is_open(verification, reason@),
            _ => is_open(verification, solve.wording.pdr_invariant@),
        }),
        !loops(solve.problem@) && (forall|
            limit: SolveTimeout,
            run: Option<Result<ProofRun, String>>,
        | #[trigger]
            prove.ensures((&solve.problem, limit), run) ==> (run matches Some(Ok(own))
                && own.result is Unknown)) ==> exists|
            limit: SolveTimeout,
            run: Option<Result<ProofRun, String>>,
        | #[trigger]
            prove.ensures((&solve.problem, limit), run) && (run matches Some(Ok(own)) && (
            own.result matches VerifiedChcResult::Unknown { reason } && (answer matches Ok(
                verification,
            ) && is_open(verification, reason@)))),
{
    let limit = evidence::watchdog_limit(evidence::effective_timeout(solve.options));
    grounding_laws::law_cycles_are_loops(solve.problem@);
    let (decision, step) = choose|
        decision: Option<AcyclicDecision>,
        step: Option<TypedChcPdrFullVerification>,
    |
        #[trigger] decide.ensures((&solve.problem, limit), decision)
            && #[trigger] lanes::follows_search(solve, sha256, link, publish, decision, step)
            && match step {
            Some(verification) => answer == Ok::<TypedChcPdrFullVerification, NativeSolveError>(
                verification,
            ),
            None => solve::answers_open_search(
                solve,
                sha256,
                link,
                publish,
                loop_lane,
                search,
                prove,
                answer,
            ),
        };
    assert(decision == Some(AcyclicDecision::Inconclusive));
    assert(step is None);
    let found = choose|step: Option<TypedChcPdrFullVerification>| #[trigger]
        solve::runs_loop_lane(solve, sha256, link, publish, loop_lane, step) && match step {
            Some(verification) => answer == Ok::<TypedChcPdrFullVerification, NativeSolveError>(
                verification,
            ),
            None => solve::answers_run(
                solve,
                sha256,
                link,
                publish,
                loop_lane,
                search,
                prove,
                answer,
            ),
        };
    law_loop_invariants_are_sought_in_loops(solve, sha256, link, publish, loop_lane, found);
    if !loops(solve.problem@) {
        assert(found is None);
        let (run, next) = choose|
            run: Option<Result<ProofRun, String>>,
            next: NativeSolveResult<RunStep>,
        |
            #[trigger] prove.ensures((&solve.problem, limit), run)
                && #[trigger] lanes::follows_run(solve, sha256, link, publish, run, next)
                && match next {
                Err(fault) => error::failure(answer) == Some(fault@),
                Ok(RunStep::Answered(verification)) => answer == Ok::<
                    TypedChcPdrFullVerification,
                    NativeSolveError,
                >(verification),
                Ok(RunStep::Undecided(reason)) => solve::answers_undecided_run(
                    solve,
                    sha256,
                    link,
                    publish,
                    loop_lane,
                    search,
                    reason@,
                    answer,
                ),
            };
        if let Some(Ok(own)) = run {
            if proves(sha256, own, solve.normalized.normalized_input@) {
                let verification = next->Ok_0->Answered_0;
                if lanes::transports(solve, sha256, link, publish, own, None) {
                    law_proving_runs_are_transported(solve, sha256, link, publish, own, None);
                }
                law_proving_runs_are_transported(
                    solve,
                    sha256,
                    link,
                    publish,
                    own,
                    Some(verification),
                );
            }
            if own.result is Unknown {
                let reason = next->Ok_0->Undecided_0@;
                let again = choose|step: Option<TypedChcPdrFullVerification>| #[trigger]
                    solve::runs_loop_lane(solve, sha256, link, publish, loop_lane, step)
                        && match step {
                        Some(verification) => answer == Ok::<
                            TypedChcPdrFullVerification,
                            NativeSolveError,
                        >(verification),
                        None => solve::answers_last(solve, sha256, search, reason, answer),
                    };
                assert(again is None);
                assert(prove.ensures((&solve.problem, limit), run));
            }
        }
    }
}

} // verus!
