//! The solve of a typed obligation from end to end.
use serde_json::Value;
use vstd::prelude::*;
use vstd::string::*;

use crate::candidates;
use crate::candidates::{typed_trivial_safe_outcome, typed_trivial_safe_verdict};
use crate::chc::ChcProblem;
use crate::documents;
use crate::documents::replayed_counterexample_value;
use crate::error;
use crate::error::{ErrorModel, NativeSolveError, NativeSolveResult};
use crate::evidence;
use crate::evidence::{
    effective_typed_chc_timeout, fail_closed_lowering_reasons, fail_closed_lowering_sites,
    refuted_outcome, undecided_outcome, watchdog_ceiling, ArtifactBytes, ChcPdrCexVerification,
    ChcPdrEngine, ChcPdrSolveOptions, ChcPdrSolveOutcome, EvidenceHash, HashModel,
    MirChcPdrObligation, OutcomeModel, SolveTimeout, StatusModel, WitnessModel,
};
use crate::graph;
use crate::identity;
use crate::identity::{
    prepare_validated_typed_chc_pdr_input, typed_artifact_directory,
    typed_full_verification_cache_key, BuildIdentity, FullVerificationCacheKey,
    FullVerificationCacheKeyParts, NativeTypedChcPdrNormalizedInput, PreparedTypedChcPdrInput,
    TypedChcPdrRoute,
};
use crate::json;
use crate::ladder;
use crate::ladder::try_bounded_unroll_refutation_lane;
use crate::lanes;
use crate::lanes::{
    conclude_loop_lane, conclude_run, conclude_search, give_up, AcyclicDecision, LoopLaneRun,
    ProofRun, RunStep, TypedSolve,
};
use crate::lowering;
use crate::lowering::TypedChcLoweringAccounting;
use crate::seal;
use crate::seal::{Admission, TypedChcPdrFullVerification};
use crate::text;
use crate::text::{concat4, concat5};
use crate::verdicts;
use crate::verdicts::{
    fail_closed_lowering_demotion_reason, typed_chc_pdr_refutation_witness, CandidateBytes,
    ChcPdrProofEvidence, ChcPdrProofKind, FullVerificationArtifact, FullVerificationVerdict, ReplayWording,
};

verus! {

/// What every answer to an obligation keeps: it carries no seal, it refutes only
/// an obligation without unsupported constructs, its verdict fails exactly where
/// its outcome refutes, and a proof candidate is reported as undecided.
pub open spec fn sound_response(
    obligation: MirChcPdrObligation,
    wording: ReplayWording,
    verification: TypedChcPdrFullVerification,
) -> bool {
    &&& verification.seal() is None
    &&& verification.outcome.status@ is Refuted ==> obligation.fail_closed_sites() == 0
    &&& verification.outcome.status@ is Refuted ==> (obligation.native_metadata matches Some(
        metadata,
    ) ==> metadata.fail_closed_lowering_site_count == 0)
    &&& verification.outcome.status@ is Refuted <==> verification.verdict is Failed
    &&& verification.verdict is Proved ==> {
        ||| verification.outcome.status@ == StatusModel::Unknown(wording.chc_validity@)
        ||| verification.outcome.status@ == StatusModel::Unknown(wording.pdr_invariant@)
    }
}

/// What every answer to a solve keeps.
pub open spec fn sound_answer(solve: TypedSolve, verification: TypedChcPdrFullVerification) -> bool {
    solve.answered_by(verification) && sound_response(
        *solve.obligation,
        *solve.wording,
        verification,
    )
}

/// A candidate never becomes a failure.
pub proof fn lemma_candidate_never_fails<H, L, P>(
    sha256: H,
    link: L,
    publish: P,
    obligation: MirChcPdrObligation,
    normalized: NativeTypedChcPdrNormalizedInput,
    cache_key: HashModel,
    candidate: CandidateBytes,
    verdict: FullVerificationVerdict,
) where
    H: Fn(&[u8]) -> EvidenceHash,
    L: Fn(&MirChcPdrObligation, &CandidateBytes) -> Option<ChcPdrProofEvidence>,
    P: Fn(&ArtifactBytes) -> Option<FullVerificationArtifact>,

    requires
        verdicts::candidate_verdict(
            sha256,
            link,
            publish,
            obligation,
            normalized,
            cache_key,
            candidate,
            verdict,
        ),
    ensures
        !(verdict is Failed),
{
}

/// What the exhaustive search leads to is sound.
pub proof fn lemma_search_is_sound<H, L, P>(
    solve: TypedSolve,
    sha256: H,
    link: L,
    publish: P,
    decision: Option<AcyclicDecision>,
    verification: TypedChcPdrFullVerification,
) where
    H: Fn(&[u8]) -> EvidenceHash,
    L: Fn(&MirChcPdrObligation, &CandidateBytes) -> Option<ChcPdrProofEvidence>,
    P: Fn(&ArtifactBytes) -> Option<FullVerificationArtifact>,

    requires
        lanes::follows_search(solve, sha256, link, publish, decision, Some(verification)),
    ensures
        sound_answer(solve, verification),
{
    if decision == Some(AcyclicDecision::Safe) {
        let (_, found) = choose|input_hash: HashModel, found: verdicts::CandidateDocuments|
            #[trigger] evidence::digests(
                sha256,
                vstd::utf8::encode_utf8(solve.normalized.normalized_input@),
                input_hash,
            ) && candidates::acyclic_documents(
                sha256,
                solve.problem@.predicates.len(),
                input_hash,
                solve.obligation.size(),
                found,
            ) && #[trigger] candidates::documented_verdict(
                sha256,
                link,
                publish,
                *solve.obligation,
                solve.normalized,
                solve.cache_key.key@,
                solve.obligation.size(),
                verdicts::ChcPdrProofKind::ChcValidity,
                found,
                None,
                verification.verdict,
            );
        lemma_documented_never_fails(
            sha256,
            link,
            publish,
            solve,
            verdicts::ChcPdrProofKind::ChcValidity,
            found,
            None,
            verification.verdict,
        );
    }
}

pub proof fn lemma_documented_never_fails<H, L, P>(
    sha256: H,
    link: L,
    publish: P,
    solve: TypedSolve,
    proof_kind: verdicts::ChcPdrProofKind,
    found: verdicts::CandidateDocuments,
    strict_model: Option<(usize, Seq<u8>)>,
    verdict: FullVerificationVerdict,
) where
    H: Fn(&[u8]) -> EvidenceHash,
    L: Fn(&MirChcPdrObligation, &CandidateBytes) -> Option<ChcPdrProofEvidence>,
    P: Fn(&ArtifactBytes) -> Option<FullVerificationArtifact>,

    requires
        candidates::documented_verdict(
            sha256,
            link,
            publish,
            *solve.obligation,
            solve.normalized,
            solve.cache_key.key@,
            solve.obligation.size(),
            proof_kind,
            found,
            strict_model,
            verdict,
        ),
    ensures
        !(verdict is Failed),
{
    let candidate = choose|candidate: CandidateBytes|
        verdicts::candidate_of(
            solve.obligation.obligation_id@,
            proof_kind,
            solve.obligation.size(),
            solve.normalized.normalized_input@,
            found,
            strict_model,
            candidate,
        ) && #[trigger] verdicts::candidate_verdict(
            sha256,
            link,
            publish,
            *solve.obligation,
            solve.normalized,
            solve.cache_key.key@,
            candidate,
            verdict,
        );
    lemma_candidate_never_fails(
        sha256,
        link,
        publish,
        *solve.obligation,
        solve.normalized,
        solve.cache_key.key@,
        candidate,
        verdict,
    );
}

/// A transported invariant makes a sound answer.
pub proof fn lemma_transport_is_sound<H, L, P>(
    solve: TypedSolve,
    sha256: H,
    link: L,
    publish: P,
    run: ProofRun,
    verification: TypedChcPdrFullVerification,
) where
    H: Fn(&[u8]) -> EvidenceHash,
    L: Fn(&MirChcPdrObligation, &CandidateBytes) -> Option<ChcPdrProofEvidence>,
    P: Fn(&ArtifactBytes) -> Option<FullVerificationArtifact>,

    requires
        lanes::transports(solve, sha256, link, publish, run, Some(verification)),
    ensures
        sound_answer(solve, verification),
{
    let proves = choose|proves: bool| #[trigger]
        candidates::proves_input(
            sha256,
            run.result,
            run.certificate,
            solve.normalized.normalized_input@,
            proves,
        ) && candidates::transported(run.result, run.certificate, proves) is Some;
    let strict_model = candidates::transported(run.result, run.certificate, proves)->0;
    let found = choose|found: verdicts::CandidateDocuments|
        candidates::run_documents(
            sha256,
            run.certificate,
            strict_model.1,
            solve.obligation.size(),
            found,
        ) && #[trigger] candidates::documented_verdict(
            sha256,
            link,
            publish,
            *solve.obligation,
            solve.normalized,
            solve.cache_key.key@,
            solve.obligation.size(),
            verdicts::ChcPdrProofKind::PdrInvariant,
            found,
            Some((strict_model.0, strict_model.1.bytes@)),
            verification.verdict,
        );
    lemma_documented_never_fails(
        sha256,
        link,
        publish,
        solve,
        verdicts::ChcPdrProofKind::PdrInvariant,
        found,
        Some((strict_model.0, strict_model.1.bytes@)),
        verification.verdict,
    );
}

/// What a proof run leads to is sound.
pub proof fn lemma_run_is_sound<H, L, P>(
    solve: TypedSolve,
    sha256: H,
    link: L,
    publish: P,
    run: Option<Result<ProofRun, String>>,
    verification: TypedChcPdrFullVerification,
) where
    H: Fn(&[u8]) -> EvidenceHash,
    L: Fn(&MirChcPdrObligation, &CandidateBytes) -> Option<ChcPdrProofEvidence>,
    P: Fn(&ArtifactBytes) -> Option<FullVerificationArtifact>,

    requires
        lanes::follows_run(
            solve,
            sha256,
            link,
            publish,
            run,
            Ok(RunStep::Answered(verification)),
        ),
    ensures
        sound_answer(solve, verification),
{
    if let Some(Ok(run)) = run {
        if lanes::transports(solve, sha256, link, publish, run, Some(verification)) {
            lemma_transport_is_sound(solve, sha256, link, publish, run, verification);
        }
    }
}

/// Whether an answer is the one after all proof lanes failed to decide, for a
/// reason.
pub open spec fn answers_last<H, S>(
    solve: TypedSolve,
    sha256: H,
    search: S,
    reason: Seq<char>,
    answer: NativeSolveResult<TypedChcPdrFullVerification>,
) -> bool where
    H: Fn(&[u8]) -> EvidenceHash,
    S: Fn(&ChcProblem, u32) -> Option<AcyclicDecision>,
 {
    exists|step: Option<TypedChcPdrFullVerification>| #[trigger]
        ladder::unroll_lane(solve, sha256, search, step) && match step {
            Some(verification) => answer == Ok::<TypedChcPdrFullVerification, NativeSolveError>(
                verification,
            ),
            None => answer matches Ok(verification) && lanes::gave_up(solve, reason, verification),
        }
}

fn finish_with_ladder<H, S>(solve: &TypedSolve, reason: &str, search: &S, sha256: &H) -> (answer:
    NativeSolveResult<TypedChcPdrFullVerification>) where
    H: Fn(&[u8]) -> EvidenceHash,
    S: Fn(&ChcProblem, u32) -> Option<AcyclicDecision>,

    requires
        solve.problem@.names_declared(),
        evidence::total(*sha256),
        forall|copy: &ChcProblem, k: u32| #[trigger] search.requires((copy, k)),
    ensures
        answers_last(*solve, *sha256, *search, reason@, answer),
        answer matches Ok(verification) ==> sound_answer(*solve, verification),
{
    let step = try_bounded_unroll_refutation_lane(solve, search, sha256);
    let ghost kept = step;
    assert(ladder::unroll_lane(*solve, *sha256, *search, kept));
    match step {
        Some(verification) => Ok(verification),
        None => Ok(give_up(solve, reason)),
    }
}

/// Whether an answer is the one after the proof run did not decide, for a reason:
/// the invariant of a second search for one, or what the last lane makes of it.
pub open spec fn answers_undecided_run<H, L, P, W, S>(
    solve: TypedSolve,
    sha256: H,
    link: L,
    publish: P,
    loop_lane: W,
    search: S,
    reason: Seq<char>,
    answer: NativeSolveResult<TypedChcPdrFullVerification>,
) -> bool where
    H: Fn(&[u8]) -> EvidenceHash,
    L: Fn(&MirChcPdrObligation, &CandidateBytes) -> Option<ChcPdrProofEvidence>,
    P: Fn(&ArtifactBytes) -> Option<FullVerificationArtifact>,
    W: Fn(&ChcProblem, SolveTimeout) -> Option<LoopLaneRun>,
    S: Fn(&ChcProblem, u32) -> Option<AcyclicDecision>,
 {
    exists|step: Option<TypedChcPdrFullVerification>| #[trigger]
        runs_loop_lane(solve, sha256, link, publish, loop_lane, step) && match step {
            Some(verification) => answer == Ok::<TypedChcPdrFullVerification, NativeSolveError>(
                verification,
            ),
            None => answers_last(solve, sha256, search, reason, answer),
        }
}

/// Whether a step is what becomes of the search for a loop invariant, which is
/// made for cyclic problems only.
pub open spec fn runs_loop_lane<H, L, P, W>(
    solve: TypedSolve,
    sha256: H,
    link: L,
    publish: P,
    loop_lane: W,
    step: Option<TypedChcPdrFullVerification>,
) -> bool where
    H: Fn(&[u8]) -> EvidenceHash,
    L: Fn(&MirChcPdrObligation, &CandidateBytes) -> Option<ChcPdrProofEvidence>,
    P: Fn(&ArtifactBytes) -> Option<FullVerificationArtifact>,
    W: Fn(&ChcProblem, SolveTimeout) -> Option<LoopLaneRun>,
 {
    if graph::has_cycle(solve.problem@) {
        exists|lane: Option<LoopLaneRun>| #[trigger]
            loop_lane.ensures(
                (
                    &solve.problem,
                    evidence::watchdog_limit(evidence::effective_timeout(solve.options)),
                ),
                lane,
            ) && lanes::follows_loop_lane(solve, sha256, link, publish, lane, step)
    } else {
        step is None
    }
}

/// Searches for a loop invariant, where the problem is cyclic.
pub fn try_ic3_loop_lane<H, L, P, W>(
    solve: &TypedSolve,
    loop_lane: &W,
    sha256: &H,
    link: &L,
    publish: &P,
) -> (step: Option<TypedChcPdrFullVerification>) where
    H: Fn(&[u8]) -> EvidenceHash,
    L: Fn(&MirChcPdrObligation, &CandidateBytes) -> Option<ChcPdrProofEvidence>,
    P: Fn(&ArtifactBytes) -> Option<FullVerificationArtifact>,
    W: Fn(&ChcProblem, SolveTimeout) -> Option<LoopLaneRun>,

    requires
        solve.problem@.names_declared(),
        evidence::total(*sha256),
        forall|candidate: &CandidateBytes| #[trigger] link.requires((solve.obligation, candidate)),
        forall|bytes: &ArtifactBytes| #[trigger] publish.requires((bytes,)),
        forall|limit: SolveTimeout| #[trigger] loop_lane.requires((&solve.problem, limit)),
    ensures
        runs_loop_lane(*solve, *sha256, *link, *publish, *loop_lane, step),
        step matches Some(verification) ==> sound_answer(*solve, verification),
{
    if !solve.problem.has_cycles() {
        return None;
    }
    let ceiling = watchdog_ceiling(effective_typed_chc_timeout(&solve.options));
    let lane = loop_lane(&solve.problem, ceiling);
    assert(loop_lane.ensures((&solve.problem, ceiling), lane));
    let step = conclude_loop_lane(solve, &lane, sha256, link, publish);
    proof {
        if let Some(LoopLaneRun { validated, run: Some(run) }) = lane {
            if validated && step is Some {
                lemma_transport_is_sound(*solve, *sha256, *link, *publish, run, step->0);
            }
        }
    }
    step
}

fn finish_undecided_run<H, L, P, W, S>(
    solve: &TypedSolve,
    reason: &str,
    loop_lane: &W,
    search: &S,
    sha256: &H,
    link: &L,
    publish: &P,
) -> (answer: NativeSolveResult<TypedChcPdrFullVerification>) where
    H: Fn(&[u8]) -> EvidenceHash,
    L: Fn(&MirChcPdrObligation, &CandidateBytes) -> Option<ChcPdrProofEvidence>,
    P: Fn(&ArtifactBytes) -> Option<FullVerificationArtifact>,
    W: Fn(&ChcProblem, SolveTimeout) -> Option<LoopLaneRun>,
    S: Fn(&ChcProblem, u32) -> Option<AcyclicDecision>,

    requires
        solve.problem@.names_declared(),
        evidence::total(*sha256),
        forall|candidate: &CandidateBytes| #[trigger] link.requires((solve.obligation, candidate)),
        forall|bytes: &ArtifactBytes| #[trigger] publish.requires((bytes,)),
        forall|limit: SolveTimeout| #[trigger] loop_lane.requires((&solve.problem, limit)),
        forall|copy: &ChcProblem, k: u32| #[trigger] search.requires((copy, k)),
    ensures
        answers_undecided_run(
            *solve,
            *sha256,
            *link,
            *publish,
            *loop_lane,
            *search,
            reason@,
            answer,
        ),
        answer matches Ok(verification) ==> sound_answer(*solve, verification),
{
    let step = try_ic3_loop_lane(solve, loop_lane, sha256, link, publish);
    let ghost kept = step;
    assert(runs_loop_lane(*solve, *sha256, *link, *publish, *loop_lane, kept));
    match step {
        Some(verification) => Ok(verification),
        None => finish_with_ladder(solve, reason, search, sha256),
    }
}

/// Whether an answer is the one that starts with a proof run.
pub open spec fn answers_run<H, L, P, W, S, R>(
    solve: TypedSolve,
    sha256: H,
    link: L,
    publish: P,
    loop_lane: W,
    search: S,
    prove: R,
    answer: NativeSolveResult<TypedChcPdrFullVerification>,
) -> bool where
    H: Fn(&[u8]) -> EvidenceHash,
    L: Fn(&MirChcPdrObligation, &CandidateBytes) -> Option<ChcPdrProofEvidence>,
    P: Fn(&ArtifactBytes) -> Option<FullVerificationArtifact>,
    W: Fn(&ChcProblem, SolveTimeout) -> Option<LoopLaneRun>,
    S: Fn(&ChcProblem, u32) -> Option<AcyclicDecision>,
    R: Fn(&ChcProblem, SolveTimeout) -> Option<Result<ProofRun, String>>,
 {
    exists|run: Option<Result<ProofRun, String>>, step: NativeSolveResult<RunStep>|
        #[trigger] prove.ensures(
            (
                &solve.problem,
                evidence::watchdog_limit(evidence::effective_timeout(solve.options)),
            ),
            run,
        ) && #[trigger] lanes::follows_run(solve, sha256, link, publish, run, step) && match step {
            Err(fault) => error::failure(answer) == Some(fault@),
            Ok(RunStep::Answered(verification)) => answer == Ok::<
                TypedChcPdrFullVerification,
                NativeSolveError,
            >(verification),
            Ok(RunStep::Undecided(reason)) => answers_undecided_run(
                solve,
                sha256,
                link,
                publish,
                loop_lane,
                search,
                reason@,
                answer,
            ),
        }
}

fn finish_with_run<H, L, P, W, S, R>(
    solve: &TypedSolve,
    loop_lane: &W,
    search: &S,
    prove: &R,
    sha256: &H,
    link: &L,
    publish: &P,
) -> (answer: NativeSolveResult<TypedChcPdrFullVerification>) where
    H: Fn(&[u8]) -> EvidenceHash,
    L: Fn(&MirChcPdrObligation, &CandidateBytes) -> Option<ChcPdrProofEvidence>,
    P: Fn(&ArtifactBytes) -> Option<FullVerificationArtifact>,
    W: Fn(&ChcProblem, SolveTimeout) -> Option<LoopLaneRun>,
    S: Fn(&ChcProblem, u32) -> Option<AcyclicDecision>,
    R: Fn(&ChcProblem, SolveTimeout) -> Option<Result<ProofRun, String>>,

    requires
        solve.problem@.names_declared(),
        evidence::total(*sha256),
        forall|candidate: &CandidateBytes| #[trigger] link.requires((solve.obligation, candidate)),
        forall|bytes: &ArtifactBytes| #[trigger] publish.requires((bytes,)),
        forall|limit: SolveTimeout| #[trigger] loop_lane.requires((&solve.problem, limit)),
        forall|copy: &ChcProblem, k: u32| #[trigger] search.requires((copy, k)),
        forall|limit: SolveTimeout| #[trigger] prove.requires((&solve.problem, limit)),
    ensures
        answers_run(
            *solve,
            *sha256,
            *link,
            *publish,
            *loop_lane,
            *search,
            *prove,
            answer,
        ),
        answer matches Ok(verification) ==> sound_answer(*solve, verification),
{
    let ceiling = watchdog_ceiling(effective_typed_chc_timeout(&solve.options));
    let run = prove(&solve.problem, ceiling);
    assert(prove.ensures((&solve.problem, ceiling), run));
    let step = conclude_run(solve, &run, sha256, link, publish);
    let ghost kept = step;
    assert(lanes::follows_run(*solve, *sha256, *link, *publish, run, kept));
    match step {
        Err(fault) => Err(fault),
        Ok(RunStep::Answered(verification)) => {
            proof {
                lemma_run_is_sound(*solve, *sha256, *link, *publish, run, verification);
            }
            Ok(verification)
        },
        Ok(RunStep::Undecided(reason)) => finish_undecided_run(
            solve,
            reason.as_str(),
            loop_lane,
            search,
            sha256,
            link,
            publish,
        ),
    }
}

/// Whether an answer is the one after the exhaustive search did not conclude.
pub open spec fn answers_open_search<H, L, P, W, S, R>(
    solve: TypedSolve,
    sha256: H,
    link: L,
    publish: P,
    loop_lane: W,
    search: S,
    prove: R,
    answer: NativeSolveResult<TypedChcPdrFullVerification>,
) -> bool where
    H: Fn(&[u8]) -> EvidenceHash,
    L: Fn(&MirChcPdrObligation, &CandidateBytes) -> Option<ChcPdrProofEvidence>,
    P: Fn(&ArtifactBytes) -> Option<FullVerificationArtifact>,
    W: Fn(&ChcProblem, SolveTimeout) -> Option<LoopLaneRun>,
    S: Fn(&ChcProblem, u32) -> Option<AcyclicDecision>,
    R: Fn(&ChcProblem, SolveTimeout) -> Option<Result<ProofRun, String>>,
 {
    exists|step: Option<TypedChcPdrFullVerification>| #[trigger]
        runs_loop_lane(solve, sha256, link, publish, loop_lane, step) && match step {
            Some(verification) => answer == Ok::<TypedChcPdrFullVerification, NativeSolveError>(
                verification,
            ),
            None => answers_run(
                solve,
                sha256,
                link,
                publish,
                loop_lane,
                search,
                prove,
                answer,
            ),
        }
}

/// Whether an answer is the one of the full solve: of the exhaustive search where
/// it concludes, else of the search for a loop invariant where that finds one,
/// else of the proof run and its fallback lanes.
pub open spec fn answers_full<H, L, P, D, W, S, R>(
    solve: TypedSolve,
    sha256: H,
    link: L,
    publish: P,
    decide: D,
    loop_lane: W,
    search: S,
    prove: R,
    answer: NativeSolveResult<TypedChcPdrFullVerification>,
) -> bool where
    H: Fn(&[u8]) -> EvidenceHash,
    L: Fn(&MirChcPdrObligation, &CandidateBytes) -> Option<ChcPdrProofEvidence>,
    P: Fn(&ArtifactBytes) -> Option<FullVerificationArtifact>,
    D: Fn(&ChcProblem, SolveTimeout) -> Option<AcyclicDecision>,
    W: Fn(&ChcProblem, SolveTimeout) -> Option<LoopLaneRun>,
    S: Fn(&ChcProblem, u32) -> Option<AcyclicDecision>,
    R: Fn(&ChcProblem, SolveTimeout) -> Option<Result<ProofRun, String>>,
 {
    exists|decision: Option<AcyclicDecision>, step: Option<TypedChcPdrFullVerification>|
        #[trigger] decide.ensures(
            (
                &solve.problem,
                evidence::watchdog_limit(evidence::effective_timeout(solve.options)),
            ),
            decision,
        ) && #[trigger] lanes::follows_search(solve, sha256, link, publish, decision, step)
            && match step {
            Some(verification) => answer == Ok::<TypedChcPdrFullVerification, NativeSolveError>(
                verification,
            ),
            None => answers_open_search(
                solve,
                sha256,
                link,
                publish,
                loop_lane,
                search,
                prove,
                answer,
            ),
        }
}

/// Solves a typed obligation with the outside engines: `decide` searches an acyclic
/// problem exhaustively, `loop_lane` searches for a loop invariant, `prove` makes a
/// proof run and `search` searches an unrolled copy. Each of them answers within
/// the limit that it is given, or not at all.
pub fn solve_typed_chc_pdr_full_with_ay<H, L, P, D, W, S, R>(
    solve: &TypedSolve,
    decide: &D,
    loop_lane: &W,
    search: &S,
    prove: &R,
    sha256: &H,
    link: &L,
    publish: &P,
) -> (answer: NativeSolveResult<TypedChcPdrFullVerification>) where
    H: Fn(&[u8]) -> EvidenceHash,
    L: Fn(&MirChcPdrObligation, &CandidateBytes) -> Option<ChcPdrProofEvidence>,
    P: Fn(&ArtifactBytes) -> Option<FullVerificationArtifact>,
    D: Fn(&ChcProblem, SolveTimeout) -> Option<AcyclicDecision>,
    W: Fn(&ChcProblem, SolveTimeout) -> Option<LoopLaneRun>,
    S: Fn(&ChcProblem, u32) -> Option<AcyclicDecision>,
    R: Fn(&ChcProblem, SolveTimeout) -> Option<Result<ProofRun, String>>,

    requires
        solve.problem@.names_declared(),
        evidence::total(*sha256),
        forall|candidate: &CandidateBytes| #[trigger] link.requires((solve.obligation, candidate)),
        forall|bytes: &ArtifactBytes| #[trigger] publish.requires((bytes,)),
        forall|limit: SolveTimeout| #[trigger] decide.requires((&solve.problem, limit)),
        forall|limit: SolveTimeout| #[trigger] loop_lane.requires((&solve.problem, limit)),
        forall|copy: &ChcProblem, k: u32| #[trigger] search.requires((copy, k)),
        forall|limit: SolveTimeout| #[trigger] prove.requires((&solve.problem, limit)),
    ensures
        answers_full(
            *solve,
            *sha256,
            *link,
            *publish,
            *decide,
            *loop_lane,
            *search,
            *prove,
            answer,
        ),
        answer matches Ok(verification) ==> sound_answer(*solve, verification),
{
    let ceiling = watchdog_ceiling(effective_typed_chc_timeout(&solve.options));
    let decision = decide(&solve.problem, ceiling);
    assert(decide.ensures((&solve.problem, ceiling), decision));
    let step = conclude_search(solve, &decision, sha256, link, publish);
    let ghost kept = step;
    assert(lanes::follows_search(*solve, *sha256, *link, *publish, decision, kept));
    match step {
        Some(verification) => {
            proof {
                lemma_search_is_sound(*solve, *sha256, *link, *publish, decision, verification);
            }
            return Ok(verification);
        },
        None => {},
    }
    let lane = try_ic3_loop_lane(solve, loop_lane, sha256, link, publish);
    let ghost kept_lane = lane;
    assert(runs_loop_lane(*solve, *sha256, *link, *publish, *loop_lane, kept_lane));
    match lane {
        Some(verification) => Ok(verification),
        None => finish_with_run(solve, loop_lane, search, prove, sha256, link, publish),
    }
}

/// The refusal to export a proof certificate.
pub open spec fn certificate_refusal() -> ErrorModel {
    error::unsupported_model(
        "proof_certificate_not_supported"@,
        "typed CHC/PDR solving does not yet export standalone proof certificates"@,
    )
}

/// Why a request is refused before anything is solved.
pub open spec fn request_fault(
    obligation: MirChcPdrObligation,
    options: ChcPdrSolveOptions,
) -> Option<ErrorModel> {
    match identity::obligation_fault(obligation) {
        Some(fault) => Some(fault),
        None => if options.produce_proof_certificate {
            Some(certificate_refusal())
        } else {
            None
        },
    }
}

fn admit_typed_request(obligation: &MirChcPdrObligation, options: &ChcPdrSolveOptions) -> (admitted:
    NativeSolveResult<()>)
    ensures
        error::failure(admitted) == request_fault(*obligation, *options),
{
    match identity::validate_obligation(obligation) {
        Ok(()) => {},
        Err(fault) => {
            return Err(fault);
        },
    }
    if options.produce_proof_certificate {
        return Err(
            error::unsupported(
                "proof_certificate_not_supported",
                "typed CHC/PDR solving does not yet export standalone proof certificates",
            ),
        );
    }
    Ok(())
}

/// The refusal to credit an obligation of a bundle without a rule for its query
/// target, where nothing claims that no rule was dropped.
pub open spec fn trivial_refusal(obligation: MirChcPdrObligation) -> ErrorModel {
    error::unsupported_model(
        "native_trust_ir_trivial_safe_chc_not_proof_grade"@,
        text::concat(
            seq![
                "native trust_ir obligation `"@,
                obligation.obligation_id@,
                "` has no Horn rule deriving query target `"@,
                obligation.vc.query_target@,
                "`; release proof paths must fail closed instead of treating a dropped assertion or translator under-approximation as CHC validity"@,
            ],
        ),
    )
}

fn native_trust_ir_trivial_safe_unsupported(obligation: &MirChcPdrObligation) -> (refused:
    NativeSolveError)
    ensures
        refused@ == trivial_refusal(*obligation),
{
    let detail = concat5(
        "native trust_ir obligation `",
        obligation.obligation_id.as_str(),
        "` has no Horn rule deriving query target `",
        obligation.vc.query_target.as_str(),
        "`; release proof paths must fail closed instead of treating a dropped assertion or translator under-approximation as CHC validity",
    );
    error::unsupported("native_trust_ir_trivial_safe_chc_not_proof_grade", detail.as_str())
}

/// Whether an obligation without a rule for its query target is credited: it comes
/// from no bundle, or its producer claims that no rule was dropped.
pub open spec fn trivially_credited(obligation: MirChcPdrObligation) -> bool {
    obligation.native_metadata is None || obligation.structurally_complete()
}

/// Whether an answer is the one for an obligation without a rule for its query
/// target.
pub open spec fn answers_trivially<H, L, P>(
    obligation: MirChcPdrObligation,
    normalized: NativeTypedChcPdrNormalizedInput,
    cache_key: FullVerificationCacheKey,
    wording: ReplayWording,
    sha256: H,
    link: L,
    publish: P,
    answer: NativeSolveResult<TypedChcPdrFullVerification>,
) -> bool where
    H: Fn(&[u8]) -> EvidenceHash,
    L: Fn(&MirChcPdrObligation, &CandidateBytes) -> Option<ChcPdrProofEvidence>,
    P: Fn(&ArtifactBytes) -> Option<FullVerificationArtifact>,
 {
    if trivially_credited(obligation) {
        answer matches Ok(verification) && {
            &&& verification.route == TypedChcPdrRoute::TriviallySafe
            &&& verification.cache_key == cache_key
            &&& verification.artifact_directory@ == identity::artifact_directory_of(cache_key.key@)
            &&& verification.outcome@ == candidates::trivial_outcome(obligation, wording)
            &&& candidates::trivial_verdict(
                sha256,
                link,
                publish,
                obligation,
                normalized,
                cache_key.key@,
                obligation.size(),
                verification.verdict,
            )
            &&& verification.seal() is None
        }
    } else {
        error::failure(answer) == Some(trivial_refusal(obligation))
    }
}

/// The answer for an obligation without a rule for its query target.
pub fn answer_trivially_safe<H, L, P>(
    obligation: &MirChcPdrObligation,
    normalized: &NativeTypedChcPdrNormalizedInput,
    cache_key: FullVerificationCacheKey,
    wording: &ReplayWording,
    sha256: &H,
    link: &L,
    publish: &P,
) -> (answer: NativeSolveResult<TypedChcPdrFullVerification>) where
    H: Fn(&[u8]) -> EvidenceHash,
    L: Fn(&MirChcPdrObligation, &CandidateBytes) -> Option<ChcPdrProofEvidence>,
    P: Fn(&ArtifactBytes) -> Option<FullVerificationArtifact>,

    requires
        evidence::total(*sha256),
        forall|candidate: &CandidateBytes| #[trigger] link.requires((obligation, candidate)),
        forall|bytes: &ArtifactBytes| #[trigger] publish.requires((bytes,)),
    ensures
        answers_trivially(
            *obligation,
            *normalized,
            cache_key,
            *wording,
            *sha256,
            *link,
            *publish,
            answer,
        ),
{
    if obligation.native_metadata.is_some() && !obligation.claims_complete() {
        return Err(native_trust_ir_trivial_safe_unsupported(obligation));
    }
    let outcome = typed_trivial_safe_outcome(obligation, wording);
    let artifact_directory = typed_artifact_directory(&cache_key);
    let verdict = typed_trivial_safe_verdict(
        obligation,
        obligation.stats(),
        normalized,
        &cache_key,
        sha256,
        link,
        publish,
    );
    Ok(
        TypedChcPdrFullVerification::unsealed(
            TypedChcPdrRoute::TriviallySafe,
            cache_key,
            artifact_directory,
            outcome,
            verdict,
        ),
    )
}

/// The outside engines, as [`solve_typed_chc_pdr_full_with_ay`] takes them.
pub struct SolverEngines<D, W, S, R> {
    pub decide: D,
    pub loop_lane: W,
    pub search: S,
    pub prove: R,
}

/// The outside parts that identify a solve and publish its evidence.
pub struct EvidenceLayer<N, C, K, H, L, P> {
    /// Renders a problem.
    pub render: N,
    /// Brings an input into canonical form.
    pub canonicalize: C,
    /// Makes a cache key.
    pub from_parts: K,
    /// Digests bytes.
    pub sha256: H,
    /// Links the documents of a candidate.
    pub link: L,
    /// Publishes an artifact.
    pub publish: P,
}

impl<N, C, K, H, L, P> EvidenceLayer<N, C, K, H, L, P> where
    N: Fn(&ChcProblem) -> String,
    C: Fn(&str) -> String,
    K: Fn(&FullVerificationCacheKeyParts) -> FullVerificationCacheKey,
    H: Fn(&[u8]) -> EvidenceHash,
    L: Fn(&MirChcPdrObligation, &CandidateBytes) -> Option<ChcPdrProofEvidence>,
    P: Fn(&ArtifactBytes) -> Option<FullVerificationArtifact>,
 {
    /// Whether every part takes every input.
    pub open spec fn total(self) -> bool {
        &&& forall|problem: &ChcProblem| #[trigger] self.render.requires((problem,))
        &&& forall|input: &str| #[trigger] self.canonicalize.requires((input,))
        &&& forall|parts: &FullVerificationCacheKeyParts| #[trigger]
            self.from_parts.requires((parts,))
        &&& evidence::total(self.sha256)
        &&& forall|own: &MirChcPdrObligation, candidate: &CandidateBytes| #[trigger]
            self.link.requires((own, candidate))
        &&& forall|bytes: &ArtifactBytes| #[trigger] self.publish.requires((bytes,))
    }
}

impl<D, W, S, R> SolverEngines<D, W, S, R> where
    D: Fn(&ChcProblem, SolveTimeout) -> Option<AcyclicDecision>,
    W: Fn(&ChcProblem, SolveTimeout) -> Option<LoopLaneRun>,
    S: Fn(&ChcProblem, u32) -> Option<AcyclicDecision>,
    R: Fn(&ChcProblem, SolveTimeout) -> Option<Result<ProofRun, String>>,
 {
    /// Whether every engine takes every problem.
    pub open spec fn total(self) -> bool {
        &&& forall|problem: &ChcProblem, limit: SolveTimeout| #[trigger]
            self.decide.requires((problem, limit))
        &&& forall|problem: &ChcProblem, limit: SolveTimeout| #[trigger]
            self.loop_lane.requires((problem, limit))
        &&& forall|copy: &ChcProblem, k: u32| #[trigger] self.search.requires((copy, k))
        &&& forall|problem: &ChcProblem, limit: SolveTimeout| #[trigger]
            self.prove.requires((problem, limit))
    }
}

/// Whether a cache key may be the one of a solve.
pub open spec fn key_of<K: Fn(&FullVerificationCacheKeyParts) -> FullVerificationCacheKey>(
    from_parts: K,
    build: BuildIdentity,
    obligation: MirChcPdrObligation,
    options: ChcPdrSolveOptions,
    normalized: NativeTypedChcPdrNormalizedInput,
    key: FullVerificationCacheKey,
) -> bool {
    exists|parts: FullVerificationCacheKeyParts| #[trigger]
        from_parts.ensures((&parts,), key) && identity::covers(
            build,
            obligation,
            options,
            normalized,
            parts,
        )
}

/// Whether a solve is the one of a prepared input.
pub open spec fn starts_from(
    obligation: MirChcPdrObligation,
    options: ChcPdrSolveOptions,
    prepared: PreparedTypedChcPdrInput,
    key: FullVerificationCacheKey,
    wording: ReplayWording,
    solve: TypedSolve,
) -> bool {
    &&& *solve.obligation == obligation
    &&& solve.options == options
    &&& solve.normalized == prepared.normalized
    &&& Some(solve.problem) == prepared.problem
    &&& solve.lowering == prepared.lowering
    &&& solve.cache_key == key
    &&& solve.artifact_directory@ == identity::artifact_directory_of(key.key@)
    &&& *solve.wording == wording
}

/// Whether an answer is the one for a prepared input.
pub open spec fn answers_prepared<N, C, K, H, L, P, D, W, S, R>(
    obligation: MirChcPdrObligation,
    options: ChcPdrSolveOptions,
    wording: ReplayWording,
    layer: EvidenceLayer<N, C, K, H, L, P>,
    engines: SolverEngines<D, W, S, R>,
    prepared: PreparedTypedChcPdrInput,
    key: FullVerificationCacheKey,
    answer: NativeSolveResult<TypedChcPdrFullVerification>,
) -> bool where
    H: Fn(&[u8]) -> EvidenceHash,
    L: Fn(&MirChcPdrObligation, &CandidateBytes) -> Option<ChcPdrProofEvidence>,
    P: Fn(&ArtifactBytes) -> Option<FullVerificationArtifact>,
    D: Fn(&ChcProblem, SolveTimeout) -> Option<AcyclicDecision>,
    W: Fn(&ChcProblem, SolveTimeout) -> Option<LoopLaneRun>,
    S: Fn(&ChcProblem, u32) -> Option<AcyclicDecision>,
    R: Fn(&ChcProblem, SolveTimeout) -> Option<Result<ProofRun, String>>,
 {
    match identity::route_of(obligation) {
        TypedChcPdrRoute::TriviallySafe => answers_trivially(
            obligation,
            prepared.normalized,
            key,
            wording,
            layer.sha256,
            layer.link,
            layer.publish,
            answer,
        ),
        TypedChcPdrRoute::PdrProof => exists|solve: TypedSolve|
            starts_from(obligation, options, prepared, key, wording, solve) && #[trigger]
            answers_full(
                solve,
                layer.sha256,
                layer.link,
                layer.publish,
                engines.decide,
                engines.loop_lane,
                engines.search,
                engines.prove,
                answer,
            ),
    }
}

/// Whether an answer is the one to a request for a full verification.
pub open spec fn answers_request<N, C, K, H, L, P, D, W, S, R>(
    obligation: MirChcPdrObligation,
    options: ChcPdrSolveOptions,
    build: BuildIdentity,
    wording: ReplayWording,
    layer: EvidenceLayer<N, C, K, H, L, P>,
    engines: SolverEngines<D, W, S, R>,
    answer: NativeSolveResult<TypedChcPdrFullVerification>,
) -> bool where
    N: Fn(&ChcProblem) -> String,
    C: Fn(&str) -> String,
    K: Fn(&FullVerificationCacheKeyParts) -> FullVerificationCacheKey,
    H: Fn(&[u8]) -> EvidenceHash,
    L: Fn(&MirChcPdrObligation, &CandidateBytes) -> Option<ChcPdrProofEvidence>,
    P: Fn(&ArtifactBytes) -> Option<FullVerificationArtifact>,
    D: Fn(&ChcProblem, SolveTimeout) -> Option<AcyclicDecision>,
    W: Fn(&ChcProblem, SolveTimeout) -> Option<LoopLaneRun>,
    S: Fn(&ChcProblem, u32) -> Option<AcyclicDecision>,
    R: Fn(&ChcProblem, SolveTimeout) -> Option<Result<ProofRun, String>>,
 {
    match request_fault(obligation, options) {
        Some(fault) => error::failure(answer) == Some(fault),
        None => if obligation.target_derived() && lowering::lowered_vc(obligation.vc) is Err {
            error::failure(answer) == Some(lowering::lowered_vc(obligation.vc)->Err_0)
        } else {
            exists|prepared: PreparedTypedChcPdrInput, key: FullVerificationCacheKey|
                {
                    &&& #[trigger] identity::prepared_for(
                        obligation,
                        layer.render,
                        layer.canonicalize,
                        layer.sha256,
                        prepared,
                    )
                    &&& #[trigger] key_of(
                        layer.from_parts,
                        build,
                        obligation,
                        options,
                        prepared.normalized,
                        key,
                    )
                    &&& answers_prepared(
                        obligation,
                        options,
                        wording,
                        layer,
                        engines,
                        prepared,
                        key,
                        answer,
                    )
                }
        },
    }
}

/// Solves a typed obligation and gathers the evidence for the answer.
pub fn solve_typed_chc_pdr_full_verification<N, C, K, H, L, P, D, W, S, R>(
    obligation: &MirChcPdrObligation,
    options: ChcPdrSolveOptions,
    build: &BuildIdentity,
    wording: &ReplayWording,
    layer: &EvidenceLayer<N, C, K, H, L, P>,
    engines: &SolverEngines<D, W, S, R>,
) -> (answer: NativeSolveResult<TypedChcPdrFullVerification>) where
    N: Fn(&ChcProblem) -> String,
    C: Fn(&str) -> String,
    K: Fn(&FullVerificationCacheKeyParts) -> FullVerificationCacheKey,
    H: Fn(&[u8]) -> EvidenceHash,
    L: Fn(&MirChcPdrObligation, &CandidateBytes) -> Option<ChcPdrProofEvidence>,
    P: Fn(&ArtifactBytes) -> Option<FullVerificationArtifact>,
    D: Fn(&ChcProblem, SolveTimeout) -> Option<AcyclicDecision>,
    W: Fn(&ChcProblem, SolveTimeout) -> Option<LoopLaneRun>,
    S: Fn(&ChcProblem, u32) -> Option<AcyclicDecision>,
    R: Fn(&ChcProblem, SolveTimeout) -> Option<Result<ProofRun, String>>,

    requires
        identity::millis_fit(options.timeout),
        layer.total(),
        engines.total(),
    ensures
        answers_request(*obligation, options, *build, *wording, *layer, *engines, answer),
        answer matches Ok(verification) ==> sound_response(*obligation, *wording, verification),
{
    match admit_typed_request(obligation, &options) {
        Ok(()) => {},
        Err(fault) => {
            return Err(fault);
        },
    }
    let prepared = match prepare_validated_typed_chc_pdr_input(
        obligation,
        &layer.render,
        &layer.canonicalize,
        &layer.sha256,
    ) {
        Ok(prepared) => prepared,
        Err(fault) => {
            return Err(fault);
        },
    };
    let key = typed_full_verification_cache_key(
        build,
        obligation,
        &options,
        &prepared.normalized,
        &layer.from_parts,
    );
    let ghost own_prepared = prepared;
    let ghost own_key = key;
    assert(identity::prepared_for(
        *obligation,
        layer.render,
        layer.canonicalize,
        layer.sha256,
        own_prepared,
    ));
    assert(key_of(
        layer.from_parts,
        *build,
        *obligation,
        options,
        own_prepared.normalized,
        own_key,
    ));
    match prepared.normalized.route {
        TypedChcPdrRoute::TriviallySafe => {
            return answer_trivially_safe(
                obligation,
                &prepared.normalized,
                key,
                wording,
                &layer.sha256,
                &layer.link,
                &layer.publish,
            );
        },
        TypedChcPdrRoute::PdrProof => {},
    }
    // The length of the list is a `usize`, which bounds it for the law.
    let relation_count: usize = obligation.vc.relations.len();
    proof {
        assert(obligation.vc.relations@.len() == relation_count);
        lowering::law_lowered_problem_is_closed(obligation.vc);
    }
    let solve = match TypedSolve::start(obligation, options, prepared, key, wording) {
        Ok(solve) => solve,
        Err(fault) => {
            return Err(fault);
        },
    };
    let answer = solve_typed_chc_pdr_full_with_ay(
        &solve,
        &engines.decide,
        &engines.loop_lane,
        &engines.search,
        &engines.prove,
        &layer.sha256,
        &layer.link,
        &layer.publish,
    );
    assert(starts_from(*obligation, options, own_prepared, own_key, *wording, solve));
    answer
}

/// Whether a verdict's answer to a request for proof-grade evidence is right: the
/// solve's own error, or a refusal, since a solve seals nothing.
pub open spec fn refuses_proof_grade<A>(
    policy: A,
    solved: NativeSolveResult<TypedChcPdrFullVerification>,
    refused: ErrorModel,
) -> bool where A: Fn(&FullVerificationVerdict) -> Admission {
    match solved {
        Err(fault) => refused == fault@,
        Ok(verification) => exists|admission: Admission| #[trigger]
            policy.ensures((&verification.verdict,), admission) && refused == match admission {
                Err(rejection) => ErrorModel::ProofGradeRejected {
                    problem_kind: rejection.problem_kind,
                    reasons: text::owned_texts(rejection.reasons@),
                },
                Ok(_) => seal::authority_refusal(
                    "missing private in-process native typed CHC/PDR proof authority"@,
                ),
            },
    }
}

/// Demands authority of a verification that a solve returned. `policy` is the
/// evidence policy and `form` serializes a verdict.
pub fn require_native_proof_grade<H, A, F>(
    solved: NativeSolveResult<TypedChcPdrFullVerification>,
    wording: &ReplayWording,
    policy: &A,
    form: &F,
    sha256: &H,
) -> (graded: NativeSolveResult<TypedChcPdrFullVerification>) where
    H: Fn(&[u8]) -> EvidenceHash,
    A: Fn(&FullVerificationVerdict) -> Admission,
    F: Fn(&FullVerificationVerdict) -> Value,

    requires
        evidence::total(*sha256),
        forall|verdict: &FullVerificationVerdict| #[trigger] policy.requires((verdict,)),
        forall|verdict: &FullVerificationVerdict| #[trigger] form.requires((verdict,)),
    ensures
        match solved {
            Err(fault) => error::failure(graded) == Some(fault@),
            Ok(verification) => exists|
                admission: Admission,
                verdict_form: Value,
                granted: NativeSolveResult<ChcPdrProofKind>,
            |
                {
                    &&& #[trigger] policy.ensures((&verification.verdict,), admission)
                    &&& #[trigger] form.ensures((&verification.verdict,), verdict_form)
                    &&& #[trigger] seal::authorizes(
                        *sha256,
                        verification,
                        admission,
                        *wording,
                        json::json_content(verdict_form),
                        granted,
                    )
                    &&& match granted {
                        Ok(_) => graded == Ok::<TypedChcPdrFullVerification, NativeSolveError>(
                            verification,
                        ),
                        Err(refused) => error::failure(graded) == Some(refused@),
                    }
                },
        },
        (solved matches Ok(verification) ==> verification.seal() is None) ==> error::failure(
            graded,
        ) is Some && refuses_proof_grade(*policy, solved, error::failure(graded)->0),
{
    let verification = match solved {
        Ok(verification) => verification,
        Err(fault) => {
            return Err(fault);
        },
    };
    let admission = policy(&verification.verdict);
    assert(policy.ensures((&verification.verdict,), admission));
    let verdict_form = form(&verification.verdict);
    assert(form.ensures((&verification.verdict,), verdict_form));
    let granted = verification.privately_authorized_native_candidate(
        &admission,
        wording,
        &verdict_form,
        sha256,
    );
    let ghost kept = granted;
    assert(seal::authorizes(
        *sha256,
        verification,
        admission,
        *wording,
        json::json_content(verdict_form),
        kept,
    ));
    match granted {
        Ok(_) => Ok(verification),
        Err(refused) => Err(refused),
    }
}

/// Solves a typed obligation and demands authority of the answer. A solve seals
/// nothing, so this always refuses; authority is granted only where an obligation
/// is translated afresh from an admitted bundle, or replayed afresh.
pub fn solve_typed_chc_pdr_native_proof_grade<N, C, K, H, L, P, D, W, S, R, A, F>(
    obligation: &MirChcPdrObligation,
    options: ChcPdrSolveOptions,
    build: &BuildIdentity,
    wording: &ReplayWording,
    layer: &EvidenceLayer<N, C, K, H, L, P>,
    engines: &SolverEngines<D, W, S, R>,
    policy: &A,
    form: &F,
) -> (graded: NativeSolveResult<TypedChcPdrFullVerification>) where
    N: Fn(&ChcProblem) -> String,
    C: Fn(&str) -> String,
    K: Fn(&FullVerificationCacheKeyParts) -> FullVerificationCacheKey,
    H: Fn(&[u8]) -> EvidenceHash,
    L: Fn(&MirChcPdrObligation, &CandidateBytes) -> Option<ChcPdrProofEvidence>,
    P: Fn(&ArtifactBytes) -> Option<FullVerificationArtifact>,
    D: Fn(&ChcProblem, SolveTimeout) -> Option<AcyclicDecision>,
    W: Fn(&ChcProblem, SolveTimeout) -> Option<LoopLaneRun>,
    S: Fn(&ChcProblem, u32) -> Option<AcyclicDecision>,
    R: Fn(&ChcProblem, SolveTimeout) -> Option<Result<ProofRun, String>>,
    A: Fn(&FullVerificationVerdict) -> Admission,
    F: Fn(&FullVerificationVerdict) -> Value,

    requires
        identity::millis_fit(options.timeout),
        layer.total(),
        engines.total(),
        forall|verdict: &FullVerificationVerdict| #[trigger] policy.requires((verdict,)),
        forall|verdict: &FullVerificationVerdict| #[trigger] form.requires((verdict,)),
    ensures
        graded is Err,
        exists|solved: NativeSolveResult<TypedChcPdrFullVerification>| #[trigger]
            answers_request(*obligation, options, *build, *wording, *layer, *engines, solved)
                && refuses_proof_grade(*policy, solved, error::failure(graded)->0),
{
    let solved = solve_typed_chc_pdr_full_verification(
        obligation,
        options,
        build,
        wording,
        layer,
        engines,
    );
    let ghost kept = solved;
    assert(answers_request(*obligation, options, *build, *wording, *layer, *engines, kept));
    require_native_proof_grade(solved, wording, policy, form, &layer.sha256)
}

/// What an engine answers to a plain solve.
#[derive(Debug, PartialEq, Eq)]
pub enum AyVerdict {
    /// The query target is not derivable.
    Proved,
    /// A counterexample that the engine replayed, with its steps and rendering.
    Violated { step_count: u64, rendering: String },
    /// Nothing, with what the engine says of it.
    Unknown { detail: Option<String> },
    /// An answer of another kind.
    Unrecognized,
}

/// Engine that makes a plain solve.
#[derive(Debug, Clone, Copy, PartialEq, Eq, Structural)]
pub enum PlainEngine {
    /// A proof run of property-directed reachability.
    Pdr,
    /// The adaptive portfolio.
    AdaptivePortfolio,
}

/// How a plain solve failed.
#[derive(Debug, PartialEq, Eq)]
pub enum PlainFault {
    /// The engine reported an error.
    Failed(String),
    /// The engine panicked.
    Panicked(String),
}

/// The engine for the one that was asked for.
pub open spec fn plain_engine(engine: ChcPdrEngine) -> PlainEngine {
    match engine {
        ChcPdrEngine::Pdr => PlainEngine::Pdr,
        _ => PlainEngine::AdaptivePortfolio,
    }
}

/// The error for a plain solve that failed.
pub open spec fn plain_failure(engine: PlainEngine, fault: PlainFault) -> ErrorModel {
    let what = match engine {
        PlainEngine::Pdr => "PDR proof run"@,
        PlainEngine::AdaptivePortfolio => "adaptive portfolio"@,
    };
    ErrorModel::SolverFailed {
        reason: match fault {
            PlainFault::Failed(detail) => text::concat(
                seq!["ay-chc "@, what, " failed: "@, detail@],
            ),
            PlainFault::Panicked(detail) => text::concat(
                seq!["ay-chc "@, what, " panicked: "@, detail@],
            ),
        },
    }
}

/// The error for a plain solve that failed.
pub fn encode_error_to_solver_failed(engine: PlainEngine, fault: &PlainFault) -> (failed:
    NativeSolveError)
    ensures
        failed@ == plain_failure(engine, *fault),
{
    let what = match engine {
        PlainEngine::Pdr => "PDR proof run",
        PlainEngine::AdaptivePortfolio => "adaptive portfolio",
    };
    let reason = match fault {
        PlainFault::Failed(detail) => concat4("ay-chc ", what, " failed: ", detail.as_str()),
        PlainFault::Panicked(detail) => concat4("ay-chc ", what, " panicked: ", detail.as_str()),
    };
    NativeSolveError::SolverFailed { reason }
}

/// Whether an outcome is what an engine's answer to a plain solve is turned into.
pub open spec fn interprets<H: Fn(&[u8]) -> EvidenceHash>(
    obligation: MirChcPdrObligation,
    options: ChcPdrSolveOptions,
    normalized: NativeTypedChcPdrNormalizedInput,
    lowering: TypedChcLoweringAccounting,
    wording: ReplayWording,
    sha256: H,
    verdict: AyVerdict,
    outcome: OutcomeModel,
) -> bool {
    let id = obligation.obligation_id@;
    let stats = obligation.size();
    match verdict {
        AyVerdict::Proved => outcome == evidence::undecided(
            id,
            wording.pdr_invariant@,
            stats,
            "AY PDR candidate awaits fresh private consumer replay"@,
        ),
        AyVerdict::Violated { step_count, rendering } => if obligation.fail_closed_sites() > 0 {
            outcome == evidence::undecided(
                id,
                verdicts::demotion_reason(
                    obligation.fail_closed_sites() as nat,
                    obligation.fail_closed_reasons(),
                ),
                stats,
                "ay-chc counterexample discarded: the derivation may pass through a fail-closed lowering error rule (admission failure, not a program trap)"@,
            )
        } else {
            exists|witness: Option<WitnessModel>|
                outcome == #[trigger] evidence::refuted(
                    id,
                    witness,
                    stats,
                    "ay-chc verified counterexample for typed CHC/PDR obligation"@,
                ) && match witness {
                    Some(witness) => lowering == TypedChcLoweringAccounting::exact()
                        && verdicts::binds(
                        sha256,
                        id,
                        normalized.normalized_input_hash@,
                        options.engine,
                        normalized.route,
                        documents::replayed_counterexample(step_count, rendering@),
                        ChcPdrCexVerification::AyChcReplayVerified { step_count },
                        witness,
                    ),
                    None => lowering != TypedChcLoweringAccounting::exact(),
                }
        },
        AyVerdict::Unknown { detail: Some(detail) } => outcome == evidence::undecided(
            id,
            detail@,
            stats,
            "ay-chc returned unknown for typed CHC/PDR obligation"@,
        ),
        _ => outcome == evidence::undecided(
            id,
            "ay-chc returned an unrecognized non-exhaustive result"@,
            stats,
            "ay-chc returned unrecognized result for typed CHC/PDR obligation"@,
        ),
    }
}

/// What an engine's answer to a plain solve is turned into.
pub fn interpret_ay_verdict<H: Fn(&[u8]) -> EvidenceHash>(
    obligation: &MirChcPdrObligation,
    options: &ChcPdrSolveOptions,
    normalized: &NativeTypedChcPdrNormalizedInput,
    lowering: TypedChcLoweringAccounting,
    wording: &ReplayWording,
    verdict: &AyVerdict,
    sha256: &H,
) -> (outcome: ChcPdrSolveOutcome)
    requires
        evidence::total(*sha256),
    ensures
        interprets(
            *obligation,
            *options,
            *normalized,
            lowering,
            *wording,
            *sha256,
            *verdict,
            outcome@,
        ),
{
    let id = obligation.obligation_id.as_str();
    let stats = obligation.stats();
    match verdict {
        AyVerdict::Proved => undecided_outcome(
            id,
            wording.pdr_invariant.as_str(),
            stats,
            "AY PDR candidate awaits fresh private consumer replay",
        ),
        AyVerdict::Violated { step_count, rendering } => {
            let sites = fail_closed_lowering_sites(obligation);
            if sites > 0 {
                let reasons = fail_closed_lowering_reasons(obligation);
                let reason = fail_closed_lowering_demotion_reason(sites, reasons.as_slice());
                return undecided_outcome(
                    id,
                    reason.as_str(),
                    stats,
                    "ay-chc counterexample discarded: the derivation may pass through a fail-closed lowering error rule (admission failure, not a program trap)",
                );
            }
            let counterexample = replayed_counterexample_value(*step_count, rendering.as_str());
            let witness = typed_chc_pdr_refutation_witness(
                id,
                &normalized.normalized_input_hash,
                options.engine,
                normalized.route,
                &counterexample,
                ChcPdrCexVerification::AyChcReplayVerified { step_count: *step_count },
                Some(lowering),
                sha256,
            );
            refuted_outcome(
                id,
                witness,
                stats,
                "ay-chc verified counterexample for typed CHC/PDR obligation",
            )
        },
        AyVerdict::Unknown { detail: Some(detail) } => undecided_outcome(
            id,
            detail.as_str(),
            stats,
            "ay-chc returned unknown for typed CHC/PDR obligation",
        ),
        AyVerdict::Unknown { detail: None } => undecided_outcome(
            id,
            "ay-chc returned an unrecognized non-exhaustive result",
            stats,
            "ay-chc returned unrecognized result for typed CHC/PDR obligation",
        ),
        AyVerdict::Unrecognized => undecided_outcome(
            id,
            "ay-chc returned an unrecognized non-exhaustive result",
            stats,
            "ay-chc returned unrecognized result for typed CHC/PDR obligation",
        ),
    }
}

/// Whether an outcome is the one of a plain solve on the route of the proof engine.
pub open spec fn answers_plainly<N, C, H, E>(
    obligation: MirChcPdrObligation,
    options: ChcPdrSolveOptions,
    wording: ReplayWording,
    render: N,
    canonicalize: C,
    sha256: H,
    engine: E,
    answer: NativeSolveResult<ChcPdrSolveOutcome>,
) -> bool where
    N: Fn(&ChcProblem) -> String,
    C: Fn(&str) -> String,
    H: Fn(&[u8]) -> EvidenceHash,
    E: Fn(&ChcProblem, PlainEngine, SolveTimeout) -> Result<AyVerdict, PlainFault>,
 {
    exists|prepared: PreparedTypedChcPdrInput, solved: Result<AyVerdict, PlainFault>|
        {
            &&& #[trigger] identity::prepared_for(
                obligation,
                render,
                canonicalize,
                sha256,
                prepared,
            )
            &&& #[trigger] engine.ensures(
                (
                    &prepared.problem->0,
                    plain_engine(options.engine),
                    evidence::effective_timeout(options),
                ),
                solved,
            )
            &&& match solved {
                Err(fault) => error::failure(answer) == Some(
                    plain_failure(plain_engine(options.engine), fault),
                ),
                Ok(verdict) => answer matches Ok(outcome) && interprets(
                    obligation,
                    options,
                    prepared.normalized,
                    TypedChcLoweringAccounting::exact(),
                    wording,
                    sha256,
                    verdict,
                    outcome@,
                ),
            }
        }
}

/// Whether an outcome is the one of a plain solve.
pub open spec fn solves_plainly<N, C, H, E>(
    obligation: MirChcPdrObligation,
    options: ChcPdrSolveOptions,
    wording: ReplayWording,
    render: N,
    canonicalize: C,
    sha256: H,
    engine: E,
    answer: NativeSolveResult<ChcPdrSolveOutcome>,
) -> bool where
    N: Fn(&ChcProblem) -> String,
    C: Fn(&str) -> String,
    H: Fn(&[u8]) -> EvidenceHash,
    E: Fn(&ChcProblem, PlainEngine, SolveTimeout) -> Result<AyVerdict, PlainFault>,
 {
    match request_fault(obligation, options) {
        Some(fault) => error::failure(answer) == Some(fault),
        None => if !obligation.target_derived() {
            answer matches Ok(outcome) && outcome@ == candidates::trivial_outcome(
                obligation,
                wording,
            )
        } else if lowering::lowered_vc(obligation.vc) is Err {
            error::failure(answer) == Some(lowering::lowered_vc(obligation.vc)->Err_0)
        } else {
            answers_plainly(
                obligation,
                options,
                wording,
                render,
                canonicalize,
                sha256,
                engine,
                answer,
            )
        },
    }
}

/// Solves a typed obligation with one engine and reports the outcome alone.
pub fn solve_typed_chc_pdr<N, C, H, E>(
    obligation: &MirChcPdrObligation,
    options: &ChcPdrSolveOptions,
    wording: &ReplayWording,
    render: &N,
    canonicalize: &C,
    sha256: &H,
    engine: &E,
) -> (answer: NativeSolveResult<ChcPdrSolveOutcome>) where
    N: Fn(&ChcProblem) -> String,
    C: Fn(&str) -> String,
    H: Fn(&[u8]) -> EvidenceHash,
    E: Fn(&ChcProblem, PlainEngine, SolveTimeout) -> Result<AyVerdict, PlainFault>,

    requires
        forall|problem: &ChcProblem| #[trigger] render.requires((problem,)),
        forall|input: &str| #[trigger] canonicalize.requires((input,)),
        evidence::total(*sha256),
        forall|problem: &ChcProblem, chosen: PlainEngine, limit: SolveTimeout| #[trigger]
            engine.requires((problem, chosen, limit)),
    ensures
        solves_plainly(
            *obligation,
            *options,
            *wording,
            *render,
            *canonicalize,
            *sha256,
            *engine,
            answer,
        ),
{
    match admit_typed_request(obligation, options) {
        Ok(()) => {},
        Err(fault) => {
            return Err(fault);
        },
    }
    if obligation.is_trivially_safe() {
        return Ok(typed_trivial_safe_outcome(obligation, wording));
    }
    let prepared = match prepare_validated_typed_chc_pdr_input(
        obligation,
        render,
        canonicalize,
        sha256,
    ) {
        Ok(prepared) => prepared,
        Err(fault) => {
            return Err(fault);
        },
    };
    assert(identity::prepared_for(*obligation, *render, *canonicalize, *sha256, prepared));
    let chosen = match options.engine {
        ChcPdrEngine::Pdr => PlainEngine::Pdr,
        _ => PlainEngine::AdaptivePortfolio,
    };
    match (&prepared.problem, prepared.lowering) {
        (Some(problem), Some(lowering)) => {
            let limit = effective_typed_chc_timeout(options);
            let solved = engine(problem, chosen, limit);
            assert(engine.ensures((problem, chosen, limit), solved));
            match &solved {
                Ok(verdict) => Ok(
                    interpret_ay_verdict(
                        obligation,
                        options,
                        &prepared.normalized,
                        lowering,
                        wording,
                        verdict,
                        sha256,
                    ),
                ),
                Err(fault) => Err(encode_error_to_solver_failed(chosen, fault)),
            }
        },
        _ => Ok(typed_trivial_safe_outcome(obligation, wording)),
    }
}

} // verus!
