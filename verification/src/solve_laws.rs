//! Laws of the solve of a typed obligation: which answers it may give, whatever the
//! outside engines return.
use vstd::prelude::*;

use crate::chc::ChcProblem;
use crate::error::{NativeSolveError, NativeSolveResult};
use crate::evidence;
use crate::evidence::{
    ArtifactBytes, ChcPdrSolveOptions, ChcPdrSolveOutcome, EvidenceHash, MirChcPdrObligation,
    SolveTimeout,
};
use crate::identity;
use crate::identity::{
    BuildIdentity, FullVerificationCacheKey, FullVerificationCacheKeyParts,
    PreparedTypedChcPdrInput,
};
use crate::ladder;
use crate::lanes;
use crate::lanes::{AcyclicDecision, LoopLaneRun, ProofRun, RunStep, TypedSolve};
use crate::lowering;
use crate::seal::TypedChcPdrFullVerification;
use crate::solve;
use crate::solve::{AyVerdict, EvidenceLayer, PlainEngine, PlainFault, SolverEngines};
use crate::unroll;
use crate::verdicts::{
    CandidateBytes, ChcPdrProofEvidence, FullVerificationArtifact, FullVerificationVerdict,
    ReplayWording,
};

verus! {

/// Whether an engine told of an error derivation of the problem, or of an unrolled
/// copy of it.
pub open spec fn error_found<D, S, R>(problem: ChcProblem, decide: D, search: S, prove: R) -> bool where
    D: Fn(&ChcProblem, SolveTimeout) -> Option<AcyclicDecision>,
    S: Fn(&ChcProblem, u32) -> Option<AcyclicDecision>,
    R: Fn(&ChcProblem, SolveTimeout) -> Option<Result<ProofRun, String>>,
 {
    ||| exists|limit: SolveTimeout, decision: AcyclicDecision| #[trigger]
        decide.ensures((&problem, limit), Some(decision)) && decision is Unsafe
    ||| exists|limit: SolveTimeout, run: ProofRun| #[trigger]
        prove.ensures((&problem, limit), Some(Ok(run))) && run.result is Unsafe
    ||| exists|copy: ChcProblem, k: u32, decision: AcyclicDecision| #[trigger]
        search.ensures((&copy, k), Some(decision)) && decision is Unsafe && copy@
            == unroll::unrolled(problem@, k as nat)
}

/// Whether an engine told that the problem, which has a predicate beside its query
/// target, has no error derivation, or found an invariant of it.
pub open spec fn safety_found<D, W, R>(
    problem: ChcProblem,
    decide: D,
    loop_lane: W,
    prove: R,
) -> bool where
    D: Fn(&ChcProblem, SolveTimeout) -> Option<AcyclicDecision>,
    W: Fn(&ChcProblem, SolveTimeout) -> Option<LoopLaneRun>,
    R: Fn(&ChcProblem, SolveTimeout) -> Option<Result<ProofRun, String>>,
 {
    ||| problem@.predicates.len() >= 2 && exists|limit: SolveTimeout, decision: AcyclicDecision|
        #[trigger] decide.ensures((&problem, limit), Some(decision)) && decision is Safe
    ||| exists|limit: SolveTimeout, lane: LoopLaneRun| #[trigger]
        loop_lane.ensures((&problem, limit), Some(lane)) && lane.validated && (
        lane.run matches Some(run) && run.result is Safe)
    ||| exists|limit: SolveTimeout, run: ProofRun| #[trigger]
        prove.ensures((&problem, limit), Some(Ok(run))) && run.result is Safe
}

/// What every answer of a solve owes to the engines: it refutes only what an engine
/// found an error in, where no construct of the obligation was unsupported, and it
/// offers a proof candidate only where an engine found no error.
pub open spec fn accounted<D, W, S, R>(
    obligation: MirChcPdrObligation,
    problem: ChcProblem,
    decide: D,
    loop_lane: W,
    search: S,
    prove: R,
    verification: TypedChcPdrFullVerification,
) -> bool where
    D: Fn(&ChcProblem, SolveTimeout) -> Option<AcyclicDecision>,
    W: Fn(&ChcProblem, SolveTimeout) -> Option<LoopLaneRun>,
    S: Fn(&ChcProblem, u32) -> Option<AcyclicDecision>,
    R: Fn(&ChcProblem, SolveTimeout) -> Option<Result<ProofRun, String>>,
 {
    &&& verification.outcome.status@ is Refuted <==> verification.verdict is Failed
    &&& verification.verdict is Failed ==> (obligation.native_metadata matches Some(metadata)
        ==> metadata.fail_closed_lowering_site_count == 0)
    &&& verification.verdict is Failed ==> error_found(problem, decide, search, prove)
    &&& verification.verdict is Proved ==> safety_found(problem, decide, loop_lane, prove)
}

proof fn lemma_climb_is_accounted<H, D, W, S, R>(
    solve: TypedSolve,
    sha256: H,
    decide: D,
    loop_lane: W,
    search: S,
    prove: R,
    ladder: Seq<u32>,
    verification: TypedChcPdrFullVerification,
) where
    H: Fn(&[u8]) -> EvidenceHash,
    D: Fn(&ChcProblem, SolveTimeout) -> Option<AcyclicDecision>,
    W: Fn(&ChcProblem, SolveTimeout) -> Option<LoopLaneRun>,
    S: Fn(&ChcProblem, u32) -> Option<AcyclicDecision>,
    R: Fn(&ChcProblem, SolveTimeout) -> Option<Result<ProofRun, String>>,

    requires
        ladder::eligible(solve),
        ladder::climbs(solve, sha256, search, ladder, Some(verification)),
    ensures
        accounted(
            *solve.obligation,
            solve.problem,
            decide,
            loop_lane,
            search,
            prove,
            verification,
        ),
    decreases ladder.len(),
{
    let k = ladder[0];
    let (copy, decision) = choose|copy: ChcProblem, decision: Option<AcyclicDecision>| #[trigger]
        search.ensures((&copy, k), decision) && copy@ == unroll::unrolled(
            solve.problem@,
            k as nat,
        ) && match decision {
            None => Some(verification) is None,
            Some(AcyclicDecision::Unsafe(found)) => solve.refuted_by(
                sha256,
                verification,
                crate::documents::unrolled_counterexample(
                    k,
                    found.derivation_clause_indices@,
                    crate::json::json_content(found.model),
                ),
                evidence::ChcPdrCexVerification::BoundedUnrollDirectSmtModel { k: k as u64 },
                ladder::unroll_diagnostic(k),
            ),
            Some(_) => ladder::climbs(
                solve,
                sha256,
                search,
                ladder.drop_first(),
                Some(verification),
            ),
        };
    let own = decision->0;
    if own is Unsafe {
        assert(search.ensures((&copy, k), Some(own)));
    } else {
        lemma_climb_is_accounted(
            solve,
            sha256,
            decide,
            loop_lane,
            search,
            prove,
            ladder.drop_first(),
            verification,
        );
    }
}

proof fn lemma_last_is_accounted<H, D, W, S, R>(
    solve: TypedSolve,
    sha256: H,
    decide: D,
    loop_lane: W,
    search: S,
    prove: R,
    reason: Seq<char>,
    verification: TypedChcPdrFullVerification,
) where
    H: Fn(&[u8]) -> EvidenceHash,
    D: Fn(&ChcProblem, SolveTimeout) -> Option<AcyclicDecision>,
    W: Fn(&ChcProblem, SolveTimeout) -> Option<LoopLaneRun>,
    S: Fn(&ChcProblem, u32) -> Option<AcyclicDecision>,
    R: Fn(&ChcProblem, SolveTimeout) -> Option<Result<ProofRun, String>>,

    requires
        solve::answers_last(solve, sha256, search, reason, Ok(verification)),
    ensures
        accounted(
            *solve.obligation,
            solve.problem,
            decide,
            loop_lane,
            search,
            prove,
            verification,
        ),
{
    let step = choose|step: Option<TypedChcPdrFullVerification>| #[trigger]
        ladder::unroll_lane(solve, sha256, search, step) && match step {
            Some(own) => own == verification,
            None => lanes::gave_up(solve, reason, verification),
        };
    if step is Some {
        lemma_climb_is_accounted(
            solve,
            sha256,
            decide,
            loop_lane,
            search,
            prove,
            unroll::BOUNDED_UNROLL_K_LADDER@,
            verification,
        );
    }
}

proof fn lemma_loop_lane_is_accounted<H, L, P, D, W, S, R>(
    solve: TypedSolve,
    sha256: H,
    link: L,
    publish: P,
    decide: D,
    loop_lane: W,
    search: S,
    prove: R,
    verification: TypedChcPdrFullVerification,
) where
    H: Fn(&[u8]) -> EvidenceHash,
    L: Fn(&MirChcPdrObligation, &CandidateBytes) -> Option<ChcPdrProofEvidence>,
    P: Fn(&ArtifactBytes) -> Option<FullVerificationArtifact>,
    D: Fn(&ChcProblem, SolveTimeout) -> Option<AcyclicDecision>,
    W: Fn(&ChcProblem, SolveTimeout) -> Option<LoopLaneRun>,
    S: Fn(&ChcProblem, u32) -> Option<AcyclicDecision>,
    R: Fn(&ChcProblem, SolveTimeout) -> Option<Result<ProofRun, String>>,

    requires
        solve::runs_loop_lane(solve, sha256, link, publish, loop_lane, Some(verification)),
    ensures
        accounted(
            *solve.obligation,
            solve.problem,
            decide,
            loop_lane,
            search,
            prove,
            verification,
        ),
{
    let limit = evidence::watchdog_limit(evidence::effective_timeout(solve.options));
    let lane = choose|lane: Option<LoopLaneRun>| #[trigger]
        loop_lane.ensures((&solve.problem, limit), lane) && lanes::follows_loop_lane(
            solve,
            sha256,
            link,
            publish,
            lane,
            Some(verification),
        );
    let own = lane->0;
    let run = own.run->0;
    assert(loop_lane.ensures((&solve.problem, limit), Some(own)));
    solve::lemma_transport_is_sound(solve, sha256, link, publish, run, verification);
}

proof fn lemma_run_is_accounted<H, L, P, D, W, S, R>(
    solve: TypedSolve,
    sha256: H,
    link: L,
    publish: P,
    decide: D,
    loop_lane: W,
    search: S,
    prove: R,
    verification: TypedChcPdrFullVerification,
) where
    H: Fn(&[u8]) -> EvidenceHash,
    L: Fn(&MirChcPdrObligation, &CandidateBytes) -> Option<ChcPdrProofEvidence>,
    P: Fn(&ArtifactBytes) -> Option<FullVerificationArtifact>,
    D: Fn(&ChcProblem, SolveTimeout) -> Option<AcyclicDecision>,
    W: Fn(&ChcProblem, SolveTimeout) -> Option<LoopLaneRun>,
    S: Fn(&ChcProblem, u32) -> Option<AcyclicDecision>,
    R: Fn(&ChcProblem, SolveTimeout) -> Option<Result<ProofRun, String>>,

    requires
        solve::answers_run(
            solve,
            sha256,
            link,
            publish,
            loop_lane,
            search,
            prove,
            Ok(verification),
        ),
    ensures
        accounted(
            *solve.obligation,
            solve.problem,
            decide,
            loop_lane,
            search,
            prove,
            verification,
        ),
{
    let limit = evidence::watchdog_limit(evidence::effective_timeout(solve.options));
    let answer: NativeSolveResult<TypedChcPdrFullVerification> = Ok(verification);
    let (run, step) = choose|
        run: Option<Result<ProofRun, String>>,
        step: NativeSolveResult<RunStep>,
    |
        #[trigger] prove.ensures((&solve.problem, limit), run) && #[trigger] lanes::follows_run(
            solve,
            sha256,
            link,
            publish,
            run,
            step,
        ) && match step {
            Err(fault) => crate::error::failure(answer) == Some(fault@),
            Ok(RunStep::Answered(own)) => answer == Ok::<
                TypedChcPdrFullVerification,
                NativeSolveError,
            >(own),
            Ok(RunStep::Undecided(reason)) => solve::answers_undecided_run(
                solve,
                sha256,
                link,
                publish,
                loop_lane,
                search,
                reason@,
                answer,
            ),
        };
    match step {
        Ok(RunStep::Answered(own)) => {
            solve::lemma_run_is_sound(solve, sha256, link, publish, run, verification);
            if let Some(Ok(found)) = run {
                assert(prove.ensures((&solve.problem, limit), Some(Ok(found))));
            }
        },
        Ok(RunStep::Undecided(reason)) => {
            let inner = choose|inner: Option<TypedChcPdrFullVerification>| #[trigger]
                solve::runs_loop_lane(solve, sha256, link, publish, loop_lane, inner)
                    && match inner {
                    Some(own) => answer == Ok::<TypedChcPdrFullVerification, NativeSolveError>(own),
                    None => solve::answers_last(solve, sha256, search, reason@, answer),
                };
            if inner is Some {
                lemma_loop_lane_is_accounted(
                    solve,
                    sha256,
                    link,
                    publish,
                    decide,
                    loop_lane,
                    search,
                    prove,
                    verification,
                );
            } else {
                lemma_last_is_accounted(
                    solve,
                    sha256,
                    decide,
                    loop_lane,
                    search,
                    prove,
                    reason@,
                    verification,
                );
            }
        },
        _ => {},
    }
}

/// An answer of the full solve refutes only where an engine found an error and the
/// obligation's own metadata, if it has any, counts no unsupported construct,
/// whatever else the metadata says. It offers a proof candidate only where an
/// engine found none.
pub proof fn law_answers_are_found_by_engines<H, L, P, D, W, S, R>(
    solve: TypedSolve,
    sha256: H,
    link: L,
    publish: P,
    decide: D,
    loop_lane: W,
    search: S,
    prove: R,
    verification: TypedChcPdrFullVerification,
) where
    H: Fn(&[u8]) -> EvidenceHash,
    L: Fn(&MirChcPdrObligation, &CandidateBytes) -> Option<ChcPdrProofEvidence>,
    P: Fn(&ArtifactBytes) -> Option<FullVerificationArtifact>,
    D: Fn(&ChcProblem, SolveTimeout) -> Option<AcyclicDecision>,
    W: Fn(&ChcProblem, SolveTimeout) -> Option<LoopLaneRun>,
    S: Fn(&ChcProblem, u32) -> Option<AcyclicDecision>,
    R: Fn(&ChcProblem, SolveTimeout) -> Option<Result<ProofRun, String>>,

    requires
        solve::answers_full(
            solve,
            sha256,
            link,
            publish,
            decide,
            loop_lane,
            search,
            prove,
            Ok(verification),
        ),
    ensures
        accounted(
            *solve.obligation,
            solve.problem,
            decide,
            loop_lane,
            search,
            prove,
            verification,
        ),
{
    let limit = evidence::watchdog_limit(evidence::effective_timeout(solve.options));
    let answer: NativeSolveResult<TypedChcPdrFullVerification> = Ok(verification);
    let (decision, step) = choose|
        decision: Option<AcyclicDecision>,
        step: Option<TypedChcPdrFullVerification>,
    |
        #[trigger] decide.ensures((&solve.problem, limit), decision)
            && #[trigger] lanes::follows_search(solve, sha256, link, publish, decision, step)
            && match step {
            Some(own) => answer == Ok::<TypedChcPdrFullVerification, NativeSolveError>(own),
            None => solve::answers_open_search(
                solve,
                sha256,
                link,
                publish,
                loop_lane,
                search,
                prove,
                answer,
            ),
        };
    if step is Some {
        solve::lemma_search_is_sound(solve, sha256, link, publish, decision, verification);
        if let Some(found) = decision {
            assert(decide.ensures((&solve.problem, limit), Some(found)));
        }
    } else {
        let inner = choose|inner: Option<TypedChcPdrFullVerification>| #[trigger]
            solve::runs_loop_lane(solve, sha256, link, publish, loop_lane, inner) && match inner {
                Some(own) => answer == Ok::<TypedChcPdrFullVerification, NativeSolveError>(own),
                None => solve::answers_run(
                    solve,
                    sha256,
                    link,
                    publish,
                    loop_lane,
                    search,
                    prove,
                    answer,
                ),
            };
        if inner is Some {
            lemma_loop_lane_is_accounted(
                solve,
                sha256,
                link,
                publish,
                decide,
                loop_lane,
                search,
                prove,
                verification,
            );
        } else {
            lemma_run_is_accounted(
                solve,
                sha256,
                link,
                publish,
                decide,
                loop_lane,
                search,
                prove,
                verification,
            );
        }
    }
}

/// An answer to a request refutes only an obligation whose query target some rule
/// derives and whose own metadata, if it has any, counts no unsupported construct,
/// and only where an engine found an error in its lowered problem. It offers a
/// proof candidate only where an engine found none there, or where no rule derives
/// the query target and no metadata admits that a rule was dropped.
pub proof fn law_requests_are_answered_from_findings<N, C, K, H, L, P, D, W, S, R>(
    obligation: MirChcPdrObligation,
    options: ChcPdrSolveOptions,
    build: BuildIdentity,
    wording: ReplayWording,
    layer: EvidenceLayer<N, C, K, H, L, P>,
    engines: SolverEngines<D, W, S, R>,
    verification: TypedChcPdrFullVerification,
) where
    N: Fn(&ChcProblem) -> String,
    C: Fn(&str) -> String,
    K: Fn(&FullVerificationCacheKeyParts) -> FullVerificationCacheKey,
    H: Fn(&[u8]) -> EvidenceHash,
    L: Fn(&MirChcPdrObligation, &CandidateBytes) -> Option<ChcPdrProofEvidence>,
    P: Fn(&ArtifactBytes) -> Option<FullVerificationArtifact>,
    D: Fn(&ChcProblem, SolveTimeout) -> Option<AcyclicDecision>,
    W: Fn(&ChcProblem, SolveTimeout) -> Option<LoopLaneRun>,
    S: Fn(&ChcProblem, u32) -> Option<AcyclicDecision>,
    R: Fn(&ChcProblem, SolveTimeout) -> Option<Result<ProofRun, String>>,

    requires
        solve::answers_request(
            obligation,
            options,
            build,
            wording,
            layer,
            engines,
            Ok(verification),
        ),
    ensures
        verification.outcome.status@ is Refuted <==> verification.verdict is Failed,
        verification.outcome.status@ is Refuted || verification.verdict is Failed ==> (
        obligation.native_metadata matches Some(metadata)
            ==> metadata.fail_closed_lowering_site_count == 0),
        verification.verdict is Failed ==> (exists|i: int|
            0 <= i < obligation.vc.rules@.len() && (
            #[trigger] obligation.vc.rules@[i]).head.name@ == obligation.vc.query_target@) && (
        exists|problem: ChcProblem| #[trigger]
            error_found(problem, engines.decide, engines.search, engines.prove)
                && lowering::lowered_vc(obligation.vc) == Ok::<
                crate::chc::ProblemModel,
                crate::error::ErrorModel,
            >(problem@)),
        verification.verdict is Proved ==> {
            ||| (forall|i: int|
                0 <= i < obligation.vc.rules@.len() ==> (
                #[trigger] obligation.vc.rules@[i]).head.name@ != obligation.vc.query_target@) && (
            obligation.native_metadata matches Some(metadata)
                ==> metadata.structural_reachability_complete)
            ||| exists|problem: ChcProblem| #[trigger]
                safety_found(problem, engines.decide, engines.loop_lane, engines.prove)
                    && lowering::lowered_vc(obligation.vc) == Ok::<
                    crate::chc::ProblemModel,
                    crate::error::ErrorModel,
                >(problem@)
        },
{
    let answer: NativeSolveResult<TypedChcPdrFullVerification> = Ok(verification);
    let (prepared, key) = choose|prepared: PreparedTypedChcPdrInput, key: FullVerificationCacheKey|
        {
            &&& #[trigger] identity::prepared_for(
                obligation,
                layer.render,
                layer.canonicalize,
                layer.sha256,
                prepared,
            )
            &&& #[trigger] solve::key_of(
                layer.from_parts,
                build,
                obligation,
                options,
                prepared.normalized,
                key,
            )
            &&& solve::answers_prepared(
                obligation,
                options,
                wording,
                layer,
                engines,
                prepared,
                key,
                answer,
            )
        };
    if obligation.target_derived() {
        let solve = choose|solve: TypedSolve|
            solve::starts_from(obligation, options, prepared, key, wording, solve) && #[trigger]
            solve::answers_full(
                solve,
                layer.sha256,
                layer.link,
                layer.publish,
                engines.decide,
                engines.loop_lane,
                engines.search,
                engines.prove,
                answer,
            );
        law_answers_are_found_by_engines(
            solve,
            layer.sha256,
            layer.link,
            layer.publish,
            engines.decide,
            engines.loop_lane,
            engines.search,
            engines.prove,
            verification,
        );
        let problem = solve.problem;
        assert(prepared.problem == Some(problem));
    } else {
        lemma_trivial_never_fails(
            obligation,
            prepared.normalized,
            key,
            layer.sha256,
            layer.link,
            layer.publish,
            verification.verdict,
        );
    }
}

proof fn lemma_trivial_never_fails<H, L, P>(
    obligation: MirChcPdrObligation,
    normalized: identity::NativeTypedChcPdrNormalizedInput,
    key: FullVerificationCacheKey,
    sha256: H,
    link: L,
    publish: P,
    verdict: FullVerificationVerdict,
) where
    H: Fn(&[u8]) -> EvidenceHash,
    L: Fn(&MirChcPdrObligation, &CandidateBytes) -> Option<ChcPdrProofEvidence>,
    P: Fn(&ArtifactBytes) -> Option<FullVerificationArtifact>,

    requires
        crate::candidates::trivial_verdict(
            sha256,
            link,
            publish,
            obligation,
            normalized,
            key.key@,
            obligation.size(),
            verdict,
        ),
    ensures
        !(verdict is Failed),
{
}

/// A plain solve refutes only where the engine reports a violation of the lowered
/// problem and the obligation's own metadata, if it has any, counts no unsupported
/// construct.
pub proof fn law_plain_refutations_are_found<N, C, H, E>(
    obligation: MirChcPdrObligation,
    options: ChcPdrSolveOptions,
    wording: ReplayWording,
    render: N,
    canonicalize: C,
    sha256: H,
    engine: E,
    outcome: ChcPdrSolveOutcome,
) where
    N: Fn(&ChcProblem) -> String,
    C: Fn(&str) -> String,
    H: Fn(&[u8]) -> EvidenceHash,
    E: Fn(&ChcProblem, PlainEngine, SolveTimeout) -> Result<AyVerdict, PlainFault>,

    requires
        solve::solves_plainly(
            obligation,
            options,
            wording,
            render,
            canonicalize,
            sha256,
            engine,
            Ok(outcome),
        ),
    ensures
        outcome.status@ is Refuted ==> {
            &&& obligation.native_metadata matches Some(metadata)
                ==> metadata.fail_closed_lowering_site_count == 0
            &&& exists|problem: ChcProblem, limit: SolveTimeout, chosen: PlainEngine, verdict: AyVerdict|
                #[trigger] engine.ensures((&problem, chosen, limit), Ok(verdict))
                    && verdict is Violated && lowering::lowered_vc(obligation.vc) == Ok::<
                    crate::chc::ProblemModel,
                    crate::error::ErrorModel,
                >(problem@)
        },
{
    let answer: NativeSolveResult<ChcPdrSolveOutcome> = Ok(outcome);
    if obligation.target_derived() {
        let chosen = solve::plain_engine(options.engine);
        let limit = evidence::effective_timeout(options);
        let (prepared, solved) = choose|
            prepared: PreparedTypedChcPdrInput,
            solved: Result<AyVerdict, PlainFault>,
        |
            {
                &&& #[trigger] identity::prepared_for(
                    obligation,
                    render,
                    canonicalize,
                    sha256,
                    prepared,
                )
                &&& #[trigger] engine.ensures((&prepared.problem->0, chosen, limit), solved)
                &&& match solved {
                    Err(fault) => crate::error::failure(answer) == Some(
                        solve::plain_failure(chosen, fault),
                    ),
                    Ok(verdict) => solve::interprets(
                        obligation,
                        options,
                        prepared.normalized,
                        lowering::TypedChcLoweringAccounting::exact(),
                        wording,
                        sha256,
                        verdict,
                        outcome@,
                    ),
                }
            };
        let problem = prepared.problem->0;
        let verdict = solved->Ok_0;
        assert(engine.ensures((&problem, chosen, limit), Ok(verdict)));
    }
}

/// An error that the exhaustive search finds settles the solve: it is a refutation
/// where the metadata counts no unsupported construct, and undecided where it
/// counts one, whatever the other engines would return.
pub proof fn law_found_errors_settle_the_solve<H, L, P, D, W, S, R>(
    solve: TypedSolve,
    sha256: H,
    link: L,
    publish: P,
    decide: D,
    loop_lane: W,
    search: S,
    prove: R,
    answer: NativeSolveResult<TypedChcPdrFullVerification>,
) where
    H: Fn(&[u8]) -> EvidenceHash,
    L: Fn(&MirChcPdrObligation, &CandidateBytes) -> Option<ChcPdrProofEvidence>,
    P: Fn(&ArtifactBytes) -> Option<FullVerificationArtifact>,
    D: Fn(&ChcProblem, SolveTimeout) -> Option<AcyclicDecision>,
    W: Fn(&ChcProblem, SolveTimeout) -> Option<LoopLaneRun>,
    S: Fn(&ChcProblem, u32) -> Option<AcyclicDecision>,
    R: Fn(&ChcProblem, SolveTimeout) -> Option<Result<ProofRun, String>>,

    requires
        solve::answers_full(
            solve,
            sha256,
            link,
            publish,
            decide,
            loop_lane,
            search,
            prove,
            answer,
        ),
        forall|limit: SolveTimeout, decision: Option<AcyclicDecision>| #[trigger]
            decide.ensures((&solve.problem, limit), decision) ==> (decision matches Some(own)
                && own is Unsafe),
    ensures
        answer is Ok,
        (solve.obligation.native_metadata matches Some(metadata)
            ==> metadata.fail_closed_lowering_site_count == 0) ==> (
        answer->Ok_0.outcome.status@ is Refuted && answer->Ok_0.verdict is Failed),
        (solve.obligation.native_metadata matches Some(metadata)
            && metadata.fail_closed_lowering_site_count > 0) ==> (
        answer->Ok_0.outcome.status@ is Unknown && answer->Ok_0.verdict is Unknown),
{
}

/// An error that the proof run finds, once the other lanes gave nothing, is a
/// refutation where the metadata counts no unsupported construct, and undecided
/// where it counts one.
pub proof fn law_errors_of_a_run_settle_it<H, L, P>(
    solve: TypedSolve,
    sha256: H,
    link: L,
    publish: P,
    run: ProofRun,
    step: NativeSolveResult<RunStep>,
) where
    H: Fn(&[u8]) -> EvidenceHash,
    L: Fn(&MirChcPdrObligation, &CandidateBytes) -> Option<ChcPdrProofEvidence>,
    P: Fn(&ArtifactBytes) -> Option<FullVerificationArtifact>,

    requires
        run.result is Unsafe,
        lanes::follows_run(solve, sha256, link, publish, Some(Ok(run)), step),
    ensures
        step matches Ok(RunStep::Answered(_)),
        (solve.obligation.native_metadata matches Some(metadata)
            ==> metadata.fail_closed_lowering_site_count == 0) ==> (
        step->Ok_0->Answered_0.outcome.status@ is Refuted
            && step->Ok_0->Answered_0.verdict is Failed),
        (solve.obligation.native_metadata matches Some(metadata)
            && metadata.fail_closed_lowering_site_count > 0) ==> (
        step->Ok_0->Answered_0.outcome.status@ is Unknown
            && step->Ok_0->Answered_0.verdict is Unknown),
{
}

/// A violation that the engine of a plain solve reports is a refutation where the
/// metadata counts no unsupported construct, and undecided where it counts one; no
/// other answer of the engine refutes.
pub proof fn law_plain_violations_are_refutations<H: Fn(&[u8]) -> EvidenceHash>(
    obligation: MirChcPdrObligation,
    options: ChcPdrSolveOptions,
    normalized: identity::NativeTypedChcPdrNormalizedInput,
    lowering: lowering::TypedChcLoweringAccounting,
    wording: ReplayWording,
    sha256: H,
    verdict: AyVerdict,
    outcome: ChcPdrSolveOutcome,
)
    requires
        solve::interprets(
            obligation,
            options,
            normalized,
            lowering,
            wording,
            sha256,
            verdict,
            outcome@,
        ),
    ensures
        outcome.status@ is Refuted <==> verdict is Violated && (
        obligation.native_metadata matches Some(metadata)
            ==> metadata.fail_closed_lowering_site_count == 0),
        outcome@.obligation_id == obligation.obligation_id@,
{
}

} // verus!
