//! Runner for typed obligations.
use serde_json::Value;
use vstd::prelude::*;
use vstd::string::*;

use crate::chc::ChcProblem;
use crate::error;
use crate::error::NativeSolveResult;
use crate::evidence;
use crate::evidence::{
    effective_typed_chc_timeout, watchdog_ceiling, ArtifactBytes, ChcPdrSolveOptions,
    ChcPdrSolveOutcome, EvidenceHash, FullVerificationArtifactKind, MirChcPdrObligation,
    SolveTimeout,
};
use crate::identity;
use crate::identity::{
    prepare_validated_typed_chc_pdr_input, typed_full_verification_cache_key, BuildIdentity,
    FullVerificationCacheKey, FullVerificationCacheKeyParts, PreparedTypedChcPdrInput,
};
use crate::json;
use crate::lanes::{AcyclicDecision, LoopLaneRun, ProofRun};
use crate::lowering;
use crate::seal;
use crate::seal::{single_artifact, Admission, FreshInput, TypedChcPdrFullVerification};
use crate::solve;
use crate::solve::{
    solve_typed_chc_pdr, solve_typed_chc_pdr_full_verification,
    solve_typed_chc_pdr_native_proof_grade, AyVerdict, EvidenceLayer, PlainEngine, PlainFault,
    SolverEngines,
};
use crate::verdicts::{
    CandidateBytes, ChcPdrProofEvidence, ChcPdrProofKind, FullVerificationArtifact,
    FullVerificationVerdict, ReplayWording,
};

verus! {

/// Whether an obligation was prepared afresh, or cannot be prepared.
pub open spec fn prepared_afresh<N, C, K, H, L, P>(
    obligation: MirChcPdrObligation,
    options: ChcPdrSolveOptions,
    build: BuildIdentity,
    layer: EvidenceLayer<N, C, K, H, L, P>,
    fresh: Option<FreshInput>,
) -> bool where
    N: Fn(&ChcProblem) -> String,
    C: Fn(&str) -> String,
    K: Fn(&FullVerificationCacheKeyParts) -> FullVerificationCacheKey,
    H: Fn(&[u8]) -> EvidenceHash,
 {
    match fresh {
        Some(fresh) => identity::prepared_for(
            obligation,
            layer.render,
            layer.canonicalize,
            layer.sha256,
            fresh.prepared,
        ) && solve::key_of(
            layer.from_parts,
            build,
            obligation,
            options,
            fresh.prepared.normalized,
            fresh.cache_key,
        ),
        None => obligation.target_derived() && lowering::lowered_vc(obligation.vc) is Err,
    }
}

/// Prepares an obligation afresh.
pub(crate) fn prepare_afresh<N, C, K, H, L, P>(
    obligation: &MirChcPdrObligation,
    options: &ChcPdrSolveOptions,
    build: &BuildIdentity,
    layer: &EvidenceLayer<N, C, K, H, L, P>,
) -> (fresh: Option<FreshInput>) where
    N: Fn(&ChcProblem) -> String,
    C: Fn(&str) -> String,
    K: Fn(&FullVerificationCacheKeyParts) -> FullVerificationCacheKey,
    H: Fn(&[u8]) -> EvidenceHash,
    L: Fn(&MirChcPdrObligation, &CandidateBytes) -> Option<ChcPdrProofEvidence>,
    P: Fn(&ArtifactBytes) -> Option<FullVerificationArtifact>,

    requires
        identity::millis_fit(options.timeout),
        layer.total(),
    ensures
        prepared_afresh(*obligation, *options, *build, *layer, fresh),
{
    match prepare_validated_typed_chc_pdr_input(
        obligation,
        &layer.render,
        &layer.canonicalize,
        &layer.sha256,
    ) {
        Ok(prepared) => {
            let cache_key = typed_full_verification_cache_key(
                build,
                obligation,
                options,
                &prepared.normalized,
                &layer.from_parts,
            );
            Some(FreshInput { prepared, cache_key })
        },
        Err(_) => None,
    }
}

/// Whether a second exhaustive search of a freshly prepared problem, made where
/// the candidate claims validity and the problem has more than one predicate,
/// tells that it is safe.
pub open spec fn searched_again<D: Fn(&ChcProblem, SolveTimeout) -> Option<AcyclicDecision>>(
    prepared: PreparedTypedChcPdrInput,
    options: ChcPdrSolveOptions,
    admission: Admission,
    decide: D,
    safe: bool,
) -> bool {
    match (admission, prepared.problem) {
        (Ok(ChcPdrProofKind::ChcValidity), Some(problem)) => if problem@.predicates.len() >= 2 {
            exists|decision: Option<AcyclicDecision>| #[trigger]
                decide.ensures(
                    (&problem, evidence::watchdog_limit(evidence::effective_timeout(options))),
                    decision,
                ) && safe == (decision == Some(AcyclicDecision::Safe))
        } else {
            !safe
        },
        _ => !safe,
    }
}

fn search_again<D: Fn(&ChcProblem, SolveTimeout) -> Option<AcyclicDecision>>(
    prepared: &PreparedTypedChcPdrInput,
    options: &ChcPdrSolveOptions,
    admission: &Admission,
    decide: &D,
) -> (safe: bool)
    requires
        forall|problem: &ChcProblem, limit: SolveTimeout| #[trigger]
            decide.requires((problem, limit)),
    ensures
        searched_again(*prepared, *options, *admission, *decide, safe),
{
    match (admission, &prepared.problem) {
        (Ok(ChcPdrProofKind::ChcValidity), Some(problem)) => {
            if problem.predicates.len() < 2 {
                return false;
            }
            let ceiling = watchdog_ceiling(effective_typed_chc_timeout(options));
            let decision = decide(problem, ceiling);
            assert(decide.ensures((problem, ceiling), decision));
            match decision {
                Some(AcyclicDecision::Safe) => true,
                _ => false,
            }
        },
        _ => false,
    }
}

/// Whether an invariant that a response carries, and that is the only one, was
/// validated against a freshly prepared problem.
pub open spec fn revalidated<V: Fn(&ChcProblem, &Vec<u8>, SolveTimeout) -> bool>(
    verification: TypedChcPdrFullVerification,
    prepared: PreparedTypedChcPdrInput,
    options: ChcPdrSolveOptions,
    admission: Admission,
    validate: V,
    valid: bool,
) -> bool {
    match (admission, verification.verdict, prepared.problem) {
        (
            Ok(ChcPdrProofKind::PdrInvariant),
            FullVerificationVerdict::Proved { evidence },
            Some(problem),
        ) => {
            let artifacts = evidence.artifacts@;
            if forall|at: int|
                !#[trigger] seal::only(
                    artifacts,
                    FullVerificationArtifactKind::PdrInvariantModel,
                    at,
                ) {
                !valid
            } else {
                exists|at: int| #[trigger]
                    seal::only(artifacts, FullVerificationArtifactKind::PdrInvariantModel, at)
                        && match artifacts[at].materialization {
                        Some(retained) => validate.ensures(
                            (&problem, &retained.bytes, evidence::effective_timeout(options)),
                            valid,
                        ),
                        None => !valid,
                    }
            }
        },
        _ => !valid,
    }
}

fn revalidate<V: Fn(&ChcProblem, &Vec<u8>, SolveTimeout) -> bool>(
    verification: &TypedChcPdrFullVerification,
    prepared: &PreparedTypedChcPdrInput,
    options: &ChcPdrSolveOptions,
    admission: &Admission,
    validate: &V,
) -> (valid: bool)
    requires
        forall|problem: &ChcProblem, model: &Vec<u8>, limit: SolveTimeout| #[trigger]
            validate.requires((problem, model, limit)),
    ensures
        revalidated(*verification, *prepared, *options, *admission, *validate, valid),
{
    match (admission, &verification.verdict, &prepared.problem) {
        (
            Ok(ChcPdrProofKind::PdrInvariant),
            FullVerificationVerdict::Proved { evidence },
            Some(problem),
        ) => {
            let at: usize = match single_artifact(
                &evidence.artifacts,
                FullVerificationArtifactKind::PdrInvariantModel,
            ) {
                Some(at) => at,
                None => {
                    return false;
                },
            };
            assert(seal::only(
                evidence.artifacts@,
                FullVerificationArtifactKind::PdrInvariantModel,
                at as int,
            ));
            match &evidence.artifacts[at].materialization {
                Some(retained) => {
                    let limit = effective_typed_chc_timeout(options);
                    let valid = validate(problem, &retained.bytes, limit);
                    assert(validate.ensures((problem, &retained.bytes, limit), valid));
                    valid
                },
                None => false,
            }
        },
        _ => false,
    }
}

/// Whether a response is another one after its fresh replay.
pub open spec fn replayed_afresh<N, C, K, H, L, P, D, A, F, V>(
    obligation: MirChcPdrObligation,
    options: ChcPdrSolveOptions,
    build: BuildIdentity,
    wording: ReplayWording,
    layer: EvidenceLayer<N, C, K, H, L, P>,
    decide: D,
    policy: A,
    form: F,
    validate: V,
    verification: TypedChcPdrFullVerification,
    sealed: TypedChcPdrFullVerification,
) -> bool where
    N: Fn(&ChcProblem) -> String,
    C: Fn(&str) -> String,
    K: Fn(&FullVerificationCacheKeyParts) -> FullVerificationCacheKey,
    H: Fn(&[u8]) -> EvidenceHash,
    D: Fn(&ChcProblem, SolveTimeout) -> Option<AcyclicDecision>,
    A: Fn(&FullVerificationVerdict) -> Admission,
    F: Fn(&FullVerificationVerdict) -> Value,
    V: Fn(&ChcProblem, &Vec<u8>, SolveTimeout) -> bool,
 {
    exists|fresh: Option<FreshInput>| #[trigger]
        prepared_afresh(obligation, options, build, layer, fresh) && match fresh {
            None => sealed == verification,
            Some(fresh) => exists|
                admission: Admission,
                verdict_form: Value,
                safe: bool,
                valid: bool,
            |
                {
                    &&& #[trigger] policy.ensures((&verification.verdict,), admission)
                    &&& #[trigger] form.ensures((&verification.verdict,), verdict_form)
                    &&& #[trigger] searched_again(
                        fresh.prepared,
                        options,
                        admission,
                        decide,
                        safe,
                    )
                    &&& #[trigger] revalidated(
                        verification,
                        fresh.prepared,
                        options,
                        admission,
                        validate,
                        valid,
                    )
                    &&& seal::replay_sealed(
                        layer.sha256,
                        verification,
                        obligation,
                        fresh,
                        safe,
                        valid,
                        admission,
                        wording,
                        json::json_content(verdict_form),
                        sealed,
                    )
                },
        }
}

/// Runner that solves typed obligations under fixed options.
#[derive(Debug, Clone, Copy, PartialEq, Eq)]
pub struct NativeTypedChcPdrRunner {
    options: ChcPdrSolveOptions,
}

impl Default for NativeTypedChcPdrRunner {
    fn default() -> (runner: NativeTypedChcPdrRunner)
        ensures
            runner.chosen() == ChcPdrSolveOptions::standard(),
    {
        NativeTypedChcPdrRunner { options: ChcPdrSolveOptions::default() }
    }
}

impl NativeTypedChcPdrRunner {
    /// The options that the runner applies.
    pub closed spec fn chosen(self) -> ChcPdrSolveOptions {
        self.options
    }

    /// A runner with the default options.
    pub fn new() -> (runner: NativeTypedChcPdrRunner)
        ensures
            runner.chosen() == ChcPdrSolveOptions::standard(),
    {
        NativeTypedChcPdrRunner { options: ChcPdrSolveOptions::default() }
    }

    /// A runner with the given options.
    pub fn with_options(options: ChcPdrSolveOptions) -> (runner: NativeTypedChcPdrRunner)
        ensures
            runner.chosen() == options,
    {
        NativeTypedChcPdrRunner { options }
    }

    /// The options that the runner applies.
    pub fn options(&self) -> (options: &ChcPdrSolveOptions)
        ensures
            *options == self.chosen(),
    {
        &self.options
    }

    /// Solves an obligation and reports the outcome alone.
    pub fn solve<N, C, H, E>(
        &self,
        obligation: &MirChcPdrObligation,
        wording: &ReplayWording,
        render: &N,
        canonicalize: &C,
        sha256: &H,
        engine: &E,
    ) -> (answer: NativeSolveResult<ChcPdrSolveOutcome>) where
        N: Fn(&ChcProblem) -> String,
        C: Fn(&str) -> String,
        H: Fn(&[u8]) -> EvidenceHash,
        E: Fn(&ChcProblem, PlainEngine, SolveTimeout) -> Result<AyVerdict, PlainFault>,

        requires
            forall|problem: &ChcProblem| #[trigger] render.requires((problem,)),
            forall|input: &str| #[trigger] canonicalize.requires((input,)),
            evidence::total(*sha256),
            forall|problem: &ChcProblem, chosen: PlainEngine, limit: SolveTimeout| #[trigger]
                engine.requires((problem, chosen, limit)),
        ensures
            solve::solves_plainly(
                *obligation,
                self.chosen(),
                *wording,
                *render,
                *canonicalize,
                *sha256,
                *engine,
                answer,
            ),
    {
        solve_typed_chc_pdr(
            obligation,
            &self.options,
            wording,
            render,
            canonicalize,
            sha256,
            engine,
        )
    }

    /// Solves an obligation and gathers the evidence for the answer. The answer
    /// carries no authority.
    pub fn solve_full_verification<N, C, K, H, L, P, D, W, S, R>(
        &self,
        obligation: &MirChcPdrObligation,
        build: &BuildIdentity,
        wording: &ReplayWording,
        layer: &EvidenceLayer<N, C, K, H, L, P>,
        engines: &SolverEngines<D, W, S, R>,
    ) -> (answer: NativeSolveResult<TypedChcPdrFullVerification>) where
        N: Fn(&ChcProblem) -> String,
        C: Fn(&str) -> String,
        K: Fn(&FullVerificationCacheKeyParts) -> FullVerificationCacheKey,
        H: Fn(&[u8]) -> EvidenceHash,
        L: Fn(&MirChcPdrObligation, &CandidateBytes) -> Option<ChcPdrProofEvidence>,
        P: Fn(&ArtifactBytes) -> Option<FullVerificationArtifact>,
        D: Fn(&ChcProblem, SolveTimeout) -> Option<AcyclicDecision>,
        W: Fn(&ChcProblem, SolveTimeout) -> Option<LoopLaneRun>,
        S: Fn(&ChcProblem, u32) -> Option<AcyclicDecision>,
        R: Fn(&ChcProblem, SolveTimeout) -> Option<Result<ProofRun, String>>,

        requires
            identity::millis_fit(self.chosen().timeout),
            layer.total(),
            engines.total(),
        ensures
            solve::answers_request(
                *obligation,
                self.chosen(),
                *build,
                *wording,
                *layer,
                *engines,
                answer,
            ),
            answer matches Ok(verification) ==> solve::sound_response(
                *obligation,
                *wording,
                verification,
            ),
    {
        solve_typed_chc_pdr_full_verification(
            obligation,
            self.options,
            build,
            wording,
            layer,
            engines,
        )
    }

    /// Solves an obligation, then replays its candidate against the obligation
    /// prepared afresh. Where the replay succeeds the answer carries authority
    /// over the clauses; that they stand for a source program is for the caller to
    /// know. `policy` is the evidence policy, `form` serializes a verdict, and
    /// `validate` tells whether an invariant passes every clause of a problem.
    pub fn solve_full_verification_with_fresh_exact_replay<N, C, K, H, L, P, D, W, S, R, A, F, V>(
        &self,
        obligation: &MirChcPdrObligation,
        build: &BuildIdentity,
        wording: &ReplayWording,
        layer: &EvidenceLayer<N, C, K, H, L, P>,
        engines: &SolverEngines<D, W, S, R>,
        policy: &A,
        form: &F,
        validate: &V,
    ) -> (answer: NativeSolveResult<TypedChcPdrFullVerification>) where
        N: Fn(&ChcProblem) -> String,
        C: Fn(&str) -> String,
        K: Fn(&FullVerificationCacheKeyParts) -> FullVerificationCacheKey,
        H: Fn(&[u8]) -> EvidenceHash,
        L: Fn(&MirChcPdrObligation, &CandidateBytes) -> Option<ChcPdrProofEvidence>,
        P: Fn(&ArtifactBytes) -> Option<FullVerificationArtifact>,
        D: Fn(&ChcProblem, SolveTimeout) -> Option<AcyclicDecision>,
        W: Fn(&ChcProblem, SolveTimeout) -> Option<LoopLaneRun>,
        S: Fn(&ChcProblem, u32) -> Option<AcyclicDecision>,
        R: Fn(&ChcProblem, SolveTimeout) -> Option<Result<ProofRun, String>>,
        A: Fn(&FullVerificationVerdict) -> Admission,
        F: Fn(&FullVerificationVerdict) -> Value,
        V: Fn(&ChcProblem, &Vec<u8>, SolveTimeout) -> bool,

        requires
            identity::millis_fit(self.chosen().timeout),
            layer.total(),
            engines.total(),
            forall|verdict: &FullVerificationVerdict| #[trigger] policy.requires((verdict,)),
            forall|verdict: &FullVerificationVerdict| #[trigger] form.requires((verdict,)),
            forall|problem: &ChcProblem, model: &Vec<u8>, limit: SolveTimeout| #[trigger]
                validate.requires((problem, model, limit)),
        ensures
            exists|solved: NativeSolveResult<TypedChcPdrFullVerification>| #[trigger]
                solve::answers_request(
                    *obligation,
                    self.chosen(),
                    *build,
                    *wording,
                    *layer,
                    *engines,
                    solved,
                ) && match solved {
                    Err(fault) => error::failure(answer) == Some(fault@),
                    Ok(verification) => answer matches Ok(sealed) && replayed_afresh(
                        *obligation,
                        self.chosen(),
                        *build,
                        *wording,
                        *layer,
                        engines.decide,
                        *policy,
                        *form,
                        *validate,
                        verification,
                        sealed,
                    ),
                },
    {
        let solved = self.solve_full_verification(obligation, build, wording, layer, engines);
        let ghost kept = solved;
        assert(solve::answers_request(
            *obligation,
            self.chosen(),
            *build,
            *wording,
            *layer,
            *engines,
            kept,
        ));
        let verification = match solved {
            Ok(verification) => verification,
            Err(fault) => {
                return Err(fault);
            },
        };
        let fresh = prepare_afresh(obligation, &self.options, build, layer);
        let ghost kept_fresh = fresh;
        assert(prepared_afresh(*obligation, self.chosen(), *build, *layer, kept_fresh));
        let fresh = match fresh {
            Some(fresh) => fresh,
            None => {
                return Ok(verification);
            },
        };
        let admission = policy(&verification.verdict);
        assert(policy.ensures((&verification.verdict,), admission));
        let verdict_form = form(&verification.verdict);
        assert(form.ensures((&verification.verdict,), verdict_form));
        let safe = search_again(&fresh.prepared, &self.options, &admission, &engines.decide);
        assert(searched_again(
            fresh.prepared,
            self.chosen(),
            admission,
            engines.decide,
            safe,
        ));
        let valid = revalidate(
            &verification,
            &fresh.prepared,
            &self.options,
            &admission,
            validate,
        );
        assert(revalidated(
            verification,
            fresh.prepared,
            self.chosen(),
            admission,
            *validate,
            valid,
        ));
        Ok(
            verification.with_private_exact_typed_replay_authority(
                obligation,
                &fresh,
                safe,
                valid,
                &admission,
                wording,
                &verdict_form,
                &layer.sha256,
            ),
        )
    }

    /// Solves an obligation and demands authority of the answer, which a plain
    /// solve never has.
    pub fn solve_native_proof_grade<N, C, K, H, L, P, D, W, S, R, A, F>(
        &self,
        obligation: &MirChcPdrObligation,
        build: &BuildIdentity,
        wording: &ReplayWording,
        layer: &EvidenceLayer<N, C, K, H, L, P>,
        engines: &SolverEngines<D, W, S, R>,
        policy: &A,
        form: &F,
    ) -> (graded: NativeSolveResult<TypedChcPdrFullVerification>) where
        N: Fn(&ChcProblem) -> String,
        C: Fn(&str) -> String,
        K: Fn(&FullVerificationCacheKeyParts) -> FullVerificationCacheKey,
        H: Fn(&[u8]) -> EvidenceHash,
        L: Fn(&MirChcPdrObligation, &CandidateBytes) -> Option<ChcPdrProofEvidence>,
        P: Fn(&ArtifactBytes) -> Option<FullVerificationArtifact>,
        D: Fn(&ChcProblem, SolveTimeout) -> Option<AcyclicDecision>,
        W: Fn(&ChcProblem, SolveTimeout) -> Option<LoopLaneRun>,
        S: Fn(&ChcProblem, u32) -> Option<AcyclicDecision>,
        R: Fn(&ChcProblem, SolveTimeout) -> Option<Result<ProofRun, String>>,
        A: Fn(&FullVerificationVerdict) -> Admission,
        F: Fn(&FullVerificationVerdict) -> Value,

        requires
            identity::millis_fit(self.chosen().timeout),
            layer.total(),
            engines.total(),
            forall|verdict: &FullVerificationVerdict| #[trigger] policy.requires((verdict,)),
            forall|verdict: &FullVerificationVerdict| #[trigger] form.requires((verdict,)),
        ensures
            graded is Err,
            exists|solved: NativeSolveResult<TypedChcPdrFullVerification>| #[trigger]
                solve::answers_request(
                    *obligation,
                    self.chosen(),
                    *build,
                    *wording,
                    *layer,
                    *engines,
                    solved,
                ) && solve::refuses_proof_grade(*policy, solved, error::failure(graded)->0),
    {
        solve_typed_chc_pdr_native_proof_grade(
            obligation,
            self.options,
            build,
            wording,
            layer,
            engines,
            policy,
            form,
        )
    }
}

} // verus!
