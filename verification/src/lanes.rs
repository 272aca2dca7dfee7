//! Solving a typed obligation.
//!
//! Outside engines decide; the functions here say what is made of each of their
//! answers. A derivation of the query target refutes an obligation only where no
//! unsupported construct was lowered to an error rule. A safe answer becomes a
//! candidate that stays undecided until it is replayed afresh. Whatever exceeds
//! its time decides nothing.
use serde_json::Value;
use vstd::prelude::*;
use vstd::string::*;

use crate::candidates;
use crate::candidates::{
    emit_pdr_invariant_from_run, typed_acyclic_safe_verdict, VerifiedChcResult,
};
use crate::chc::ChcProblem;
use crate::documents;
use crate::documents::{acyclic_counterexample_value, run_counterexample_value, ProofRunCertificate};
use crate::error;
use crate::error::{ErrorModel, NativeSolveError, NativeSolveResult};
use crate::evidence;
use crate::evidence::{
    effective_typed_chc_timeout, fail_closed_lowering_reasons, fail_closed_lowering_sites,
    refuted_outcome, undecided_outcome, watchdog_ceiling, ArtifactBytes, ChcPdrCexVerification,
    ChcPdrSolveOptions, ChcPdrSolveOutcome, EvidenceHash, MirChcPdrObligation, SolveTimeout,
    WitnessModel,
};
use crate::identity;
use crate::identity::{
    typed_artifact_directory, FullVerificationCacheKey, NativeTypedChcPdrNormalizedInput,
    PreparedTypedChcPdrInput, TypedChcPdrRoute,
};
use crate::json;
use crate::json::JsonModel;
use crate::lowering::TypedChcLoweringAccounting;
use crate::seal::TypedChcPdrFullVerification;
use crate::text;
use crate::text::{concat2, concat4, decimal_text};
use crate::verdicts;
use crate::verdicts::{
    fail_closed_lowering_demotion_reason, failed_verdict, typed_chc_pdr_refutation_witness,
    CandidateBytes, ChcPdrProofEvidence, FullVerificationArtifact, FullVerificationVerdict,
    ReplayWording,
};

verus! {

/// What a solve is about and how it is to be identified.
pub struct TypedSolve<'a> {
    pub obligation: &'a MirChcPdrObligation,
    pub options: ChcPdrSolveOptions,
    pub normalized: NativeTypedChcPdrNormalizedInput,
    pub problem: ChcProblem,
    /// How exact the lowering was.
    pub lowering: Option<TypedChcLoweringAccounting>,
    pub cache_key: FullVerificationCacheKey,
    pub artifact_directory: String,
    pub wording: &'a ReplayWording,
}

/// Why a prepared input is no start of a solve.
pub open spec fn start_fault(prepared: PreparedTypedChcPdrInput) -> Option<ErrorModel> {
    if prepared.problem is None {
        Some(
            ErrorModel::SolverFailed {
                reason: "PDR route preparation did not retain the lowered typed CHC problem"@,
            },
        )
    } else if prepared.normalized.route != TypedChcPdrRoute::PdrProof {
        Some(
            ErrorModel::SolverFailed {
                reason: "lowered typed CHC problem was prepared for a non-PDR route"@,
            },
        )
    } else {
        None
    }
}

impl<'a> TypedSolve<'a> {
    /// The solve of an obligation from its prepared input.
    pub fn start(
        obligation: &'a MirChcPdrObligation,
        options: ChcPdrSolveOptions,
        prepared: PreparedTypedChcPdrInput,
        cache_key: FullVerificationCacheKey,
        wording: &'a ReplayWording,
    ) -> (started: NativeSolveResult<TypedSolve<'a>>)
        ensures
            match start_fault(prepared) {
                Some(fault) => error::failure(started) == Some(fault),
                None => started matches Ok(solve) && {
                    &&& solve.obligation == obligation
                    &&& solve.options == options
                    &&& solve.normalized == prepared.normalized
                    &&& Some(solve.problem) == prepared.problem
                    &&& solve.lowering == prepared.lowering
                    &&& solve.cache_key == cache_key
                    &&& solve.artifact_directory@ == identity::artifact_directory_of(
                        cache_key.key@,
                    )
                    &&& solve.wording == wording
                },
            },
    {
        let problem = match prepared.problem {
            Some(problem) => problem,
            None => {
                return Err(
                    NativeSolveError::SolverFailed {
                        reason:
                            "PDR route preparation did not retain the lowered typed CHC problem".to_owned(),
                    },
                );
            },
        };
        match prepared.normalized.route {
            TypedChcPdrRoute::PdrProof => {},
            TypedChcPdrRoute::TriviallySafe => {
                return Err(
                    NativeSolveError::SolverFailed {
                        reason:
                            "lowered typed CHC problem was prepared for a non-PDR route".to_owned(),
                    },
                );
            },
        }
        let artifact_directory = typed_artifact_directory(&cache_key);
        Ok(
            TypedSolve {
                obligation,
                options,
                normalized: prepared.normalized,
                problem,
                lowering: prepared.lowering,
                cache_key,
                artifact_directory,
                wording,
            },
        )
    }

    /// Whether a response is one of this solve, without a seal.
    pub open spec fn answered_by(self, verification: TypedChcPdrFullVerification) -> bool {
        &&& verification.route == self.normalized.route
        &&& verification.cache_key.same_as(self.cache_key)
        &&& verification.artifact_directory@ == self.artifact_directory@
        &&& verification.seal() is None
    }

    fn answer(&self, outcome: ChcPdrSolveOutcome, verdict: FullVerificationVerdict) -> (verification:
        TypedChcPdrFullVerification)
        ensures
            self.answered_by(verification),
            verification.outcome == outcome,
            verification.verdict == verdict,
    {
        TypedChcPdrFullVerification::unsealed(
            self.normalized.route,
            self.cache_key.duplicate(),
            self.artifact_directory.clone(),
            outcome,
            verdict,
        )
    }

    /// Whether a response decides nothing, for reasons.
    pub open spec fn undecided_by(
        self,
        verification: TypedChcPdrFullVerification,
        reason: Seq<char>,
        diagnostic: Seq<char>,
        verdict_reason: Seq<char>,
    ) -> bool {
        &&& self.answered_by(verification)
        &&& verification.outcome@ == evidence::undecided(
            self.obligation.obligation_id@,
            reason,
            self.obligation.size(),
            diagnostic,
        )
        &&& verdicts::unknown_for(verification.verdict, verdict_reason)
    }

    fn answer_undecided(&self, reason: &str, diagnostic: &str, verdict_reason: &str) -> (verification:
        TypedChcPdrFullVerification)
        ensures
            self.undecided_by(verification, reason@, diagnostic@, verdict_reason@),
    {
        let outcome = undecided_outcome(
            self.obligation.obligation_id.as_str(),
            reason,
            self.obligation.stats(),
            diagnostic,
        );
        self.answer(
            outcome,
            FullVerificationVerdict::Unknown { reason: verdict_reason.to_owned() },
        )
    }

    /// Whether a response refutes the obligation by a counterexample. It carries a
    /// witness exactly where the lowering lost nothing.
    pub open spec fn refuted_by<H: Fn(&[u8]) -> EvidenceHash>(
        self,
        sha256: H,
        verification: TypedChcPdrFullVerification,
        counterexample: JsonModel,
        checked: ChcPdrCexVerification,
        diagnostic: Seq<char>,
    ) -> bool {
        &&& self.answered_by(verification)
        &&& verdicts::fails_by(
            verification.verdict,
            self.obligation.obligation_id@,
            counterexample,
        )
        &&& exists|witness: Option<WitnessModel>| #[trigger]
            self.witnessed_by(sha256, witness, counterexample, checked)
                && verification.outcome@ == evidence::refuted(
                self.obligation.obligation_id@,
                witness,
                self.obligation.size(),
                diagnostic,
            )
    }

    /// Whether a witness is the right one for a counterexample.
    pub open spec fn witnessed_by<H: Fn(&[u8]) -> EvidenceHash>(
        self,
        sha256: H,
        witness: Option<WitnessModel>,
        counterexample: JsonModel,
        checked: ChcPdrCexVerification,
    ) -> bool {
        match witness {
            Some(witness) => self.lowering == Some(TypedChcLoweringAccounting::exact())
                && verdicts::binds(
                sha256,
                self.obligation.obligation_id@,
                self.normalized.normalized_input_hash@,
                self.options.engine,
                self.normalized.route,
                counterexample,
                checked,
                witness,
            ),
            None => self.lowering != Some(TypedChcLoweringAccounting::exact()),
        }
    }

    pub(crate) fn answer_refuted<H: Fn(&[u8]) -> EvidenceHash>(
        &self,
        counterexample: &Value,
        checked: ChcPdrCexVerification,
        diagnostic: &str,
        sha256: &H,
    ) -> (verification: TypedChcPdrFullVerification)
        requires
            evidence::total(*sha256),
        ensures
            self.refuted_by(
                *sha256,
                verification,
                json::json_content(*counterexample),
                checked,
                diagnostic@,
            ),
    {
        let id = self.obligation.obligation_id.as_str();
        let witness = typed_chc_pdr_refutation_witness(
            id,
            &self.normalized.normalized_input_hash,
            self.options.engine,
            self.normalized.route,
            counterexample,
            checked,
            self.lowering,
            sha256,
        );
        let ghost model = evidence::optional_witness(witness);
        assert(self.witnessed_by(*sha256, model, json::json_content(*counterexample), checked));
        let outcome = refuted_outcome(id, witness, self.obligation.stats(), diagnostic);
        self.answer(outcome, failed_verdict(id, counterexample))
    }

    /// Why a refutation is not reported: an error rule for an unsupported construct
    /// may be part of the derivation.
    pub open spec fn demotion(self) -> Seq<char> {
        verdicts::demotion_reason(
            self.obligation.fail_closed_sites() as nat,
            self.obligation.fail_closed_reasons(),
        )
    }

    fn demotion_text(&self) -> (reason: String)
        ensures
            reason@ == self.demotion(),
    {
        let reasons = fail_closed_lowering_reasons(self.obligation);
        fail_closed_lowering_demotion_reason(
            fail_closed_lowering_sites(self.obligation),
            reasons.as_slice(),
        )
    }
}

/// Model of an error derivation, and the clauses of the derivation.
#[derive(Debug, PartialEq, Eq)]
pub struct AcyclicUnsafeWitness {
    pub model: Value,
    pub derivation_clause_indices: Vec<u64>,
}

/// Answer of the exhaustive search of an acyclic problem.
#[derive(Debug, PartialEq, Eq)]
pub enum AcyclicDecision {
    /// An error derivation has a model.
    Unsafe(AcyclicUnsafeWitness),
    /// No error derivation has a model.
    Safe,
    /// The search did not decide.
    Inconclusive,
}

/// The text for a search that exceeded its time.
pub open spec fn ceiling_exceeded(what: Seq<char>, ceiling: SolveTimeout) -> Seq<char> {
    text::concat(
        seq![
            "native "@,
            what,
            " exceeded the "@,
            text::concat(seq![text::decimal(ceiling.secs as nat), "s wall-clock ceiling"@]),
        ],
    )
}

fn ceiling_text(what: &str, ceiling: SolveTimeout) -> (reason: String)
    ensures
        reason@ == ceiling_exceeded(what@, ceiling),
{
    let secs = decimal_text(ceiling.secs);
    let limit = concat2(secs.as_str(), "s wall-clock ceiling");
    concat4("native ", what, " exceeded the ", limit.as_str())
}

/// Whether a problem encodes its obligation whole: it has a predicate beside the
/// query target. With a single predicate it may be only a part.
pub open spec fn encodes_whole(problem: ChcProblem) -> bool {
    problem@.predicates.len() >= 2
}

/// Whether a step is what follows from the answer of the exhaustive search. The
/// solve goes on where the search did not decide, and where it found nothing in a
/// problem that may be only part of its obligation.
pub open spec fn follows_search<H, L, P>(
    solve: TypedSolve,
    sha256: H,
    link: L,
    publish: P,
    decision: Option<AcyclicDecision>,
    step: Option<TypedChcPdrFullVerification>,
) -> bool where
    H: Fn(&[u8]) -> EvidenceHash,
    L: Fn(&MirChcPdrObligation, &CandidateBytes) -> Option<ChcPdrProofEvidence>,
    P: Fn(&ArtifactBytes) -> Option<FullVerificationArtifact>,
 {
    match decision {
        None => {
            let reason = ceiling_exceeded(
                "direct-SMT decision search"@,
                evidence::watchdog_limit(evidence::effective_timeout(solve.options)),
            );
            step matches Some(verification) && solve.undecided_by(
                verification,
                reason,
                "native typed-CHC solve exceeded its wall-clock ceiling"@,
                reason,
            )
        },
        Some(AcyclicDecision::Unsafe(found)) => if solve.obligation.fail_closed_sites() > 0 {
            step matches Some(verification) && solve.undecided_by(
                verification,
                solve.demotion(),
                "direct SMT satisfiable typed query fact discarded: the acyclic error derivation may pass through a fail-closed lowering error rule (admission failure, not a program trap)"@,
                solve.demotion(),
            )
        } else {
            step matches Some(verification) && solve.refuted_by(
                sha256,
                verification,
                documents::acyclic_counterexample(
                    found.derivation_clause_indices@,
                    json::json_content(found.model),
                ),
                ChcPdrCexVerification::DirectSmtModel,
                "direct SMT confirmed a satisfiable typed query fact; refuted obligation via acyclic error derivation before PDR"@,
            )
        },
        Some(AcyclicDecision::Safe) => if encodes_whole(solve.problem) {
            step matches Some(verification) && {
                &&& solve.answered_by(verification)
                &&& verification.outcome@ == evidence::undecided(
                    solve.obligation.obligation_id@,
                    solve.wording.chc_validity@,
                    solve.obligation.size(),
                    "private acyclic direct-SMT exhaustive derivation found a COMPLETE-encoding obligation SAFE; public ChcValidity evidence remains a candidate"@,
                )
                &&& candidates::acyclic_safe_verdict(
                    sha256,
                    link,
                    publish,
                    *solve.obligation,
                    solve.normalized,
                    solve.cache_key.key@,
                    solve.obligation.size(),
                    solve.problem@.predicates.len(),
                    verification.verdict,
                )
            }
        } else {
            step is None
        },
        Some(AcyclicDecision::Inconclusive) => step is None,
    }
}

/// What follows from the answer of the exhaustive search; nothing where the solve
/// goes on.
pub fn conclude_search<H, L, P>(
    solve: &TypedSolve,
    decision: &Option<AcyclicDecision>,
    sha256: &H,
    link: &L,
    publish: &P,
) -> (step: Option<TypedChcPdrFullVerification>) where
    H: Fn(&[u8]) -> EvidenceHash,
    L: Fn(&MirChcPdrObligation, &CandidateBytes) -> Option<ChcPdrProofEvidence>,
    P: Fn(&ArtifactBytes) -> Option<FullVerificationArtifact>,

    requires
        evidence::total(*sha256),
        forall|candidate: &CandidateBytes| #[trigger] link.requires((solve.obligation, candidate)),
        forall|bytes: &ArtifactBytes| #[trigger] publish.requires((bytes,)),
    ensures
        follows_search(*solve, *sha256, *link, *publish, *decision, step),
{
    match decision {
        None => {
            let ceiling = watchdog_ceiling(effective_typed_chc_timeout(&solve.options));
            let reason = ceiling_text("direct-SMT decision search", ceiling);
            Some(
                solve.answer_undecided(
                    reason.as_str(),
                    "native typed-CHC solve exceeded its wall-clock ceiling",
                    reason.as_str(),
                ),
            )
        },
        Some(AcyclicDecision::Unsafe(found)) => {
            if fail_closed_lowering_sites(solve.obligation) > 0 {
                let reason = solve.demotion_text();
                return Some(
                    solve.answer_undecided(
                        reason.as_str(),
                        "direct SMT satisfiable typed query fact discarded: the acyclic error derivation may pass through a fail-closed lowering error rule (admission failure, not a program trap)",
                        reason.as_str(),
                    ),
                );
            }
            let counterexample = acyclic_counterexample_value(
                &found.derivation_clause_indices,
                &found.model,
            );
            Some(
                solve.answer_refuted(
                    &counterexample,
                    ChcPdrCexVerification::DirectSmtModel,
                    "direct SMT confirmed a satisfiable typed query fact; refuted obligation via acyclic error derivation before PDR",
                    sha256,
                ),
            )
        },
        Some(AcyclicDecision::Safe) => {
            if solve.problem.predicates.len() < 2 {
                return None;
            }
            let stats = solve.obligation.stats();
            let verdict = typed_acyclic_safe_verdict(
                solve.obligation,
                stats,
                solve.problem.predicates.len(),
                &solve.normalized,
                &solve.cache_key,
                sha256,
                link,
                publish,
            );
            let outcome = undecided_outcome(
                solve.obligation.obligation_id.as_str(),
                solve.wording.chc_validity.as_str(),
                stats,
                "private acyclic direct-SMT exhaustive derivation found a COMPLETE-encoding obligation SAFE; public ChcValidity evidence remains a candidate",
            );
            Some(solve.answer(outcome, verdict))
        },
        Some(AcyclicDecision::Inconclusive) => None,
    }
}

/// Answer of a proof run.
#[derive(Debug, PartialEq, Eq)]
pub struct ProofRun {
    pub result: VerifiedChcResult,
    pub certificate: ProofRunCertificate,
}

/// What the search for a loop invariant did.
#[derive(Debug, PartialEq, Eq)]
pub struct LoopLaneRun {
    /// Whether an invariant was proposed that passed every clause of the problem.
    pub validated: bool,
    /// The proof run that the proposed invariant was given to, where it did not
    /// fail.
    pub run: Option<ProofRun>,
}

/// Whether a response transports the invariant of a run, where the run has one.
pub open spec fn transports<H, L, P>(
    solve: TypedSolve,
    sha256: H,
    link: L,
    publish: P,
    run: ProofRun,
    step: Option<TypedChcPdrFullVerification>,
) -> bool where
    H: Fn(&[u8]) -> EvidenceHash,
    L: Fn(&MirChcPdrObligation, &CandidateBytes) -> Option<ChcPdrProofEvidence>,
    P: Fn(&ArtifactBytes) -> Option<FullVerificationArtifact>,
 {
    exists|proves: bool| #[trigger]
        candidates::proves_input(
            sha256,
            run.result,
            run.certificate,
            solve.normalized.normalized_input@,
            proves,
        ) && match candidates::transported(run.result, run.certificate, proves) {
            Some(strict_model) => step matches Some(verification) && solve.answered_by(
                verification,
            ) && candidates::transport_result(
                sha256,
                link,
                publish,
                run.certificate,
                strict_model,
                *solve.obligation,
                solve.normalized,
                solve.cache_key.key@,
                solve.obligation.size(),
                *solve.wording,
                verification.outcome@,
                verification.verdict,
            ),
            None => step is None,
        }
}

fn transport_run<H, L, P>(
    solve: &TypedSolve,
    run: &ProofRun,
    sha256: &H,
    link: &L,
    publish: &P,
) -> (step: Option<TypedChcPdrFullVerification>) where
    H: Fn(&[u8]) -> EvidenceHash,
    L: Fn(&MirChcPdrObligation, &CandidateBytes) -> Option<ChcPdrProofEvidence>,
    P: Fn(&ArtifactBytes) -> Option<FullVerificationArtifact>,

    requires
        evidence::total(*sha256),
        forall|candidate: &CandidateBytes| #[trigger] link.requires((solve.obligation, candidate)),
        forall|bytes: &ArtifactBytes| #[trigger] publish.requires((bytes,)),
    ensures
        transports(*solve, *sha256, *link, *publish, *run, step),
{
    match emit_pdr_invariant_from_run(
        &run.result,
        &run.certificate,
        solve.obligation,
        solve.obligation.stats(),
        &solve.normalized,
        &solve.cache_key,
        solve.wording,
        sha256,
        link,
        publish,
    ) {
        Some((outcome, verdict)) => Some(solve.answer(outcome, verdict)),
        None => None,
    }
}

/// Whether a step is what follows from the search for a loop invariant. An
/// invariant is transported only where it was validated against the problem and
/// then accepted by a proof run about this very input; anything else decides
/// nothing.
pub open spec fn follows_loop_lane<H, L, P>(
    solve: TypedSolve,
    sha256: H,
    link: L,
    publish: P,
    lane: Option<LoopLaneRun>,
    step: Option<TypedChcPdrFullVerification>,
) -> bool where
    H: Fn(&[u8]) -> EvidenceHash,
    L: Fn(&MirChcPdrObligation, &CandidateBytes) -> Option<ChcPdrProofEvidence>,
    P: Fn(&ArtifactBytes) -> Option<FullVerificationArtifact>,
 {
    match lane {
        Some(LoopLaneRun { validated, run: Some(run) }) => if validated {
            transports(solve, sha256, link, publish, run, step)
        } else {
            step is None
        },
        _ => step is None,
    }
}

/// What follows from the search for a loop invariant; nothing where it found none
/// or exceeded its time.
pub fn conclude_loop_lane<H, L, P>(
    solve: &TypedSolve,
    lane: &Option<LoopLaneRun>,
    sha256: &H,
    link: &L,
    publish: &P,
) -> (step: Option<TypedChcPdrFullVerification>) where
    H: Fn(&[u8]) -> EvidenceHash,
    L: Fn(&MirChcPdrObligation, &CandidateBytes) -> Option<ChcPdrProofEvidence>,
    P: Fn(&ArtifactBytes) -> Option<FullVerificationArtifact>,

    requires
        evidence::total(*sha256),
        forall|candidate: &CandidateBytes| #[trigger] link.requires((solve.obligation, candidate)),
        forall|bytes: &ArtifactBytes| #[trigger] publish.requires((bytes,)),
    ensures
        follows_loop_lane(*solve, *sha256, *link, *publish, *lane, step),
{
    match lane {
        Some(found) => match &found.run {
            Some(run) => if found.validated {
                transport_run(solve, run, sha256, link, publish)
            } else {
                None
            },
            None => None,
        },
        None => None,
    }
}

/// What a proof run leads to.
pub enum RunStep {
    /// The solve is over.
    Answered(TypedChcPdrFullVerification),
    /// The run did not decide, for a reason; the fallback lanes are next.
    Undecided(String),
}

/// Whether a step is what follows from a proof run.
pub open spec fn follows_run<H, L, P>(
    solve: TypedSolve,
    sha256: H,
    link: L,
    publish: P,
    run: Option<Result<ProofRun, String>>,
    step: NativeSolveResult<RunStep>,
) -> bool where
    H: Fn(&[u8]) -> EvidenceHash,
    L: Fn(&MirChcPdrObligation, &CandidateBytes) -> Option<ChcPdrProofEvidence>,
    P: Fn(&ArtifactBytes) -> Option<FullVerificationArtifact>,
 {
    match run {
        None => {
            let reason = ceiling_exceeded(
                "PDR proof search"@,
                evidence::watchdog_limit(evidence::effective_timeout(solve.options)),
            );
            step matches Ok(RunStep::Answered(verification)) && solve.undecided_by(
                verification,
                reason,
                "native typed-CHC solve exceeded its wall-clock ceiling"@,
                reason,
            )
        },
        Some(Err(fault)) => error::failure(step) == Some(
            ErrorModel::SolverFailed {
                reason: text::concat(seq!["ay-chc PDR proof run failed: "@, fault@]),
            },
        ),
        Some(Ok(run)) => match run.result {
            VerifiedChcResult::Safe { .. } => step matches Ok(RunStep::Answered(verification)) && (
            transports(solve, sha256, link, publish, run, Some(verification)) || transports(
                solve,
                sha256,
                link,
                publish,
                run,
                None,
            ) && solve.undecided_by(
                verification,
                "ay-chc PDR proof metadata was not accepted"@,
                "typed PDR proof metadata failed acceptance checks"@,
                "typed PDR proof metadata failed acceptance checks"@,
            )),
            VerifiedChcResult::Unsafe { step_count, rendering } => if solve.obligation.fail_closed_sites()
                > 0 {
                step matches Ok(RunStep::Answered(verification)) && solve.undecided_by(
                    verification,
                    solve.demotion(),
                    "ay-chc counterexample discarded: the derivation may pass through a fail-closed lowering error rule (admission failure, not a program trap)"@,
                    solve.demotion(),
                )
            } else {
                step matches Ok(RunStep::Answered(verification)) && solve.refuted_by(
                    sha256,
                    verification,
                    documents::run_counterexample(
                        step_count,
                        rendering@,
                        json::json_content(run.certificate.metadata),
                    ),
                    ChcPdrCexVerification::AyChcReplayVerified { step_count },
                    "ay-chc verified counterexample for typed CHC/PDR obligation"@,
                )
            },
            VerifiedChcResult::Unknown { reason } => step matches Ok(RunStep::Undecided(own))
                && own@ == reason@,
            VerifiedChcResult::Unrecognized => step matches Ok(RunStep::Answered(verification))
                && solve.undecided_by(
                verification,
                "ay-chc returned an unrecognized non-exhaustive result"@,
                "ay-chc returned unrecognized result for typed CHC/PDR obligation"@,
                "ay-chc returned an unrecognized non-exhaustive result"@,
            ),
        },
    }
}

/// What follows from a proof run.
pub fn conclude_run<H, L, P>(
    solve: &TypedSolve,
    run: &Option<Result<ProofRun, String>>,
    sha256: &H,
    link: &L,
    publish: &P,
) -> (step: NativeSolveResult<RunStep>) where
    H: Fn(&[u8]) -> EvidenceHash,
    L: Fn(&MirChcPdrObligation, &CandidateBytes) -> Option<ChcPdrProofEvidence>,
    P: Fn(&ArtifactBytes) -> Option<FullVerificationArtifact>,

    requires
        evidence::total(*sha256),
        forall|candidate: &CandidateBytes| #[trigger] link.requires((solve.obligation, candidate)),
        forall|bytes: &ArtifactBytes| #[trigger] publish.requires((bytes,)),
    ensures
        follows_run(*solve, *sha256, *link, *publish, *run, step),
{
    let run = match run {
        None => {
            let ceiling = watchdog_ceiling(effective_typed_chc_timeout(&solve.options));
            let reason = ceiling_text("PDR proof search", ceiling);
            return Ok(
                RunStep::Answered(
                    solve.answer_undecided(
                        reason.as_str(),
                        "native typed-CHC solve exceeded its wall-clock ceiling",
                        reason.as_str(),
                    ),
                ),
            );
        },
        Some(Err(fault)) => {
            return Err(
                NativeSolveError::SolverFailed {
                    reason: concat2("ay-chc PDR proof run failed: ", fault.as_str()),
                },
            );
        },
        Some(Ok(run)) => run,
    };
    match &run.result {
        VerifiedChcResult::Safe { .. } => match transport_run(solve, run, sha256, link, publish) {
            Some(verification) => Ok(RunStep::Answered(verification)),
            None => Ok(
                RunStep::Answered(
                    solve.answer_undecided(
                        "ay-chc PDR proof metadata was not accepted",
                        "typed PDR proof metadata failed acceptance checks",
                        "typed PDR proof metadata failed acceptance checks",
                    ),
                ),
            ),
        },
        VerifiedChcResult::Unsafe { step_count, rendering } => {
            if fail_closed_lowering_sites(solve.obligation) > 0 {
                let reason = solve.demotion_text();
                return Ok(
                    RunStep::Answered(
                        solve.answer_undecided(
                            reason.as_str(),
                            "ay-chc counterexample discarded: the derivation may pass through a fail-closed lowering error rule (admission failure, not a program trap)",
                            reason.as_str(),
                        ),
                    ),
                );
            }
            let counterexample = run_counterexample_value(
                *step_count,
                rendering.as_str(),
                &run.certificate.metadata,
            );
            Ok(
                RunStep::Answered(
                    solve.answer_refuted(
                        &counterexample,
                        ChcPdrCexVerification::AyChcReplayVerified { step_count: *step_count },
                        "ay-chc verified counterexample for typed CHC/PDR obligation",
                        sha256,
                    ),
                ),
            )
        },
        VerifiedChcResult::Unknown { reason } => Ok(RunStep::Undecided(reason.clone())),
        VerifiedChcResult::Unrecognized => Ok(
            RunStep::Answered(
                solve.answer_undecided(
                    "ay-chc returned an unrecognized non-exhaustive result",
                    "ay-chc returned unrecognized result for typed CHC/PDR obligation",
                    "ay-chc returned an unrecognized non-exhaustive result",
                ),
            ),
        ),
    }
}

/// Whether a response is the one for a solve that no lane decided.
pub open spec fn gave_up(
    solve: TypedSolve,
    reason: Seq<char>,
    verification: TypedChcPdrFullVerification,
) -> bool {
    solve.undecided_by(
        verification,
        reason,
        "ay-chc returned unknown for typed CHC/PDR obligation"@,
        text::concat(seq!["ay-chc returned unknown: "@, reason]),
    )
}

/// The response for a solve that no lane decided.
pub fn give_up(solve: &TypedSolve, reason: &str) -> (verification: TypedChcPdrFullVerification)
    ensures
        gave_up(*solve, reason@, verification),
{
    let verdict_reason = concat2("ay-chc returned unknown: ", reason);
    solve.answer_undecided(
        reason,
        "ay-chc returned unknown for typed CHC/PDR obligation",
        verdict_reason.as_str(),
    )
}

} // verus!
