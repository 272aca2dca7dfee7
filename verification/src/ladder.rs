//! Refutation by bounded unrolling.
//!
//! The last lane for a cyclic problem that no other lane decided. Each rung of the
//! ladder unrolls the problem to more retreating steps and asks for an error
//! derivation of the copy. One that is found is a derivation of the problem itself
//! with the levels forgotten; that none is found says nothing about longer ones.
use vstd::prelude::*;
use vstd::string::*;

use crate::chc::ChcProblem;
use crate::documents;
use crate::documents::unrolled_counterexample_value;
use crate::evidence;
use crate::evidence::{
    fail_closed_lowering_sites, ChcPdrCexVerification, EvidenceHash, MirObligationKind, StatusModel,
};
use crate::graph;
use crate::json;
use crate::lanes::{AcyclicDecision, TypedSolve};
use crate::lowering::TypedChcLoweringAccounting;
use crate::seal::TypedChcPdrFullVerification;
use crate::text;
use crate::text::{concat3, decimal_text};
use crate::unroll;
use crate::unroll::{bounded_unroll_chc_for_refutation, BOUNDED_UNROLL_K_LADDER};

verus! {

/// Whether the lane takes a solve: an assertion of a complete translation that
/// lost nothing, lowered no unsupported construct and has a cycle.
pub open spec fn eligible(solve: TypedSolve) -> bool {
    &&& solve.obligation.kind == MirObligationKind::Assertion
    &&& solve.obligation.structurally_complete()
    &&& solve.lowering == Some(TypedChcLoweringAccounting::exact())
    &&& solve.obligation.fail_closed_sites() == 0
    &&& graph::has_cycle(solve.problem@)
}

/// The diagnostic of a refutation by unrolling.
pub open spec fn unroll_diagnostic(k: u32) -> Seq<char> {
    text::concat(
        seq![
            "direct SMT confirmed a satisfiable typed query fact on a k="@,
            text::decimal(k as nat),
            " bounded unroll; refuted obligation via an error derivation that projects onto the original cyclic problem"@,
        ],
    )
}

/// Whether a step is what becomes of a ladder: the refutation by the first rung
/// with an error derivation, as long as every rung below it can be unrolled to
/// and answers in time.
pub open spec fn climbs<H, S>(
    solve: TypedSolve,
    sha256: H,
    search: S,
    ladder: Seq<u32>,
    step: Option<TypedChcPdrFullVerification>,
) -> bool where
    H: Fn(&[u8]) -> EvidenceHash,
    S: Fn(&ChcProblem, u32) -> Option<AcyclicDecision>,

    decreases ladder.len(),
{
    if ladder.len() == 0 || !unroll::unrolls(solve.problem@, ladder[0] as nat) {
        step is None
    } else {
        let k = ladder[0];
        exists|copy: ChcProblem, decision: Option<AcyclicDecision>| #[trigger]
            search.ensures((&copy, k), decision) && copy@ == unroll::unrolled(
                solve.problem@,
                k as nat,
            ) && match decision {
                None => step is None,
                Some(AcyclicDecision::Unsafe(found)) => step matches Some(verification)
                    && solve.refuted_by(
                    sha256,
                    verification,
                    documents::unrolled_counterexample(
                        k,
                        found.derivation_clause_indices@,
                        json::json_content(found.model),
                    ),
                    ChcPdrCexVerification::BoundedUnrollDirectSmtModel { k: k as u64 },
                    unroll_diagnostic(k),
                ),
                Some(_) => climbs(solve, sha256, search, ladder.drop_first(), step),
            }
    }
}

/// Whether a response is a refutation with a witness.
pub open spec fn refutes_with_witness(verification: TypedChcPdrFullVerification) -> bool {
    &&& verification.outcome.status@ matches StatusModel::Refuted(Some(witness))
        && witness.verification is BoundedUnrollDirectSmtModel && witness.concreteness.lossless()
    &&& verification.verdict is Failed
    &&& verification.seal() is None
}

fn climb<H, S>(solve: &TypedSolve, ladder: &[u32], from: usize, search: &S, sha256: &H) -> (step:
    Option<TypedChcPdrFullVerification>) where
    H: Fn(&[u8]) -> EvidenceHash,
    S: Fn(&ChcProblem, u32) -> Option<AcyclicDecision>,

    requires
        from <= ladder@.len(),
        solve.problem@.names_declared(),
        solve.lowering == Some(TypedChcLoweringAccounting::exact()),
        evidence::total(*sha256),
        forall|copy: &ChcProblem, k: u32| #[trigger] search.requires((copy, k)),
    ensures
        climbs(*solve, *sha256, *search, ladder@.skip(from as int), step),
        step matches Some(verification) ==> solve.answered_by(verification)
            && refutes_with_witness(verification),
    decreases ladder@.len() - from,
{
    let ghost rest = ladder@.skip(from as int);
    if from == ladder.len() {
        return None;
    }
    let k: u32 = ladder[from];
    assert(rest[0] == k);
    let copy = match bounded_unroll_chc_for_refutation(&solve.problem, k) {
        Some(unrolled) => unrolled.problem,
        None => {
            return None;
        },
    };
    let decision = search(&copy, k);
    assert(search.ensures((&copy, k), decision));
    match decision {
        None => None,
        Some(AcyclicDecision::Unsafe(found)) => {
            let counterexample = unrolled_counterexample_value(
                k,
                &found.derivation_clause_indices,
                &found.model,
            );
            let budget = decimal_text(k as u64);
            let diagnostic = concat3(
                "direct SMT confirmed a satisfiable typed query fact on a k=",
                budget.as_str(),
                " bounded unroll; refuted obligation via an error derivation that projects onto the original cyclic problem",
            );
            let verification = solve.answer_refuted(
                &counterexample,
                ChcPdrCexVerification::BoundedUnrollDirectSmtModel { k: k as u64 },
                diagnostic.as_str(),
                sha256,
            );
            Some(verification)
        },
        Some(_) => {
            assert(rest.drop_first() =~= ladder@.skip(from + 1));
            climb(solve, ladder, from + 1, search, sha256)
        },
    }
}

/// Looks for a refutation on the rungs of a ladder. `search` looks for an error
/// derivation of an unrolled copy within the time that is left for the lane.
pub fn try_bounded_unroll_refutation_lane_with_ladder<H, S>(
    solve: &TypedSolve,
    ladder: &[u32],
    search: &S,
    sha256: &H,
) -> (step: Option<TypedChcPdrFullVerification>) where
    H: Fn(&[u8]) -> EvidenceHash,
    S: Fn(&ChcProblem, u32) -> Option<AcyclicDecision>,

    requires
        solve.problem@.names_declared(),
        evidence::total(*sha256),
        forall|copy: &ChcProblem, k: u32| #[trigger] search.requires((copy, k)),
    ensures
        if eligible(*solve) {
            climbs(*solve, *sha256, *search, ladder@, step)
        } else {
            step is None
        },
        step matches Some(verification) ==> solve.answered_by(verification)
            && refutes_with_witness(verification),
{
    let assertion = match solve.obligation.kind {
        MirObligationKind::Assertion => true,
        MirObligationKind::Other => false,
    };
    let exact = match solve.lowering {
        Some(accounting) => accounting.is_exact(),
        None => false,
    };
    if !assertion || !solve.obligation.claims_complete() || !exact || fail_closed_lowering_sites(
        solve.obligation,
    ) > 0 || !solve.problem.has_cycles() {
        return None;
    }
    assert(ladder@.skip(0) =~= ladder@);
    climb(solve, ladder, 0, search, sha256)
}

/// Looks for a refutation by bounded unrolling.
pub fn try_bounded_unroll_refutation_lane<H, S>(solve: &TypedSolve, search: &S, sha256: &H) -> (step:
    Option<TypedChcPdrFullVerification>) where
    H: Fn(&[u8]) -> EvidenceHash,
    S: Fn(&ChcProblem, u32) -> Option<AcyclicDecision>,

    requires
        solve.problem@.names_declared(),
        evidence::total(*sha256),
        forall|copy: &ChcProblem, k: u32| #[trigger] search.requires((copy, k)),
    ensures
        unroll_lane(*solve, *sha256, *search, step),
        step matches Some(verification) ==> solve.answered_by(verification)
            && refutes_with_witness(verification),
{
    let ladder = BOUNDED_UNROLL_K_LADDER;
    try_bounded_unroll_refutation_lane_with_ladder(solve, ladder.as_slice(), search, sha256)
}

/// Whether a step is what becomes of the lane.
pub open spec fn unroll_lane<H, S>(
    solve: TypedSolve,
    sha256: H,
    search: S,
    step: Option<TypedChcPdrFullVerification>,
) -> bool where
    H: Fn(&[u8]) -> EvidenceHash,
    S: Fn(&ChcProblem, u32) -> Option<AcyclicDecision>,
 {
    if eligible(solve) {
        climbs(solve, sha256, search, BOUNDED_UNROLL_K_LADDER@, step)
    } else {
        step is None
    }
}

} // verus!
