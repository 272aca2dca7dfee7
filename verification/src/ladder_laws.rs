//! What a ladder of unrollings promises.
//!
//! The laws speak of a search that is right about what it is asked, under one
//! interpretation of the terms.
use vstd::prelude::*;

use crate::chc::{ChcProblem, ProblemModel};
use crate::documents;
use crate::evidence::{ChcPdrCexVerification, EvidenceHash, MirObligationKind, StatusModel};
use crate::grounding_laws;
use crate::json;
use crate::ladder;
use crate::lanes::{AcyclicDecision, TypedSolve};
use crate::seal::TypedChcPdrFullVerification;
use crate::semantics::Interpretation;
use crate::unroll;
use crate::unroll_laws;

verus! {

/// Whether some derivation of a problem reaches a query.
pub open spec fn has_derivation(problem: ProblemModel, interp: Interpretation) -> bool {
    exists|height: nat| #[trigger] unroll_laws::refutable(problem, interp, height)
}

/// Whether some derivation of a problem reaches a query with at most `k`
/// retreating steps.
pub open spec fn has_derivation_within(
    problem: ProblemModel,
    interp: Interpretation,
    k: nat,
) -> bool {
    exists|height: nat| #[trigger] unroll_laws::refutable_within(problem, interp, height, k)
}

/// Whether a search answers `Unsafe` only where there is a derivation.
pub open spec fn finds_real<S>(search: S, interp: Interpretation) -> bool where
    S: Fn(&ChcProblem, u32) -> Option<AcyclicDecision>,
 {
    forall|copy: ChcProblem, k: u32, decision: Option<AcyclicDecision>| #[trigger]
        search.ensures((&copy, k), decision) && (decision matches Some(
            AcyclicDecision::Unsafe(_),
        )) ==> has_derivation(copy@, interp)
}

/// Whether a search answers in time, and `Unsafe` wherever there is a derivation.
pub open spec fn finds_all<S>(search: S, interp: Interpretation) -> bool where
    S: Fn(&ChcProblem, u32) -> Option<AcyclicDecision>,
 {
    forall|copy: ChcProblem, k: u32, decision: Option<AcyclicDecision>| #[trigger]
        search.ensures((&copy, k), decision) ==> decision is Some && (has_derivation(copy@, interp)
            ==> (decision matches Some(AcyclicDecision::Unsafe(_))))
}

/// An unrolled problem has a derivation exactly where the problem has one within
/// the retreating steps.
proof fn lemma_unrolled_derivations(problem: ProblemModel, k: nat, interp: Interpretation)
    requires
        problem.names_declared(),
        unroll::unrolls(problem, k),
    ensures
        has_derivation(unroll::unrolled(problem, k), interp) <==> has_derivation_within(
            problem,
            interp,
            k,
        ),
{
    let copy = unroll::unrolled(problem, k);
    if has_derivation(copy, interp) {
        let height = choose|height: nat| #[trigger] unroll_laws::refutable(copy, interp, height);
        unroll_laws::law_unrolled_refutations_are_real(problem, k, interp, height);
    }
    if has_derivation_within(problem, interp, k) {
        let height = choose|height: nat| #[trigger]
            unroll_laws::refutable_within(problem, interp, height, k);
        unroll_laws::law_refutations_within_the_steps_are_kept(problem, k, interp, height);
    }
}

/// A ladder decides nothing where every derivation of the problem takes more
/// retreating steps than each of its rungs.
pub proof fn law_shallow_ladders_decide_nothing<H, S>(
    solve: TypedSolve,
    sha256: H,
    search: S,
    ladder: Seq<u32>,
    interp: Interpretation,
    step: Option<TypedChcPdrFullVerification>,
) where
    H: Fn(&[u8]) -> EvidenceHash,
    S: Fn(&ChcProblem, u32) -> Option<AcyclicDecision>,

    requires
        solve.problem@.names_declared(),
        finds_real(search, interp),
        ladder::climbs(solve, sha256, search, ladder, step),
        forall|at: int|
            0 <= at < ladder.len() ==> !has_derivation_within(
                solve.problem@,
                interp,
                #[trigger] ladder[at] as nat,
            ),
    ensures
        step is None,
    decreases ladder.len(),
{
    if ladder.len() > 0 && unroll::unrolls(solve.problem@, ladder[0] as nat) {
        lemma_unrolled_derivations(solve.problem@, ladder[0] as nat, interp);
        let rest = ladder.drop_first();
        assert forall|at: int| 0 <= at < rest.len() implies !has_derivation_within(
            solve.problem@,
            interp,
            #[trigger] rest[at] as nat,
        ) by {
            assert(rest[at] == ladder[at + 1]);
        }
        if ladder::climbs(solve, sha256, search, rest, step) {
            law_shallow_ladders_decide_nothing(solve, sha256, search, rest, interp, step);
        }
    }
}

/// A ladder refutes by its first rung that allows the retreating steps of some
/// derivation, and the witness names that rung.
pub proof fn law_first_deep_rung_refutes<H, S>(
    solve: TypedSolve,
    sha256: H,
    search: S,
    ladder: Seq<u32>,
    rung: int,
    interp: Interpretation,
    step: Option<TypedChcPdrFullVerification>,
) where
    H: Fn(&[u8]) -> EvidenceHash,
    S: Fn(&ChcProblem, u32) -> Option<AcyclicDecision>,

    requires
        solve.problem@.names_declared(),
        ladder::eligible(solve),
        finds_real(search, interp),
        finds_all(search, interp),
        ladder::climbs(solve, sha256, search, ladder, step),
        0 <= rung < ladder.len(),
        forall|at: int|
            0 <= at <= rung ==> unroll::unrolls(solve.problem@, #[trigger] ladder[at] as nat),
        forall|at: int|
            0 <= at < rung ==> !has_derivation_within(
                solve.problem@,
                interp,
                #[trigger] ladder[at] as nat,
            ),
        has_derivation_within(solve.problem@, interp, ladder[rung] as nat),
    ensures
        step matches Some(verification) && (verification.outcome.status@ matches StatusModel::Refuted(
            Some(witness),
        ) && witness.verification == (ChcPdrCexVerification::BoundedUnrollDirectSmtModel {
            k: ladder[rung] as u64,
        })),
    decreases ladder.len(),
{
    lemma_unrolled_derivations(solve.problem@, ladder[0] as nat, interp);
    if rung > 0 {
        let rest = ladder.drop_first();
        assert forall|at: int| 0 <= at < rest.len() implies #[trigger] rest[at] == ladder[at
            + 1] by {}
        assert(!has_derivation_within(solve.problem@, interp, ladder[0] as nat));
        law_first_deep_rung_refutes(solve, sha256, search, rest, rung - 1, interp, step);
    }
}

/// Whether the lane may take a solve, by the fields that it reads: an assertion whose
/// metadata claims completeness and counts no unsupported construct, lowered without
/// loss, with a loop of predicates.
pub open spec fn may_be_unrolled(solve: TypedSolve) -> bool {
    &&& solve.obligation.kind == MirObligationKind::Assertion
    &&& solve.obligation.native_metadata matches Some(metadata)
        && metadata.structural_reachability_complete && metadata.fail_closed_lowering_site_count
        == 0
    &&& solve.lowering matches Some(accounting) && accounting.translation_drops == 0
        && accounting.havocs == 0 && accounting.undef_diagnostic_havocs == 0
    &&& exists|walk: Seq<int>| #[trigger] grounding_laws::is_loop(solve.problem@, walk)
}

/// Whether the search found an error in the copy of a problem with `k` retreating steps.
pub open spec fn refuted_on<S>(problem: ProblemModel, search: S, k: u32) -> bool where
    S: Fn(&ChcProblem, u32) -> Option<AcyclicDecision>,
 {
    unroll::unrolls(problem, k as nat) && exists|copy: ChcProblem, found: AcyclicDecision|
        #[trigger] search.ensures((&copy, k), Some(found)) && found is Unsafe && copy@
            == unroll::unrolled(problem, k as nat)
}

proof fn lemma_rung<H, S>(
    solve: TypedSolve,
    sha256: H,
    search: S,
    ladder: Seq<u32>,
    verification: TypedChcPdrFullVerification,
) -> (rung: int) where
    H: Fn(&[u8]) -> EvidenceHash,
    S: Fn(&ChcProblem, u32) -> Option<AcyclicDecision>,

    requires
        ladder::climbs(solve, sha256, search, ladder, Some(verification)),
    ensures
        0 <= rung < ladder.len(),
        refuted_on(solve.problem@, search, ladder[rung]),
        verification.outcome.status@ is Refuted,
        verification.verdict is Failed,
    decreases ladder.len(),
{
    let k = ladder[0];
    let (copy, decision) = choose|copy: ChcProblem, decision: Option<AcyclicDecision>| #[trigger]
        search.ensures((&copy, k), decision) && copy@ == unroll::unrolled(
            solve.problem@,
            k as nat,
        ) && match decision {
            None => Some(verification) is None,
            Some(AcyclicDecision::Unsafe(found)) => solve.refuted_by(
                sha256,
                verification,
                documents::unrolled_counterexample(
                    k,
                    found.derivation_clause_indices@,
                    json::json_content(found.model),
                ),
                ChcPdrCexVerification::BoundedUnrollDirectSmtModel { k: k as u64 },
                ladder::unroll_diagnostic(k),
            ),
            Some(_) => ladder::climbs(
                solve,
                sha256,
                search,
                ladder.drop_first(),
                Some(verification),
            ),
        };
    let found = decision->0;
    assert(search.ensures((&copy, k), Some(found)));
    if found is Unsafe {
        0
    } else {
        let rest = ladder.drop_first();
        let rung = lemma_rung(solve, sha256, search, rest, verification);
        assert(rest[rung] == ladder[rung + 1]);
        rung + 1
    }
}

/// The lane refutes only what it may take, by an error that the search found in a copy
/// with four, sixteen or sixty-four retreating steps.
pub proof fn law_lane_refutes_what_it_may_take<H, S>(
    solve: TypedSolve,
    sha256: H,
    search: S,
    verification: TypedChcPdrFullVerification,
) where
    H: Fn(&[u8]) -> EvidenceHash,
    S: Fn(&ChcProblem, u32) -> Option<AcyclicDecision>,

    requires
        ladder::unroll_lane(solve, sha256, search, Some(verification)),
    ensures
        may_be_unrolled(solve),
        refuted_on(solve.problem@, search, 4) || refuted_on(solve.problem@, search, 16)
            || refuted_on(solve.problem@, search, 64),
        verification.outcome.status@ is Refuted,
        verification.verdict is Failed,
{
    grounding_laws::law_cycles_are_loops(solve.problem@);
    let rung = lemma_rung(
        solve,
        sha256,
        search,
        unroll::BOUNDED_UNROLL_K_LADDER@,
        verification,
    );
}

/// The lane refutes what it may take wherever the problem unrolls to four steps and
/// the search always finds an error.
pub proof fn law_lane_takes_what_it_may<H, S>(
    solve: TypedSolve,
    sha256: H,
    search: S,
    step: Option<TypedChcPdrFullVerification>,
) where
    H: Fn(&[u8]) -> EvidenceHash,
    S: Fn(&ChcProblem, u32) -> Option<AcyclicDecision>,

    requires
        ladder::unroll_lane(solve, sha256, search, step),
        may_be_unrolled(solve),
        unroll::unrolls(solve.problem@, 4),
        forall|copy: ChcProblem, k: u32, decision: Option<AcyclicDecision>| #[trigger]
            search.ensures((&copy, k), decision) ==> (decision matches Some(
                AcyclicDecision::Unsafe(_),
            )),
    ensures
        step is Some,
{
    grounding_laws::law_cycles_are_loops(solve.problem@);
    assert(unroll::BOUNDED_UNROLL_K_LADDER@[0] == 4);
}

} // verus!
