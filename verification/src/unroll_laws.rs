//! What unrolling keeps.
use vstd::prelude::*;

use crate::chc::{ClauseModel, HeadModel, ProblemModel};
use crate::graph;
use crate::semantics;
use crate::semantics::{Env, Interpretation, TermValue};
use crate::unroll;

verus! {

/// Whether an environment satisfies the constraint of a clause.
pub open spec fn fires(clause: ClauseModel, env: Env, interp: Interpretation) -> bool {
    semantics::env_fits(env) && semantics::satisfies(clause.constraint, env, interp)
}

/// A derivation: the clause of its last step, the environment in which that
/// clause fires, and the derivations of the premises.
pub struct Derivation {
    /// Index of the clause.
    pub clause: int,
    /// Environment of the step.
    pub env: Env,
    /// Derivations of the clause's atoms.
    pub premises: Seq<Derivation>,
}

/// Whether a derivation of bounded height reaches a predicate at given values.
pub open spec fn derives(
    problem: ProblemModel,
    interp: Interpretation,
    height: nat,
    tree: Derivation,
    predicate: int,
    vals: Seq<TermValue>,
) -> bool
    decreases height,
{
    let clause = problem.clauses[tree.clause];
    &&& height > 0
    &&& 0 <= tree.clause < problem.clauses.len()
    &&& clause.head matches HeadModel::Predicate(head) && head.predicate.index == predicate
        && semantics::eval_all(head.args, tree.env, interp) == vals
    &&& fires(clause, tree.env, interp)
    &&& tree.premises.len() == clause.atoms.len()
    &&& forall|j: int|
        0 <= j < clause.atoms.len() ==> derives(
            problem,
            interp,
            (height - 1) as nat,
            #[trigger] tree.premises[j],
            clause.atoms[j].predicate.index as int,
            semantics::eval_all(clause.atoms[j].args, tree.env, interp),
        )
}

/// Whether a derivation whose premises have bounded height reaches a query.
pub open spec fn refutes(
    problem: ProblemModel,
    interp: Interpretation,
    height: nat,
    tree: Derivation,
) -> bool {
    let clause = problem.clauses[tree.clause];
    &&& 0 <= tree.clause < problem.clauses.len()
    &&& clause.head is False
    &&& fires(clause, tree.env, interp)
    &&& tree.premises.len() == clause.atoms.len()
    &&& forall|j: int|
        0 <= j < clause.atoms.len() ==> derives(
            problem,
            interp,
            height,
            #[trigger] tree.premises[j],
            clause.atoms[j].predicate.index as int,
            semantics::eval_all(clause.atoms[j].args, tree.env, interp),
        )
}

/// Whether a clause takes a retreating step: from its premise to its head.
pub open spec fn steps_back(problem: ProblemModel, clause: ClauseModel) -> bool {
    &&& clause.atoms.len() > 0
    &&& clause.head matches HeadModel::Predicate(head) && graph::retreating_edges(problem).contains(
        (clause.atoms[0].predicate.index as int, head.predicate.index as int),
    )
}

/// How many retreating steps lead along the first premises to the end of a
/// derivation.
pub open spec fn retreats(problem: ProblemModel, tree: Derivation) -> nat
    decreases tree,
{
    let before = if tree.premises.len() > 0 {
        retreats(problem, tree.premises[0])
    } else {
        0
    };
    if steps_back(problem, problem.clauses[tree.clause]) {
        before + 1
    } else {
        before
    }
}

/// Whether some derivation within a height and a number of retreating steps
/// reaches a query.
pub open spec fn refutable_within(
    problem: ProblemModel,
    interp: Interpretation,
    height: nat,
    k: nat,
) -> bool {
    exists|tree: Derivation| #[trigger]
        refutes(problem, interp, height, tree) && retreats(problem, tree) <= k
}

/// Whether some derivation within a height reaches a query.
pub open spec fn refutable(problem: ProblemModel, interp: Interpretation, height: nat) -> bool {
    exists|tree: Derivation| #[trigger] refutes(problem, interp, height, tree)
}

/// Every clause of one level is a copy of a clause.
proof fn lemma_level_origin(
    clauses: Seq<ClauseModel>,
    level: int,
    levels: int,
    count: int,
    back: Set<(int, int)>,
    at: int,
) -> (origin: int)
    requires
        0 <= at < unroll::level_clauses(clauses, level, levels, count, back).len(),
    ensures
        0 <= origin < clauses.len(),
        unroll::unrolled_clause(clauses[origin], level, levels, count, back) == Some(
            unroll::level_clauses(clauses, level, levels, count, back)[at],
        ),
    decreases clauses.len(),
{
    let front = clauses.drop_last();
    let before = unroll::level_clauses(front, level, levels, count, back);
    if at < before.len() {
        let origin = lemma_level_origin(front, level, levels, count, back, at);
        assert(clauses[origin] == front[origin]);
        origin
    } else {
        assert(clauses[clauses.len() - 1] == clauses.last());
        clauses.len() - 1
    }
}

/// Every unrolled clause is a copy of a clause on some level.
proof fn lemma_copy_origin(
    clauses: Seq<ClauseModel>,
    upto: nat,
    levels: int,
    count: int,
    back: Set<(int, int)>,
    at: int,
) -> (origin: (int, int))
    requires
        0 <= at < unroll::unrolled_clauses(clauses, upto, levels, count, back).len(),
    ensures
        0 <= origin.0 < clauses.len(),
        0 <= origin.1 < upto,
        unroll::unrolled_clause(clauses[origin.0], origin.1, levels, count, back) == Some(
            unroll::unrolled_clauses(clauses, upto, levels, count, back)[at],
        ),
    decreases upto,
{
    let before = unroll::unrolled_clauses(clauses, (upto - 1) as nat, levels, count, back);
    if at < before.len() {
        lemma_copy_origin(clauses, (upto - 1) as nat, levels, count, back, at)
    } else {
        let origin = lemma_level_origin(clauses, upto - 1, levels, count, back, at - before.len());
        (origin, upto - 1)
    }
}

/// Every copy of a clause stands on its level.
proof fn lemma_level_present(
    clauses: Seq<ClauseModel>,
    level: int,
    levels: int,
    count: int,
    back: Set<(int, int)>,
    origin: int,
) -> (at: int)
    requires
        0 <= origin < clauses.len(),
        unroll::unrolled_clause(clauses[origin], level, levels, count, back) is Some,
    ensures
        0 <= at < unroll::level_clauses(clauses, level, levels, count, back).len(),
        unroll::unrolled_clause(clauses[origin], level, levels, count, back) == Some(
            unroll::level_clauses(clauses, level, levels, count, back)[at],
        ),
    decreases clauses.len(),
{
    let front = clauses.drop_last();
    if origin < front.len() {
        assert(clauses[origin] == front[origin]);
        lemma_level_present(front, level, levels, count, back, origin)
    } else {
        unroll::level_clauses(front, level, levels, count, back).len() as int
    }
}

/// Every copy of a clause on one of the first levels is an unrolled clause.
proof fn lemma_copy_present(
    clauses: Seq<ClauseModel>,
    upto: nat,
    levels: int,
    count: int,
    back: Set<(int, int)>,
    origin: int,
    level: int,
) -> (at: int)
    requires
        0 <= origin < clauses.len(),
        0 <= level < upto,
        unroll::unrolled_clause(clauses[origin], level, levels, count, back) is Some,
    ensures
        0 <= at < unroll::unrolled_clauses(clauses, upto, levels, count, back).len(),
        unroll::unrolled_clause(clauses[origin], level, levels, count, back) == Some(
            unroll::unrolled_clauses(clauses, upto, levels, count, back)[at],
        ),
    decreases upto,
{
    let before = unroll::unrolled_clauses(clauses, (upto - 1) as nat, levels, count, back);
    if level < upto - 1 {
        lemma_copy_present(clauses, (upto - 1) as nat, levels, count, back, origin, level)
    } else {
        before.len() + lemma_level_present(clauses, level, levels, count, back, origin)
    }
}

/// Two levelled indices are equal only where level and index are.
proof fn lemma_levels_injective(level: int, index: int, other: int, own: int, count: int)
    requires
        0 <= index < count,
        0 <= own < count,
        level * count + index == other * count + own,
    ensures
        level == other,
        index == own,
{
    assert(level == other) by (nonlinear_arith)
        requires
            0 <= index < count,
            0 <= own < count,
            level * count + index == other * count + own,
    ;
}

/// The index of a predicate's copy, as the machine holds it.
proof fn lemma_copy_index(problem: ProblemModel, k: nat, level: int, index: int)
    requires
        unroll::unrolls(problem, k),
        0 <= level <= k,
        0 <= index < problem.predicates.len(),
    ensures
        (level * problem.predicates.len() + index) as usize == level * problem.predicates.len()
            + index,
{
    let count = problem.predicates.len();
    unroll::lemma_index_in_range(level, (k + 1) as int, index, count as int);
    assert(count * (k + 1) == (k + 1) * count) by (nonlinear_arith);
}

/// A derivation of the unrolled problem is one of the original problem with the
/// levels forgotten; its level counts the retreating steps.
proof fn lemma_derivation_projects(
    problem: ProblemModel,
    k: nat,
    interp: Interpretation,
    height: nat,
    tree: Derivation,
    level: int,
    index: int,
    vals: Seq<TermValue>,
) -> (projected: Derivation)
    requires
        problem.names_declared(),
        unroll::unrolls(problem, k),
        0 <= level <= k,
        0 <= index < problem.predicates.len(),
        derives(
            unroll::unrolled(problem, k),
            interp,
            height,
            tree,
            level * problem.predicates.len() + index,
            vals,
        ),
    ensures
        derives(problem, interp, height, projected, index, vals),
        retreats(problem, projected) == level,
    decreases height, 0int,
{
    let copy = unroll::unrolled(problem, k);
    let count = problem.predicates.len() as int;
    let back = graph::retreating_edges(problem);
    let below = (height - 1) as nat;
    let (origin, own_level) = lemma_copy_origin(
        problem.clauses,
        k + 1,
        (k + 1) as int,
        count,
        back,
        tree.clause,
    );
    let clause = problem.clauses[origin];
    assert(clause.names_declared(problem.predicates.len()));
    let target = unroll::head_level(clause, own_level, back);
    let head = clause.head->Predicate_0;
    lemma_copy_index(problem, k, target, head.predicate.index as int);
    lemma_levels_injective(target, head.predicate.index as int, level, index, count);
    let premises = lemma_premises_project(problem, k, interp, below, clause, tree, own_level);
    Derivation { clause: origin, env: tree.env, premises }
}

/// Premises of a copied clause project like derivations.
proof fn lemma_premises_project(
    problem: ProblemModel,
    k: nat,
    interp: Interpretation,
    height: nat,
    clause: ClauseModel,
    tree: Derivation,
    level: int,
) -> (projected: Seq<Derivation>)
    requires
        problem.names_declared(),
        unroll::unrolls(problem, k),
        0 <= level <= k,
        clause.names_declared(problem.predicates.len()),
        clause.atoms.len() <= 1,
        clause.atoms.len() == 0 ==> level == 0,
        tree.premises.len() == clause.atoms.len(),
        forall|j: int|
            0 <= j < clause.atoms.len() ==> derives(
                unroll::unrolled(problem, k),
                interp,
                height,
                #[trigger] tree.premises[j],
                unroll::leveled(
                    clause.atoms[j],
                    level,
                    problem.predicates.len() as int,
                ).predicate.index as int,
                semantics::eval_all(clause.atoms[j].args, tree.env, interp),
            ),
    ensures
        projected.len() == clause.atoms.len(),
        clause.atoms.len() > 0 ==> retreats(problem, projected[0]) == level,
        forall|j: int|
            0 <= j < clause.atoms.len() ==> derives(
                problem,
                interp,
                height,
                #[trigger] projected[j],
                clause.atoms[j].predicate.index as int,
                semantics::eval_all(clause.atoms[j].args, tree.env, interp),
            ),
    decreases height, 1int,
{
    if clause.atoms.len() == 0 {
        seq![]
    } else {
        let atom = clause.atoms[0];
        let premise = tree.premises[0];
        lemma_copy_index(problem, k, level, atom.predicate.index as int);
        let projected = lemma_derivation_projects(
            problem,
            k,
            interp,
            height,
            premise,
            level,
            atom.predicate.index as int,
            semantics::eval_all(atom.args, tree.env, interp),
        );
        seq![projected]
    }
}

/// Whatever refutes the unrolled problem refutes the original problem, by a
/// derivation no higher and with at most `k` retreating steps.
pub proof fn law_unrolled_refutations_are_real(
    problem: ProblemModel,
    k: nat,
    interp: Interpretation,
    height: nat,
)
    requires
        problem.names_declared(),
        unroll::unrolls(problem, k),
        refutable(unroll::unrolled(problem, k), interp, height),
    ensures
        refutable(problem, interp, height),
        refutable_within(problem, interp, height, k),
{
    let copy = unroll::unrolled(problem, k);
    let count = problem.predicates.len() as int;
    let back = graph::retreating_edges(problem);
    let tree = choose|tree: Derivation| #[trigger] refutes(copy, interp, height, tree);
    let (origin, level) = lemma_copy_origin(
        problem.clauses,
        k + 1,
        (k + 1) as int,
        count,
        back,
        tree.clause,
    );
    let clause = problem.clauses[origin];
    assert(clause.names_declared(problem.predicates.len()));
    let premises = lemma_premises_project(problem, k, interp, height, clause, tree, level);
    let projected = Derivation { clause: origin, env: tree.env, premises };
    assert(refutes(problem, interp, height, projected));
    assert(retreats(problem, projected) == level);
}

/// Premises of a clause lift to the level that counts their retreating steps.
proof fn lemma_premises_lift(
    problem: ProblemModel,
    k: nat,
    interp: Interpretation,
    height: nat,
    clause: ClauseModel,
    tree: Derivation,
) -> (lifted: (int, Seq<Derivation>))
    requires
        problem.names_declared(),
        unroll::unrolls(problem, k),
        tree.premises.len() > 0 ==> retreats(problem, tree.premises[0]) <= k,
        clause.names_declared(problem.predicates.len()),
        clause.atoms.len() <= 1,
        tree.premises.len() == clause.atoms.len(),
        forall|j: int|
            0 <= j < clause.atoms.len() ==> derives(
                problem,
                interp,
                height,
                #[trigger] tree.premises[j],
                clause.atoms[j].predicate.index as int,
                semantics::eval_all(clause.atoms[j].args, tree.env, interp),
            ),
    ensures
        0 <= lifted.0 <= k,
        clause.atoms.len() > 0 ==> lifted.0 == retreats(problem, tree.premises[0]),
        clause.atoms.len() == 0 ==> lifted.0 == 0,
        lifted.1.len() == clause.atoms.len(),
        forall|j: int|
            0 <= j < clause.atoms.len() ==> derives(
                unroll::unrolled(problem, k),
                interp,
                height,
                #[trigger] lifted.1[j],
                unroll::leveled(
                    clause.atoms[j],
                    lifted.0,
                    problem.predicates.len() as int,
                ).predicate.index as int,
                semantics::eval_all(clause.atoms[j].args, tree.env, interp),
            ),
    decreases height, 1int,
{
    if clause.atoms.len() == 0 {
        (0, seq![])
    } else {
        let atom = clause.atoms[0];
        let premise = tree.premises[0];
        let (level, lifted) = lemma_derivation_lifts(
            problem,
            k,
            interp,
            height,
            premise,
            atom.predicate.index as int,
            semantics::eval_all(atom.args, tree.env, interp),
        );
        lemma_copy_index(problem, k, level, atom.predicate.index as int);
        (level, seq![lifted])
    }
}

/// A derivation of at most `k` retreating steps has a copy in the unrolled
/// problem, on the level that counts them.
proof fn lemma_derivation_lifts(
    problem: ProblemModel,
    k: nat,
    interp: Interpretation,
    height: nat,
    tree: Derivation,
    index: int,
    vals: Seq<TermValue>,
) -> (lifted: (int, Derivation))
    requires
        problem.names_declared(),
        unroll::unrolls(problem, k),
        retreats(problem, tree) <= k,
        0 <= index < problem.predicates.len(),
        derives(problem, interp, height, tree, index, vals),
    ensures
        lifted.0 == retreats(problem, tree),
        derives(
            unroll::unrolled(problem, k),
            interp,
            height,
            lifted.1,
            lifted.0 * problem.predicates.len() + index,
            vals,
        ),
    decreases height, 0int,
{
    let count = problem.predicates.len() as int;
    let back = graph::retreating_edges(problem);
    let below = (height - 1) as nat;
    let clause = problem.clauses[tree.clause];
    assert(clause.names_declared(problem.predicates.len()));
    let (level, premises) = lemma_premises_lift(problem, k, interp, below, clause, tree);
    let target = unroll::head_level(clause, level, back);
    let at = lemma_copy_present(
        problem.clauses,
        k + 1,
        (k + 1) as int,
        count,
        back,
        tree.clause,
        level,
    );
    let head = clause.head->Predicate_0;
    lemma_copy_index(problem, k, target, head.predicate.index as int);
    (target, Derivation { clause: at, env: tree.env, premises })
}

/// A refutation of at most `k` retreating steps is kept by unrolling to `k`
/// retreating steps, whatever its height.
pub proof fn law_refutations_within_the_steps_are_kept(
    problem: ProblemModel,
    k: nat,
    interp: Interpretation,
    height: nat,
)
    requires
        problem.names_declared(),
        unroll::unrolls(problem, k),
        refutable_within(problem, interp, height, k),
    ensures
        refutable(unroll::unrolled(problem, k), interp, height),
{
    let copy = unroll::unrolled(problem, k);
    let count = problem.predicates.len() as int;
    let back = graph::retreating_edges(problem);
    let tree = choose|tree: Derivation| #[trigger]
        refutes(problem, interp, height, tree) && retreats(problem, tree) <= k;
    let clause = problem.clauses[tree.clause];
    assert(clause.names_declared(problem.predicates.len()));
    let (level, premises) = lemma_premises_lift(problem, k, interp, height, clause, tree);
    let at = lemma_copy_present(
        problem.clauses,
        k + 1,
        (k + 1) as int,
        count,
        back,
        tree.clause,
        level,
    );
    assert(refutes(copy, interp, height, Derivation { clause: at, env: tree.env, premises }));
}

/// The unrolled problem names only predicates that it declares.
pub proof fn law_unrolled_names_are_declared(problem: ProblemModel, k: nat)
    requires
        problem.names_declared(),
        unroll::unrolls(problem, k),
    ensures
        unroll::unrolled(problem, k).names_declared(),
{
    let copy = unroll::unrolled(problem, k);
    let count = problem.predicates.len() as int;
    let back = graph::retreating_edges(problem);
    unroll::lemma_predicate_total(problem.predicates, k + 1);
    assert forall|at: int| 0 <= at < copy.clauses.len() implies (
    #[trigger] copy.clauses[at]).names_declared(copy.predicates.len()) by {
        let (origin, level) = lemma_copy_origin(
            problem.clauses,
            k + 1,
            (k + 1) as int,
            count,
            back,
            at,
        );
        let clause = problem.clauses[origin];
        assert(clause.names_declared(problem.predicates.len()));
        assert forall|j: int| 0 <= j < copy.clauses[at].atoms.len() implies (
        #[trigger] copy.clauses[at].atoms[j]).predicate.index < copy.predicates.len() by {
            let index = clause.atoms[j].predicate.index as int;
            lemma_copy_index(problem, k, level, index);
            unroll::lemma_index_in_range(level, (k + 1) as int, index, count);
        }
        if let HeadModel::Predicate(head) = clause.head {
            let target = unroll::head_level(clause, level, back);
            let index = head.predicate.index as int;
            lemma_copy_index(problem, k, target, index);
            unroll::lemma_index_in_range(target, (k + 1) as int, index, count);
        }
    }
}

/// A bound on the size of the first ranks.
spec fn rank_bound(rank: spec_fn(int) -> int, upto: nat) -> int
    decreases upto,
{
    if upto == 0 {
        0
    } else {
        let before = rank_bound(rank, (upto - 1) as nat);
        let own = rank(upto - 1);
        if own > before {
            own
        } else if -own > before {
            -own
        } else {
            before
        }
    }
}

proof fn lemma_rank_bound(rank: spec_fn(int) -> int, upto: nat, index: int)
    ensures
        0 <= rank_bound(rank, upto),
        0 <= index < upto ==> -rank_bound(rank, upto) <= rank(index) <= rank_bound(rank, upto),
    decreases upto,
{
    if upto > 0 {
        lemma_rank_bound(rank, (upto - 1) as nat, index);
    }
}

/// The rank of a predicate's copy: a level up costs more than any two ranks
/// differ.
spec fn level_rank(rank: spec_fn(int) -> int, count: int, span: int) -> spec_fn(int) -> int {
    |copy: int| rank(copy % count) - (copy / count) * span
}

proof fn lemma_level_rank(
    rank: spec_fn(int) -> int,
    count: int,
    span: int,
    level: int,
    index: int,
)
    requires
        0 <= level,
        0 <= index < count,
    ensures
        level_rank(rank, count, span)(level * count + index) == rank(index) - level * span,
{
    vstd::arithmetic::div_mod::lemma_fundamental_div_mod_converse(
        level * count + index,
        count,
        level,
        index,
    );
}

/// The unrolled problem has no cycle.
pub proof fn law_unrolled_problem_is_acyclic(problem: ProblemModel, k: nat)
    requires
        problem.names_declared(),
        unroll::unrolls(problem, k),
    ensures
        !graph::has_cycle(unroll::unrolled(problem, k)),
{
    let copy = unroll::unrolled(problem, k);
    let count = problem.predicates.len() as int;
    let lists = graph::dependency_lists(problem);
    let back = graph::retreating_edges(problem);
    graph::law_retreating_edges_cut_cycles(problem);
    let rank = choose|rank: spec_fn(int) -> int| #[trigger] graph::ranks(lists, back, rank);
    let span = 2 * rank_bound(rank, count as nat) + 1;
    let copy_rank = level_rank(rank, count, span);
    law_unrolled_names_are_declared(problem, k);
    graph::lemma_dependencies(problem);
    graph::lemma_dependencies(copy);
    assert forall|from: int, to: int| #[trigger]
        graph::leads(graph::dependency_lists(copy), from, to) implies copy_rank(to) < copy_rank(
        from,
    ) by {
        assert(graph::depends(copy, from, to));
        let at = choose|at: int|
            0 <= at < copy.clauses.len() && graph::clause_edge(
                #[trigger] copy.clauses[at],
                from,
                to,
            );
        let (origin, level) = lemma_copy_origin(
            problem.clauses,
            k + 1,
            (k + 1) as int,
            count,
            back,
            at,
        );
        let clause = problem.clauses[origin];
        assert(clause.names_declared(problem.predicates.len()));
        let own_from = clause.atoms[0].predicate.index as int;
        let head = clause.head->Predicate_0;
        let own_to = head.predicate.index as int;
        assert(graph::clause_edge(clause, own_from, own_to));
        assert(graph::depends(problem, own_from, own_to));
        assert(graph::leads(lists, own_from, own_to));
        let target = unroll::head_level(clause, level, back);
        lemma_copy_index(problem, k, level, own_from);
        lemma_copy_index(problem, k, target, own_to);
        assert(from == level * count + own_from);
        assert(to == target * count + own_to);
        lemma_level_rank(rank, count, span, level, own_from);
        lemma_level_rank(rank, count, span, target, own_to);
        lemma_rank_bound(rank, count as nat, own_from);
        lemma_rank_bound(rank, count as nat, own_to);
        assert((level + 1) * span == level * span + span) by (nonlinear_arith);
    }
    graph::lemma_ranked_is_acyclic(copy, copy_rank);
}

} // verus!
