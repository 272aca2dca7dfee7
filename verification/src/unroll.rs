//! Bounded unrolling of cyclic problems, for refutation only.
//!
//! Every predicate gets one copy per level. A clause along a retreating edge
//! leads one level up, any other clause stays on its level, and what would lead
//! beyond the last level is left out. Facts enter on the lowest level; queries
//! stand on every level. Constraints and arguments are copied as they are, so
//! every derivation of the unrolled problem is one of the original problem with
//! the levels forgotten. The converse fails beyond the last level: an unrolled
//! problem without derivations proves nothing.

use vstd::prelude::*;
use vstd::string::*;

use crate::chc;
use crate::chc::{
    AtomModel, ChcProblem, ChcSort, ClauseBody, ClauseHead, ClauseModel, HeadModel, HornClause,
    PredicateAtom, PredicateId, PredicateModel, ProblemModel,
};
use crate::graph;
use crate::graph::dfs_retreating_edges;
use crate::grounding;
use crate::grounding::problem_is_grounded_for_refutation;
use crate::shared::share;
use crate::text;
use crate::unroll_laws;
use crate::text::{assemble, decimal_text, has_substring};

verus! {

/// Budgets of retreating steps to try, the cheapest first.
pub const BOUNDED_UNROLL_K_LADDER: [u32; 3] = [4, 16, 64];

/// Most predicates of an unrolled problem.
pub const MAX_UNROLLED_PREDICATES: usize = 65_536;

/// Most clauses of an unrolled problem, before any is left out.
pub const MAX_UNROLLED_CLAUSES: usize = 262_144;

/// An unrolled problem.
#[derive(Debug, PartialEq, Eq)]
pub struct BoundedUnrolledChc {
    /// The acyclic problem.
    pub problem: ChcProblem,
    /// How many retreating steps it allows.
    pub k: u32,
}

/// The mark in the name of every copied predicate.
pub open spec fn level_marker() -> Seq<char> {
    "__trust_mc_bmc_unroll_l"@
}

/// The name of a predicate's copy.
pub open spec fn level_name(name: Seq<char>, level: nat) -> Seq<char> {
    text::concat(seq![name, level_marker(), text::decimal(level)])
}

/// The copies of the predicates on one level.
pub open spec fn level_predicates(
    predicates: Seq<PredicateModel>,
    level: nat,
) -> Seq<PredicateModel> {
    Seq::new(
        predicates.len(),
        |i: int|
            PredicateModel {
                name: level_name(predicates[i].name, level),
                arg_sorts: predicates[i].arg_sorts,
            },
    )
}

/// The copies of the predicates on the first levels.
pub open spec fn unrolled_predicates(
    predicates: Seq<PredicateModel>,
    levels: nat,
) -> Seq<PredicateModel>
    decreases levels,
{
    if levels == 0 {
        Seq::empty()
    } else {
        unrolled_predicates(predicates, (levels - 1) as nat) + level_predicates(
            predicates,
            (levels - 1) as nat,
        )
    }
}

/// An atom with its predicate replaced by the copy on a level.
pub open spec fn leveled(atom: AtomModel, level: int, count: int) -> AtomModel {
    AtomModel {
        predicate: PredicateId { index: (level * count + atom.predicate.index) as usize },
        args: atom.args,
    }
}

/// Atoms with their predicates replaced by the copies on a level.
pub open spec fn all_leveled(atoms: Seq<AtomModel>, level: int, count: int) -> Seq<AtomModel> {
    Seq::new(atoms.len(), |i: int| leveled(atoms[i], level, count))
}

/// The level of a clause's head where its premises stand on the given level.
pub open spec fn head_level(clause: ClauseModel, level: int, back: Set<(int, int)>) -> int {
    match clause.head {
        HeadModel::Predicate(head) if clause.atoms.len() > 0 && back.contains(
            (clause.atoms[0].predicate.index as int, head.predicate.index as int),
        ) => level + 1,
        _ => level,
    }
}

/// The copy of a clause on a level, unless it is left out there.
pub open spec fn unrolled_clause(
    clause: ClauseModel,
    level: int,
    levels: int,
    count: int,
    back: Set<(int, int)>,
) -> Option<ClauseModel> {
    let atoms = all_leveled(clause.atoms, level, count);
    if grounding::is_fact(clause) && level > 0 {
        None
    } else {
        match clause.head {
            HeadModel::False => Some(
                ClauseModel { atoms, constraint: clause.constraint, head: HeadModel::False },
            ),
            HeadModel::Predicate(head) => {
                let target = head_level(clause, level, back);
                if target >= levels {
                    None
                } else {
                    Some(
                        ClauseModel {
                            atoms,
                            constraint: clause.constraint,
                            head: HeadModel::Predicate(leveled(head, target, count)),
                        },
                    )
                }
            },
        }
    }
}

/// The copies of the clauses on one level.
pub open spec fn level_clauses(
    clauses: Seq<ClauseModel>,
    level: int,
    levels: int,
    count: int,
    back: Set<(int, int)>,
) -> Seq<ClauseModel>
    decreases clauses.len(),
{
    if clauses.len() == 0 {
        Seq::empty()
    } else {
        let front = level_clauses(clauses.drop_last(), level, levels, count, back);
        match unrolled_clause(clauses.last(), level, levels, count, back) {
            Some(clause) => front.push(clause),
            None => front,
        }
    }
}

/// The copies of the clauses on the first levels.
pub open spec fn unrolled_clauses(
    clauses: Seq<ClauseModel>,
    upto: nat,
    levels: int,
    count: int,
    back: Set<(int, int)>,
) -> Seq<ClauseModel>
    decreases upto,
{
    if upto == 0 {
        Seq::empty()
    } else {
        unrolled_clauses(clauses, (upto - 1) as nat, levels, count, back) + level_clauses(
            clauses,
            upto - 1,
            levels,
            count,
            back,
        )
    }
}

/// The problem unrolled to a number of retreating steps.
pub open spec fn unrolled(problem: ProblemModel, k: nat) -> ProblemModel {
    let count = problem.predicates.len();
    ProblemModel {
        predicates: unrolled_predicates(problem.predicates, k + 1),
        clauses: unrolled_clauses(
            problem.clauses,
            k + 1,
            (k + 1) as int,
            count as int,
            graph::retreating_edges(problem),
        ),
        fixedpoint_format: false,
        stripped_body_forall: false,
        has_datatype_defs: false,
        has_action_decomposition: false,
    }
}

/// Whether every clause has at most one premise predicate.
pub open spec fn is_linear(problem: ProblemModel) -> bool {
    forall|i: int| 0 <= i < problem.clauses.len() ==> (#[trigger] problem.clauses[i]).atoms.len() <= 1
}

/// Whether a predicate name already carries the mark of copies.
pub open spec fn uses_marker(problem: ProblemModel) -> bool {
    exists|i: int|
        0 <= i < problem.predicates.len() && text::contains(
            (#[trigger] problem.predicates[i]).name,
            level_marker(),
        )
}

/// Whether a problem can be unrolled exactly to the given number of retreating
/// steps.
pub open spec fn unrolls(problem: ProblemModel, k: nat) -> bool {
    &&& graph::has_cycle(problem)
    &&& is_linear(problem)
    &&& !problem.fixedpoint_format
    &&& !problem.stripped_body_forall
    &&& !problem.has_datatype_defs
    &&& !problem.has_action_decomposition
    &&& !uses_marker(problem)
    &&& grounding::problem_grounded(problem)
    &&& problem.predicates.len() * (k + 1) <= MAX_UNROLLED_PREDICATES
    &&& problem.clauses.len() * (k + 1) <= MAX_UNROLLED_CLAUSES
}

fn copy_sorts(sorts: &Vec<ChcSort>) -> (copies: Vec<ChcSort>)
    ensures
        chc::sorts_model(copies@) == chc::sorts_model(sorts@),
{
    let mut copies: Vec<ChcSort> = Vec::new();
    for i in 0..sorts.len()
        invariant
            copies@.len() == i,
            forall|j: int| 0 <= j < i ==> (#[trigger] copies@[j])@ == sorts@[j]@,
    {
        copies.push(sorts[i].duplicate());
    }
    assert(chc::sorts_model(copies@) =~= chc::sorts_model(sorts@));
    copies
}

/// The name of a predicate's copy.
fn name_on_level(name: &String, level: usize) -> (copy: String)
    ensures
        copy@ == level_name(name@, level as nat),
{
    let number = decimal_text(level as u64);
    let mut parts: Vec<&str> = Vec::new();
    parts.push(name.as_str());
    parts.push("__trust_mc_bmc_unroll_l");
    parts.push(number.as_str());
    assert(text::texts(parts@) =~= seq![name@, level_marker(), text::decimal(level as nat)]);
    assemble(&parts)
}

pub proof fn lemma_predicate_total(predicates: Seq<PredicateModel>, levels: nat)
    ensures
        unrolled_predicates(predicates, levels).len() == levels * predicates.len(),
    decreases levels,
{
    if levels > 0 {
        lemma_predicate_total(predicates, (levels - 1) as nat);
        let count = predicates.len();
        assert(levels * count == (levels - 1) * count + count) by (nonlinear_arith);
    } else {
        assert(levels * predicates.len() == 0) by (nonlinear_arith)
            requires
                levels == 0,
        ;
    }
}

/// A copy on an earlier level has an earlier index.
pub proof fn lemma_index_in_range(level: int, levels: int, index: int, count: int)
    requires
        0 <= level < levels,
        0 <= index < count,
    ensures
        0 <= level * count + index < levels * count,
{
    assert(0 <= level * count + index < levels * count) by (nonlinear_arith)
        requires
            0 <= level < levels,
            0 <= index < count,
    ;
}

/// Whether a list holds an edge.
fn holds_edge(edges: &Vec<(usize, usize)>, from: usize, to: usize) -> (held: bool)
    ensures
        held == graph::edges_model(edges@).contains((from as int, to as int)),
{
    let ghost models = graph::edges_model(edges@);
    for i in 0..edges.len()
        invariant
            models == graph::edges_model(edges@),
            forall|j: int| 0 <= j < i ==> #[trigger] models[j] != (from as int, to as int),
    {
        let (own_from, own_to): (usize, usize) = edges[i];
        if own_from == from && own_to == to {
            assert(models[i as int] == (from as int, to as int));
            return true;
        }
    }
    false
}

/// An atom with its predicate replaced by the copy on a level.
fn level_atom(atom: &PredicateAtom, level: usize, count: usize) -> (copy: PredicateAtom)
    requires
        level * count + atom.predicate.index <= usize::MAX,
    ensures
        copy@ == leveled(atom@, level as int, count as int),
{
    proof {
        assert(level * count >= 0) by (nonlinear_arith)
            requires
                level >= 0,
                count >= 0,
        ;
    }
    let index: usize = level * count + atom.predicate.index;
    PredicateAtom { predicate: PredicateId { index }, args: chc::share_terms(&atom.args) }
}

/// The copy of a clause on a level, unless it is left out there.
fn unroll_clause(
    clause: &HornClause,
    level: usize,
    levels: usize,
    count: usize,
    back: &Vec<(usize, usize)>,
) -> (copy: Option<HornClause>)
    requires
        level < levels,
        levels * count <= MAX_UNROLLED_PREDICATES,
        levels < usize::MAX,
        clause@.names_declared(count as nat),
    ensures
        match copy {
            Some(own) => unrolled_clause(
                clause@,
                level as int,
                levels as int,
                count as int,
                graph::edge_set(back@),
            ) == Some(own@),
            None => unrolled_clause(
                clause@,
                level as int,
                levels as int,
                count as int,
                graph::edge_set(back@),
            ) is None,
        },
{
    let ghost model = clause@;
    assert(model.atoms.len() == clause.body.predicates@.len());
    if clause.body.predicates.len() == 0 && level > 0 {
        return None;
    }
    let mut atoms: Vec<PredicateAtom> = Vec::new();
    for i in 0..clause.body.predicates.len()
        invariant
            level < levels,
            levels * count <= MAX_UNROLLED_PREDICATES,
            model == clause@,
            model.names_declared(count as nat),
            model.atoms.len() == clause.body.predicates@.len(),
            atoms@.len() == i,
            forall|j: int|
                0 <= j < i ==> (#[trigger] atoms@[j])@ == leveled(
                    model.atoms[j],
                    level as int,
                    count as int,
                ),
    {
        assert(model.atoms[i as int] == clause.body.predicates@[i as int]@);
        proof {
            lemma_index_in_range(
                level as int,
                levels as int,
                model.atoms[i as int].predicate.index as int,
                count as int,
            );
        }
        atoms.push(level_atom(&clause.body.predicates[i], level, count));
    }
    assert(chc::atoms_model(atoms@) =~= all_leveled(model.atoms, level as int, count as int));
    let constraint = match &clause.body.constraint {
        Some(expr) => Some(share(expr)),
        None => None,
    };
    let body = ClauseBody { predicates: atoms, constraint };
    match &clause.head {
        ClauseHead::False => Some(HornClause { body, head: ClauseHead::False }),
        ClauseHead::Predicate(head) => {
            let is_back = if clause.body.predicates.len() > 0 {
                assert(model.atoms[0] == clause.body.predicates@[0]@);
                holds_edge(
                    back,
                    clause.body.predicates[0].predicate.index,
                    head.predicate.index,
                )
            } else {
                false
            };
            let target: usize = if is_back {
                level + 1
            } else {
                level
            };
            if target >= levels {
                return None;
            }
            proof {
                lemma_index_in_range(
                    target as int,
                    levels as int,
                    head.predicate.index as int,
                    count as int,
                );
            }
            Some(
                HornClause { body, head: ClauseHead::Predicate(level_atom(head, target, count)) },
            )
        },
    }
}

/// Whether every clause has at most one premise predicate.
fn linear(problem: &ChcProblem) -> (yes: bool)
    ensures
        yes == is_linear(problem@),
{
    for i in 0..problem.clauses.len()
        invariant
            forall|j: int| 0 <= j < i ==> (#[trigger] problem@.clauses[j]).atoms.len() <= 1,
    {
        assert(problem@.clauses[i as int].atoms.len()
            == problem.clauses@[i as int].body.predicates@.len());
        if problem.clauses[i].body.predicates.len() > 1 {
            return false;
        }
    }
    true
}

/// Whether a predicate name already carries the mark of copies.
fn marker_used(problem: &ChcProblem) -> (yes: bool)
    ensures
        yes == uses_marker(problem@),
{
    for i in 0..problem.predicates.len()
        invariant
            forall|j: int|
                0 <= j < i ==> !text::contains(
                    (#[trigger] problem@.predicates[j]).name,
                    level_marker(),
                ),
    {
        assert(problem@.predicates[i as int].name == problem.predicates@[i as int].name@);
        if has_substring(problem.predicates[i].name.as_str(), "__trust_mc_bmc_unroll_l") {
            return true;
        }
    }
    false
}

/// Declares the copies of the predicates on every level.
fn declare_levels(problem: &ChcProblem, levels: usize) -> (copy: ChcProblem)
    ensures
        copy@.predicates == unrolled_predicates(problem@.predicates, levels as nat),
        copy@.clauses == Seq::<ClauseModel>::empty(),
        !copy.fixedpoint_format,
        !copy.stripped_body_forall,
        !copy.has_datatype_defs,
        !copy.has_action_decomposition,
{
    let mut copy = ChcProblem::new();
    let ghost own = problem@.predicates;
    for level in 0..levels
        invariant
            own == problem@.predicates,
            copy@.predicates == unrolled_predicates(own, level as nat),
            copy@.clauses == Seq::<ClauseModel>::empty(),
            !copy.fixedpoint_format,
            !copy.stripped_body_forall,
            !copy.has_datatype_defs,
            !copy.has_action_decomposition,
    {
        let ghost base = copy@.predicates;
        let ghost row = level_predicates(own, level as nat);
        assert(base + row.take(0) =~= base);
        for i in 0..problem.predicates.len()
            invariant
                own == problem@.predicates,
                row == level_predicates(own, level as nat),
                copy@.predicates == base + row.take(i as int),
                copy@.clauses == Seq::<ClauseModel>::empty(),
                !copy.fixedpoint_format,
                !copy.stripped_body_forall,
                !copy.has_datatype_defs,
                !copy.has_action_decomposition,
        {
            let predicate = &problem.predicates[i];
            assert(own[i as int] == predicate@);
            let name = name_on_level(&predicate.name, level);
            let _id = copy.declare_predicate(name, copy_sorts(&predicate.arg_sorts));
            assert(copy@.predicates =~= base + row.take(i + 1));
        }
        assert(row.take(problem.predicates@.len() as int) =~= row);
    }
    copy
}

/// Unrolls a cyclic problem to a number of retreating steps. `None` where the
/// problem is not one that unrolls exactly.
pub fn bounded_unroll_chc_for_refutation(problem: &ChcProblem, k: u32) -> (unrolled_problem: Option<
    BoundedUnrolledChc,
>)
    requires
        problem@.names_declared(),
    ensures
        match unrolled_problem {
            Some(own) => unrolls(problem@, k as nat) && own.problem@ == unrolled(problem@, k as nat)
                && own.k == k && own.problem@.names_declared() && !graph::has_cycle(own.problem@),
            None => !unrolls(problem@, k as nat),
        },
{
    let ghost model = problem@;
    let back = dfs_retreating_edges(problem);
    let ghost cut = graph::edge_set(back@);
    if back.len() == 0 {
        return None;
    }
    if !linear(problem) {
        return None;
    }
    if problem.fixedpoint_format || problem.stripped_body_forall || problem.has_datatype_defs
        || problem.has_action_decomposition {
        return None;
    }
    if marker_used(problem) {
        return None;
    }
    if !problem_is_grounded_for_refutation(problem) {
        return None;
    }
    let count: usize = problem.predicates.len();
    let total: usize = problem.clauses.len();
    let ghost exact = (k + 1) as int;
    proof {
        lemma_cycle_not_empty(model);
        assert(count >= 1 && total >= 1);
        assert(count * exact >= exact) by (nonlinear_arith)
            requires
                count >= 1,
                exact >= 1,
        ;
    }
    if k as u64 >= MAX_UNROLLED_PREDICATES as u64 {
        return None;
    }
    let levels: usize = k as usize + 1;
    let predicate_total: usize = match count.checked_mul(levels) {
        Some(product) => product,
        None => {
            return None;
        },
    };
    let clause_total: usize = match total.checked_mul(levels) {
        Some(product) => product,
        None => {
            return None;
        },
    };
    if predicate_total > MAX_UNROLLED_PREDICATES || clause_total > MAX_UNROLLED_CLAUSES {
        return None;
    }
    proof {
        assert(levels * count == count * levels) by (nonlinear_arith);
    }
    let mut copy = declare_levels(problem, levels);
    let ghost own = model.clauses;
    let ghost declared = copy@.predicates;
    for level in 0..levels
        invariant
            model == problem@,
            own == model.clauses,
            model.names_declared(),
            count == problem.predicates@.len(),
            levels * count <= MAX_UNROLLED_PREDICATES,
            levels <= MAX_UNROLLED_PREDICATES,
            cut == graph::edge_set(back@),
            copy@.predicates == declared,
            copy@.clauses == unrolled_clauses(
                own,
                level as nat,
                levels as int,
                count as int,
                cut,
            ),
            !copy.fixedpoint_format,
            !copy.stripped_body_forall,
            !copy.has_datatype_defs,
            !copy.has_action_decomposition,
    {
        let ghost base = copy@.clauses;
        assert(own.take(0) =~= Seq::empty());
        assert(base + Seq::<ClauseModel>::empty() =~= base);
        for i in 0..problem.clauses.len()
            invariant
                level < levels,
                model == problem@,
                own == model.clauses,
                model.names_declared(),
                count == problem.predicates@.len(),
                levels * count <= MAX_UNROLLED_PREDICATES,
                levels <= MAX_UNROLLED_PREDICATES,
                cut == graph::edge_set(back@),
                copy@.predicates == declared,
                copy@.clauses == base + level_clauses(
                    own.take(i as int),
                    level as int,
                    levels as int,
                    count as int,
                    cut,
                ),
                !copy.fixedpoint_format,
                !copy.stripped_body_forall,
                !copy.has_datatype_defs,
                !copy.has_action_decomposition,
        {
            let ghost next = own.take(i + 1);
            assert(next.drop_last() =~= own.take(i as int));
            assert(next.last() == problem.clauses@[i as int]@);
            assert(own[i as int].names_declared(count as nat));
            let ghost before = copy@.clauses;
            match unroll_clause(&problem.clauses[i], level, levels, count, &back) {
                Some(clause) => {
                    let ghost added = clause@;
                    copy.add_clause(clause);
                    assert(copy@.clauses =~= base + level_clauses(
                        own.take(i as int),
                        level as int,
                        levels as int,
                        count as int,
                        cut,
                    ).push(added));
                },
                None => {},
            }
        }
        assert(own.take(problem.clauses@.len() as int) =~= own);
    }
    proof {
        unroll_laws::law_unrolled_names_are_declared(model, k as nat);
        unroll_laws::law_unrolled_problem_is_acyclic(model, k as nat);
    }
    Some(BoundedUnrolledChc { problem: copy, k })
}

/// A cycle needs a predicate and a clause.
proof fn lemma_cycle_not_empty(problem: ProblemModel)
    requires
        problem.names_declared(),
        graph::has_cycle(problem),
    ensures
        problem.predicates.len() >= 1,
        problem.clauses.len() >= 1,
{
    let walk = choose|walk: Seq<int>| #[trigger]
        graph::is_walk(problem, walk) && walk.len() >= 2 && walk[0] == walk.last();
    assert(graph::depends(problem, walk[0], walk[1]));
    let i = choose|i: int|
        0 <= i < problem.clauses.len() && graph::clause_edge(
            #[trigger] problem.clauses[i],
            walk[0],
            walk[1],
        );
    assert(problem.clauses[i].names_declared(problem.predicates.len()));
}

} // verus!
