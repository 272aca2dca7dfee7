use std::collections::BTreeSet;
use std::sync::Arc;

use trust_mc_native::chc::{
    ChcExpr, ChcOp, ChcProblem, ChcSort, ChcVar, ClauseBody, ClauseHead, HornClause, PredicateAtom,
    PredicateId,
};
use trust_mc_native::graph::dfs_retreating_edges;
use trust_mc_native::grounding::{
    clause_is_grounded_for_refutation, collect_expr_vars, problem_is_grounded_for_refutation,
};
use trust_mc_native::unroll::{bounded_unroll_chc_for_refutation, BOUNDED_UNROLL_K_LADDER};

fn var(name: &str, sort: ChcSort) -> Arc<ChcExpr> {
    Arc::new(ChcExpr::Var(ChcVar::new(name.to_owned(), sort)))
}

fn int_var(name: &str) -> Arc<ChcExpr> {
    var(name, ChcSort::Int)
}

fn lit(value: i128) -> Arc<ChcExpr> {
    Arc::new(ChcExpr::Int(value))
}

fn op2(op: ChcOp, left: Arc<ChcExpr>, right: Arc<ChcExpr>) -> Arc<ChcExpr> {
    Arc::new(ChcExpr::Op(op, vec![left, right]))
}

fn atom(predicate: PredicateId, args: Vec<Arc<ChcExpr>>) -> PredicateAtom {
    PredicateAtom { predicate, args }
}

fn clause(
    predicates: Vec<PredicateAtom>,
    constraint: Option<Arc<ChcExpr>>,
    head: ClauseHead,
) -> HornClause {
    HornClause { body: ClauseBody { predicates, constraint }, head }
}

/// `entry -> loop(0)`, `loop(i) and i < bound -> loop(i + 1)`,
/// `loop(i) and i = target -> false`.
fn counter_loop_problem(bound: i128, target: i128) -> ChcProblem {
    let mut problem = ChcProblem::new();
    let entry = problem.declare_predicate("entry".to_owned(), vec![]);
    let looppred = problem.declare_predicate("loop".to_owned(), vec![ChcSort::Int]);
    let i = || int_var("i");
    problem.add_clause(clause(vec![], None, ClauseHead::Predicate(atom(entry, vec![]))));
    problem.add_clause(clause(
        vec![atom(entry, vec![])],
        Some(op2(ChcOp::Eq, i(), lit(0))),
        ClauseHead::Predicate(atom(looppred, vec![i()])),
    ));
    problem.add_clause(clause(
        vec![atom(looppred, vec![i()])],
        Some(op2(ChcOp::Lt, i(), lit(bound))),
        ClauseHead::Predicate(atom(looppred, vec![op2(ChcOp::Add, i(), lit(1))])),
    ));
    problem.add_clause(clause(
        vec![atom(looppred, vec![i()])],
        Some(op2(ChcOp::Eq, i(), lit(target))),
        ClauseHead::False,
    ));
    problem
}

fn eval_int(expr: &ChcExpr, i: i128) -> i128 {
    match expr {
        ChcExpr::Int(value) => *value,
        ChcExpr::Var(_) => i,
        ChcExpr::Op(ChcOp::Add, args) => args.iter().map(|arg| eval_int(arg, i)).sum(),
        other => panic!("unexpected term {other:?}"),
    }
}

fn eval_bool(expr: &ChcExpr, i: i128) -> bool {
    match expr {
        ChcExpr::Op(ChcOp::Eq, args) => eval_int(&args[0], i) == eval_int(&args[1], i),
        ChcExpr::Op(ChcOp::Lt, args) => eval_int(&args[0], i) < eval_int(&args[1], i),
        other => panic!("unexpected constraint {other:?}"),
    }
}

/// Whether some query of a problem over the single variable `i` is derivable with
/// values between 0 and 200.
fn derivable(problem: &ChcProblem) -> bool {
    let mut facts: BTreeSet<(usize, Vec<i128>)> = BTreeSet::new();
    loop {
        let before = facts.len();
        for clause in &problem.clauses {
            for i in 0..=200 {
                let constrained = match &clause.body.constraint {
                    Some(constraint) => eval_bool(constraint, i),
                    None => true,
                };
                let premises = clause.body.predicates.iter().all(|premise| {
                    let args: Vec<i128> =
                        premise.args.iter().map(|arg| eval_int(arg, i)).collect();
                    facts.contains(&(premise.predicate.index, args))
                });
                if constrained && premises {
                    match &clause.head {
                        ClauseHead::False => return true,
                        ClauseHead::Predicate(head) => {
                            let args: Vec<i128> =
                                head.args.iter().map(|arg| eval_int(arg, i)).collect();
                            facts.insert((head.predicate.index, args));
                        }
                    }
                }
            }
        }
        if facts.len() == before {
            return false;
        }
    }
}

#[test]
fn unrolled_problem_is_acyclic_and_budget_sized() {
    let problem = counter_loop_problem(100, 3);
    assert!(problem.has_cycles(), "fixture must be cyclic");
    let unrolled =
        bounded_unroll_chc_for_refutation(&problem, 4).expect("cyclic linear problem unrolls");
    assert!(!unrolled.problem.has_cycles(), "unroll output must be acyclic");
    assert_eq!(unrolled.k, 4);
    // 5 levels each of the entry and loop predicates.
    assert_eq!(unrolled.problem.predicates.len(), 10);
    // 1 fact (level 0 only) + 5 entry-to-loop clauses + 4 loop transitions (the
    // back edge of level 4 is dropped) + 5 queries.
    assert_eq!(unrolled.problem.clauses.len(), 15);
    assert_eq!(unrolled.problem.predicates[0].name, "entry__trust_mc_bmc_unroll_l0");
    assert_eq!(unrolled.problem.predicates[9].name, "loop__trust_mc_bmc_unroll_l4");
}

#[test]
fn acyclic_input_declines() {
    let mut problem = ChcProblem::new();
    let p = problem.declare_predicate("p".to_owned(), vec![ChcSort::Int]);
    let x = || int_var("x");
    problem.add_clause(clause(
        vec![],
        Some(op2(ChcOp::Eq, x(), lit(1))),
        ClauseHead::Predicate(atom(p, vec![x()])),
    ));
    problem.add_clause(clause(
        vec![atom(p, vec![x()])],
        Some(op2(ChcOp::Gt, x(), lit(0))),
        ClauseHead::False,
    ));
    assert!(!problem.has_cycles());
    assert!(bounded_unroll_chc_for_refutation(&problem, 4).is_none());
}

#[test]
fn nonlinear_body_declines() {
    let mut problem = ChcProblem::new();
    let p = problem.declare_predicate("p".to_owned(), vec![ChcSort::Int]);
    let x = || int_var("x");
    problem.add_clause(clause(
        vec![],
        Some(op2(ChcOp::Eq, x(), lit(0))),
        ClauseHead::Predicate(atom(p, vec![x()])),
    ));
    // A self-loop makes it cyclic and nonlinear (two body predicates).
    problem.add_clause(clause(
        vec![atom(p, vec![x()]), atom(p, vec![x()])],
        None,
        ClauseHead::Predicate(atom(p, vec![op2(ChcOp::Add, x(), lit(1))])),
    ));
    problem.add_clause(clause(
        vec![atom(p, vec![x()])],
        Some(op2(ChcOp::Gt, x(), lit(0))),
        ClauseHead::False,
    ));
    assert!(bounded_unroll_chc_for_refutation(&problem, 4).is_none());
}

#[test]
fn reserved_marker_collision_declines() {
    let mut problem = ChcProblem::new();
    let p = problem.declare_predicate("p__trust_mc_bmc_unroll_l0".to_owned(), vec![ChcSort::Int]);
    let x = || int_var("x");
    problem.add_clause(clause(
        vec![],
        Some(op2(ChcOp::Eq, x(), lit(0))),
        ClauseHead::Predicate(atom(p, vec![x()])),
    ));
    problem.add_clause(clause(
        vec![atom(p, vec![x()])],
        None,
        ClauseHead::Predicate(atom(p, vec![op2(ChcOp::Add, x(), lit(1))])),
    ));
    problem.add_clause(clause(
        vec![atom(p, vec![x()])],
        Some(op2(ChcOp::Gt, x(), lit(0))),
        ClauseHead::False,
    ));
    assert!(problem.has_cycles());
    assert!(bounded_unroll_chc_for_refutation(&problem, 4).is_none());
}

#[test]
fn witness_within_budget_is_found_and_beyond_budget_is_not_misreported() {
    // Reachable at 3 back edges: an unroll with 4 has a derivation.
    let reachable = counter_loop_problem(100, 3);
    let unrolled = bounded_unroll_chc_for_refutation(&reachable, 4).expect("unrolls");
    assert!(derivable(&unrolled.problem));

    // Reachable only at 10 back edges: the prefix with 4 has none.
    let deeper = counter_loop_problem(100, 10);
    let unrolled = bounded_unroll_chc_for_refutation(&deeper, 4).expect("unrolls");
    assert!(!derivable(&unrolled.problem));
    assert!(derivable(&deeper));
}

#[test]
fn refutations_within_the_budget_are_kept_and_those_found_are_real() {
    for target in [0, 4, 5, 16, 17] {
        let problem = counter_loop_problem(100, target);
        for k in [4, 16] {
            let unrolled = bounded_unroll_chc_for_refutation(&problem, k).expect("unrolls");
            assert_eq!(derivable(&unrolled.problem), target <= i128::from(k), "{target} in {k}");
        }
    }
}

#[test]
fn ungrounded_loop_carried_state_declines() {
    let mut problem = ChcProblem::new();
    let entry = problem.declare_predicate("entry".to_owned(), vec![]);
    let p = problem.declare_predicate("loop".to_owned(), vec![ChcSort::Int]);
    let i = || int_var("i");
    // `t` occurs only in the head and the query, never among the arguments of a
    // body relation.
    let t = || int_var("t");
    problem.add_clause(clause(vec![], None, ClauseHead::Predicate(atom(entry, vec![]))));
    problem.add_clause(clause(
        vec![atom(entry, vec![])],
        Some(op2(ChcOp::Eq, i(), lit(0))),
        ClauseHead::Predicate(atom(p, vec![i()])),
    ));
    problem.add_clause(clause(
        vec![atom(p, vec![i()])],
        Some(op2(ChcOp::Lt, i(), lit(10))),
        ClauseHead::Predicate(atom(p, vec![op2(ChcOp::Add, t(), lit(1))])),
    ));
    problem.add_clause(clause(
        vec![atom(p, vec![i()])],
        Some(op2(ChcOp::Gt, t(), lit(1000))),
        ClauseHead::False,
    ));
    assert!(problem.has_cycles());
    assert!(
        bounded_unroll_chc_for_refutation(&problem, 4).is_none(),
        "ungrounded loop-carried state must decline the unroll entirely"
    );
}

#[test]
fn second_free_fact_declines() {
    let mut problem = counter_loop_problem(100, 3);
    let injected = problem.declare_predicate("injected".to_owned(), vec![ChcSort::Int]);
    problem.add_clause(clause(
        vec![],
        None,
        ClauseHead::Predicate(atom(injected, vec![int_var("havoc")])),
    ));

    assert!(problem.has_cycles());
    assert!(
        bounded_unroll_chc_for_refutation(&problem, 4).is_none(),
        "a second bodyless free fact must not be mistaken for program input"
    );
}

#[test]
fn internal_free_fact_declines() {
    let mut problem = ChcProblem::new();
    let looppred = problem.declare_predicate("loop".to_owned(), vec![ChcSort::Int]);
    let value = || int_var("value");
    problem.add_clause(clause(vec![], None, ClauseHead::Predicate(atom(looppred, vec![value()]))));
    problem.add_clause(clause(
        vec![atom(looppred, vec![value()])],
        None,
        ClauseHead::Predicate(atom(looppred, vec![op2(ChcOp::Add, value(), lit(1))])),
    ));
    problem.add_clause(clause(
        vec![atom(looppred, vec![value()])],
        Some(op2(ChcOp::Gt, value(), lit(2))),
        ClauseHead::False,
    ));

    assert!(problem.has_cycles());
    assert!(
        bounded_unroll_chc_for_refutation(&problem, 4).is_none(),
        "an internal bodyless free fact must not seed a refutation"
    );
}

#[test]
fn same_name_different_sort_does_not_ground_free_value() {
    let mut problem = ChcProblem::new();
    let entry = problem.declare_predicate("entry".to_owned(), vec![]);
    let looppred = problem.declare_predicate("loop".to_owned(), vec![ChcSort::Int]);
    let int_x = || int_var("x");
    let bool_x = var("x", ChcSort::Bool);
    problem.add_clause(clause(vec![], None, ClauseHead::Predicate(atom(entry, vec![]))));
    problem.add_clause(clause(
        vec![atom(entry, vec![])],
        None,
        ClauseHead::Predicate(atom(looppred, vec![lit(0)])),
    ));
    problem.add_clause(clause(
        vec![atom(looppred, vec![int_x()])],
        Some(bool_x),
        ClauseHead::Predicate(atom(looppred, vec![int_x()])),
    ));
    problem.add_clause(clause(
        vec![atom(looppred, vec![int_x()])],
        Some(op2(ChcOp::Gt, int_x(), lit(2))),
        ClauseHead::False,
    ));

    assert!(problem.has_cycles());
    assert!(bounded_unroll_chc_for_refutation(&problem, 4).is_none());
}

#[test]
fn equality_defined_intermediates_stay_grounded() {
    let mut problem = ChcProblem::new();
    let entry = problem.declare_predicate("entry".to_owned(), vec![]);
    let p = problem.declare_predicate("loop".to_owned(), vec![ChcSort::Int]);
    let i = || int_var("i");
    let v = || int_var("v");
    problem.add_clause(clause(vec![], None, ClauseHead::Predicate(atom(entry, vec![]))));
    problem.add_clause(clause(
        vec![atom(entry, vec![])],
        Some(op2(ChcOp::Eq, i(), lit(0))),
        ClauseHead::Predicate(atom(p, vec![i()])),
    ));
    problem.add_clause(clause(
        vec![atom(p, vec![i()])],
        Some(ChcExpr::and_vec(vec![
            op2(ChcOp::Lt, i(), lit(100)),
            op2(ChcOp::Eq, v(), op2(ChcOp::Add, i(), lit(1))),
        ])),
        ClauseHead::Predicate(atom(p, vec![v()])),
    ));
    problem.add_clause(clause(
        vec![atom(p, vec![i()])],
        Some(op2(ChcOp::Eq, i(), lit(3))),
        ClauseHead::False,
    ));
    assert!(problem.has_cycles());
    assert!(
        bounded_unroll_chc_for_refutation(&problem, 4).is_some(),
        "equality-defined intermediates are grounded, not havoc"
    );
}

#[test]
fn unreachable_query_is_never_refuted_by_the_unroll() {
    // The target is at least the bound plus two: no execution reaches it at any
    // depth, so no budget may fabricate a derivation.
    let unreachable = counter_loop_problem(5, 7);
    for k in BOUNDED_UNROLL_K_LADDER {
        let unrolled = bounded_unroll_chc_for_refutation(&unreachable, k).expect("unrolls");
        assert!(!derivable(&unrolled.problem), "fabricated a derivation at k={k}");
    }
}

#[test]
fn a_problem_with_input_flags_declines() {
    let mut inverted = counter_loop_problem(100, 3);
    inverted.fixedpoint_format = true;
    assert!(bounded_unroll_chc_for_refutation(&inverted, 4).is_none());
    let mut weakened = counter_loop_problem(100, 3);
    weakened.stripped_body_forall = true;
    assert!(bounded_unroll_chc_for_refutation(&weakened, 4).is_none());
}

#[test]
fn a_budget_of_zero_declines_or_drops_every_back_edge() {
    let problem = counter_loop_problem(100, 0);
    if let Some(unrolled) = bounded_unroll_chc_for_refutation(&problem, 0) {
        assert!(!unrolled.problem.has_cycles());
        assert_eq!(unrolled.problem.predicates.len(), 2);
    }
}

#[test]
fn retreating_edges_are_the_back_edges() {
    assert_eq!(dfs_retreating_edges(&counter_loop_problem(5, 7)), vec![(1, 1)]);

    // a -> b -> c -> a, and a shortcut a -> c.
    let mut ring = ChcProblem::new();
    let a = ring.declare_predicate("a".to_owned(), vec![]);
    let b = ring.declare_predicate("b".to_owned(), vec![]);
    let c = ring.declare_predicate("c".to_owned(), vec![]);
    for (from, to) in [(a, b), (b, c), (c, a), (a, c)] {
        ring.add_clause(clause(
            vec![atom(from, vec![])],
            None,
            ClauseHead::Predicate(atom(to, vec![])),
        ));
    }
    assert_eq!(dfs_retreating_edges(&ring), vec![(2, 0)]);
    assert!(ring.has_cycles());
}

/// A problem with nullary predicates and a clause for each edge.
fn graph_problem(count: usize, edges: &[(usize, usize)]) -> ChcProblem {
    let mut problem = ChcProblem::new();
    let mut ids = Vec::new();
    for index in 0..count {
        ids.push(problem.declare_predicate(format!("p{index}"), vec![]));
    }
    for &(from, to) in edges {
        problem.add_clause(clause(
            vec![atom(ids[from], vec![])],
            None,
            ClauseHead::Predicate(atom(ids[to], vec![])),
        ));
    }
    problem
}

#[test]
fn retreating_edges_are_listed_in_order_and_once() {
    assert_eq!(dfs_retreating_edges(&graph_problem(1, &[(0, 0), (0, 0)])), vec![(0, 0)]);
    assert_eq!(
        dfs_retreating_edges(&graph_problem(2, &[(0, 1), (0, 0), (1, 0)])),
        vec![(0, 0), (1, 0)]
    );
    assert_eq!(
        dfs_retreating_edges(&graph_problem(
            3,
            &[(0, 1), (1, 2), (2, 2), (2, 1), (2, 0), (2, 1), (0, 0)]
        )),
        vec![(0, 0), (2, 0), (2, 1), (2, 2)]
    );
    let acyclic = graph_problem(3, &[(0, 1), (0, 2), (1, 2)]);
    assert_eq!(dfs_retreating_edges(&acyclic), vec![]);
    assert!(!acyclic.has_cycles());
}

#[test]
fn grounded_values_are_forced() {
    let problem = counter_loop_problem(100, 3);
    assert!(problem_is_grounded_for_refutation(&problem));
    for clause in &problem.clauses[1..] {
        assert!(clause_is_grounded_for_refutation(clause));
    }
    let free = clause(
        vec![],
        None,
        ClauseHead::Predicate(atom(PredicateId { index: 1 }, vec![int_var("free")])),
    );
    let vars = match &free.head {
        ClauseHead::Predicate(head) => collect_expr_vars(&head.args[0]),
        ClauseHead::False => None,
    };
    assert_eq!(vars.map(|vars| vars.len()), Some(1));
}
