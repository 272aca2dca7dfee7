//! Laws of groundedness and of which problems unroll, stated on the equalities that
//! a constraint asserts.
use vstd::prelude::*;

use crate::chc::{ChcOp, ClauseModel, ExprModel, HeadModel, ProblemModel, VarModel};
use crate::graph;
use crate::grounding;
use crate::terms;
use crate::text;
use crate::unroll;

verus! {

/// Whether a term asserts another: it is that term, or a conjunction with a conjunct
/// that asserts it. A conjunction itself is not asserted as a whole.
pub open spec fn asserts(expr: ExprModel, leaf: ExprModel) -> bool
    decreases expr,
{
    match expr {
        ExprModel::Op(ChcOp::And, args) => exists|i: int|
            0 <= i < args.len() && asserts(#[trigger] args[i], leaf),
        _ => expr == leaf,
    }
}

/// Whether the constraint of a clause asserts an equality between a variable and a
/// term, on whichever side the variable stands.
pub open spec fn equates(clause: ClauseModel, var: VarModel, term: ExprModel) -> bool {
    clause.constraint matches Some(expr) && (asserts(
        expr,
        ExprModel::Op(ChcOp::Eq, seq![ExprModel::Var(var), term]),
    ) || asserts(expr, ExprModel::Op(ChcOp::Eq, seq![term, ExprModel::Var(var)])))
}

/// Whether a variable stands in an argument of a premise.
pub open spec fn in_premises(clause: ClauseModel, var: VarModel) -> bool {
    exists|i: int, j: int|
        0 <= i < clause.atoms.len() && 0 <= j < clause.atoms[i].args.len() && terms::occurs(
            var,
            #[trigger] clause.atoms[i].args[j],
        )
}

/// Whether a variable stands in the constraint or the head of a clause.
pub open spec fn in_clause(clause: ClauseModel, var: VarModel) -> bool {
    ||| clause.constraint matches Some(expr) && terms::occurs(var, expr)
    ||| clause.head matches HeadModel::Predicate(head) && exists|j: int|
        0 <= j < head.args.len() && terms::occurs(var, #[trigger] head.args[j])
}

/// Whether a set holds the variables of the premises and every variable that is
/// equated with a term over the set.
pub open spec fn determined(clause: ClauseModel, known: Set<VarModel>) -> bool {
    &&& forall|var: VarModel| #[trigger] in_premises(clause, var) ==> known.contains(var)
    &&& forall|var: VarModel, term: ExprModel| #[trigger]
        equates(clause, var, term) && (forall|own: VarModel| #[trigger]
            terms::occurs(own, term) ==> known.contains(own)) ==> known.contains(var)
}

/// Whether every set that the premises and the equalities determine holds every
/// variable of a clause.
pub open spec fn leaves_no_choice(clause: ClauseModel) -> bool {
    forall|known: Set<VarModel>, var: VarModel|
        #![trigger determined(clause, known), in_clause(clause, var)]
        determined(clause, known) && in_clause(clause, var) ==> known.contains(var)
}

/// Whether a variable of a list is in a premise, or equated with a term whose
/// variables all stand before it.
pub open spec fn follows_earlier(clause: ClauseModel, chain: Seq<VarModel>, i: int) -> bool {
    ||| in_premises(clause, chain[i])
    ||| exists|term: ExprModel| #[trigger]
        equates(clause, chain[i], term) && forall|own: VarModel| #[trigger]
            terms::occurs(own, term) ==> exists|j: int| 0 <= j < i && #[trigger] chain[j] == own
}

pub(crate) proof fn lemma_asserted_leaves(expr: ExprModel, leaf: ExprModel)
    ensures
        terms::conjunct_leaves(expr).contains(leaf) <==> asserts(expr, leaf),
    decreases expr, 1nat,
{
    match expr {
        ExprModel::Op(ChcOp::And, args) => {
            lemma_all_asserted_leaves(args, leaf);
        },
        _ => {
            assert(seq![expr][0] == expr);
        },
    }
}

proof fn lemma_all_asserted_leaves(exprs: Seq<ExprModel>, leaf: ExprModel)
    ensures
        terms::all_conjunct_leaves(exprs).contains(leaf) <==> exists|i: int|
            0 <= i < exprs.len() && asserts(#[trigger] exprs[i], leaf),
    decreases exprs, 0nat,
{
    if exprs.len() > 0 {
        let front = exprs.drop_last();
        let last = exprs[exprs.len() - 1];
        lemma_all_asserted_leaves(front, leaf);
        lemma_asserted_leaves(last, leaf);
        let l = terms::all_conjunct_leaves(front);
        let r = terms::conjunct_leaves(last);
        let all = terms::all_conjunct_leaves(exprs);
        assert(all == l + r);
        if all.contains(leaf) {
            let i = choose|i: int| 0 <= i < all.len() && all[i] == leaf;
            if i < l.len() {
                assert(l[i] == leaf);
                let j = choose|j: int| 0 <= j < front.len() && asserts(#[trigger] front[j], leaf);
                assert(asserts(exprs[j], leaf));
            } else {
                assert(r[i - l.len()] == leaf);
                assert(asserts(exprs[exprs.len() - 1], leaf));
            }
        }
        if exists|i: int| 0 <= i < exprs.len() && asserts(#[trigger] exprs[i], leaf) {
            let i = choose|i: int| 0 <= i < exprs.len() && asserts(#[trigger] exprs[i], leaf);
            if i < front.len() {
                assert(asserts(front[i], leaf));
                let j = choose|j: int| 0 <= j < l.len() && l[j] == leaf;
                assert(all[j] == leaf);
            } else {
                let j = choose|j: int| 0 <= j < r.len() && r[j] == leaf;
                assert(all[l.len() + j] == leaf);
            }
        }
    } else {
        assert(!terms::all_conjunct_leaves(exprs).contains(leaf));
    }
}

proof fn lemma_occurs_in_asserted(expr: ExprModel, var: VarModel)
    ensures
        terms::occurs(var, expr) <==> exists|leaf: ExprModel| #[trigger]
            asserts(expr, leaf) && terms::occurs(var, leaf),
    decreases expr,
{
    match expr {
        ExprModel::Op(ChcOp::And, args) => {
            if terms::occurs(var, expr) {
                assert(terms::occurs_in_any(var, args));
                let i = choose|i: int| 0 <= i < args.len() && terms::occurs(var, #[trigger] args[i]);
                lemma_occurs_in_asserted(args[i], var);
                let leaf = choose|leaf: ExprModel| #[trigger]
                    asserts(args[i], leaf) && terms::occurs(var, leaf);
                assert(asserts(expr, leaf));
            }
            if exists|leaf: ExprModel| #[trigger] asserts(expr, leaf) && terms::occurs(var, leaf) {
                let leaf = choose|leaf: ExprModel| #[trigger]
                    asserts(expr, leaf) && terms::occurs(var, leaf);
                let i = choose|i: int| 0 <= i < args.len() && asserts(#[trigger] args[i], leaf);
                lemma_occurs_in_asserted(args[i], var);
                assert(terms::occurs(var, args[i]));
                assert(terms::occurs_in_any(var, args));
            }
        },
        _ => {
            assert(asserts(expr, expr));
        },
    }
}

/// The variables that are fixed in some round.
spec fn all_fixed(clause: ClauseModel) -> Set<VarModel> {
    Set::new(
        |var: VarModel|
            grounding::is_fixed(
                grounding::premise_vars(clause.atoms),
                grounding::constraint_leaves(clause.constraint),
                var,
            ),
    )
}

proof fn lemma_fixed_stays(
    seeds: Set<VarModel>,
    leaves: Seq<ExprModel>,
    early: nat,
    late: nat,
    var: VarModel,
)
    requires
        early <= late,
        grounding::fixed_after(seeds, leaves, early).contains(var),
    ensures
        grounding::fixed_after(seeds, leaves, late).contains(var),
    decreases late,
{
    if early < late {
        lemma_fixed_stays(seeds, leaves, early, (late - 1) as nat, var);
    }
}

/// Where every variable of a term is fixed in some round, all are in a common one.
proof fn lemma_common_round(seeds: Set<VarModel>, leaves: Seq<ExprModel>, expr: ExprModel) -> (rounds:
    nat)
    requires
        forall|var: VarModel| #[trigger]
            terms::occurs(var, expr) ==> grounding::is_fixed(seeds, leaves, var),
    ensures
        grounding::vars_within(expr, grounding::fixed_after(seeds, leaves, rounds)),
    decreases expr, 1nat,
{
    match expr {
        ExprModel::Var(own) => {
            assert(terms::occurs(own, expr));
            assert(grounding::is_fixed(seeds, leaves, own));
            let rounds = choose|rounds: nat| #[trigger]
                grounding::fixed_after(seeds, leaves, rounds).contains(own);
            assert(grounding::fixed_after(seeds, leaves, rounds).contains(own));
            assert forall|var: VarModel| #[trigger] terms::occurs(var, expr) implies var == own by {}
            rounds
        },
        ExprModel::Op(_, args) => {
            assert forall|var: VarModel| #[trigger]
                terms::occurs_in_any(var, args) implies grounding::is_fixed(seeds, leaves, var) by {
                assert(terms::occurs(var, expr));
            }
            let rounds = lemma_common_rounds(seeds, leaves, args);
            assert forall|var: VarModel| #[trigger] terms::occurs(var, expr) implies grounding::fixed_after(
                seeds,
                leaves,
                rounds,
            ).contains(var) by {
                assert(terms::occurs_in_any(var, args));
            }
            rounds
        },
        ExprModel::PredicateApp(_, _, args) => {
            assert forall|var: VarModel| #[trigger]
                terms::occurs_in_any(var, args) implies grounding::is_fixed(seeds, leaves, var) by {
                assert(terms::occurs(var, expr));
            }
            let rounds = lemma_common_rounds(seeds, leaves, args);
            assert forall|var: VarModel| #[trigger] terms::occurs(var, expr) implies grounding::fixed_after(
                seeds,
                leaves,
                rounds,
            ).contains(var) by {
                assert(terms::occurs_in_any(var, args));
            }
            rounds
        },
        ExprModel::FuncApp(_, _, args) => {
            assert forall|var: VarModel| #[trigger]
                terms::occurs_in_any(var, args) implies grounding::is_fixed(seeds, leaves, var) by {
                assert(terms::occurs(var, expr));
            }
            let rounds = lemma_common_rounds(seeds, leaves, args);
            assert forall|var: VarModel| #[trigger] terms::occurs(var, expr) implies grounding::fixed_after(
                seeds,
                leaves,
                rounds,
            ).contains(var) by {
                assert(terms::occurs_in_any(var, args));
            }
            rounds
        },
        ExprModel::ConstArray(_, value) => {
            assert forall|var: VarModel| #[trigger]
                terms::occurs(var, *value) implies grounding::is_fixed(seeds, leaves, var) by {
                assert(terms::occurs(var, expr));
            }
            let rounds = lemma_common_round(seeds, leaves, *value);
            assert forall|var: VarModel| #[trigger] terms::occurs(var, expr) implies grounding::fixed_after(
                seeds,
                leaves,
                rounds,
            ).contains(var) by {
                assert(terms::occurs(var, *value));
            }
            rounds
        },
        _ => {
            assert forall|var: VarModel| !#[trigger] terms::occurs(var, expr) by {}
            0
        },
    }
}

proof fn lemma_common_rounds(seeds: Set<VarModel>, leaves: Seq<ExprModel>, exprs: Seq<ExprModel>)
    -> (rounds: nat)
    requires
        forall|var: VarModel| #[trigger]
            terms::occurs_in_any(var, exprs) ==> grounding::is_fixed(seeds, leaves, var),
    ensures
        forall|var: VarModel| #[trigger]
            terms::occurs_in_any(var, exprs) ==> grounding::fixed_after(
                seeds,
                leaves,
                rounds,
            ).contains(var),
    decreases exprs, 0nat,
{
    if exprs.len() == 0 {
        0
    } else {
        let front = exprs.drop_last();
        let last = exprs[exprs.len() - 1];
        assert forall|var: VarModel| #[trigger]
            terms::occurs_in_any(var, front) implies grounding::is_fixed(seeds, leaves, var) by {
            let i = choose|i: int| 0 <= i < front.len() && terms::occurs(var, #[trigger] front[i]);
            assert(terms::occurs(var, exprs[i]));
            assert(terms::occurs_in_any(var, exprs));
        }
        assert forall|var: VarModel| #[trigger]
            terms::occurs(var, last) implies grounding::is_fixed(seeds, leaves, var) by {
            assert(terms::occurs(var, exprs[exprs.len() - 1]));
            assert(terms::occurs_in_any(var, exprs));
        }
        let one = lemma_common_rounds(seeds, leaves, front);
        let two = lemma_common_round(seeds, leaves, last);
        let rounds = if one < two {
            two
        } else {
            one
        };
        assert forall|var: VarModel| #[trigger]
            terms::occurs_in_any(var, exprs) implies grounding::fixed_after(
            seeds,
            leaves,
            rounds,
        ).contains(var) by {
            let i = choose|i: int| 0 <= i < exprs.len() && terms::occurs(var, #[trigger] exprs[i]);
            if i < front.len() {
                assert(terms::occurs(var, front[i]));
                assert(terms::occurs_in_any(var, front));
                lemma_fixed_stays(seeds, leaves, one, rounds, var);
            } else {
                assert(terms::occurs(var, last));
                lemma_fixed_stays(seeds, leaves, two, rounds, var);
            }
        }
        rounds
    }
}

proof fn lemma_premises(clause: ClauseModel, var: VarModel)
    ensures
        grounding::premise_vars(clause.atoms).contains(var) <==> in_premises(clause, var),
{
    if grounding::premise_vars(clause.atoms).contains(var) {
        let i = choose|i: int|
            0 <= i < clause.atoms.len() && terms::occurs_in_any(
                var,
                (#[trigger] clause.atoms[i]).args,
            );
        let j = choose|j: int|
            0 <= j < clause.atoms[i].args.len() && terms::occurs(
                var,
                #[trigger] clause.atoms[i].args[j],
            );
        assert(in_premises(clause, var));
    }
    if in_premises(clause, var) {
        let (i, j) = choose|i: int, j: int|
            0 <= i < clause.atoms.len() && 0 <= j < clause.atoms[i].args.len() && terms::occurs(
                var,
                #[trigger] clause.atoms[i].args[j],
            );
        assert(terms::occurs_in_any(var, clause.atoms[i].args));
    }
}

/// An equality that defines a variable over a set equates it with a term over it.
proof fn lemma_defining(clause: ClauseModel, leaf: ExprModel, var: VarModel, known: Set<VarModel>)
    requires
        grounding::constraint_leaves(clause.constraint).contains(leaf),
        grounding::defines(leaf, var, known),
        determined(clause, known),
    ensures
        known.contains(var),
{
    let expr = clause.constraint->0;
    lemma_asserted_leaves(expr, leaf);
    let args = leaf->Op_1;
    if args[0] == ExprModel::Var(var) && grounding::vars_within(args[1], known) {
        assert(args =~= seq![ExprModel::Var(var), args[1]]);
        assert(equates(clause, var, args[1]));
    } else {
        assert(args =~= seq![args[0], ExprModel::Var(var)]);
        assert(equates(clause, var, args[0]));
    }
}

proof fn lemma_fixed_is_determined(clause: ClauseModel, known: Set<VarModel>, rounds: nat)
    requires
        determined(clause, known),
    ensures
        grounding::fixed_after(
            grounding::premise_vars(clause.atoms),
            grounding::constraint_leaves(clause.constraint),
            rounds,
        ).subset_of(known),
    decreases rounds,
{
    let seeds = grounding::premise_vars(clause.atoms);
    let leaves = grounding::constraint_leaves(clause.constraint);
    assert forall|var: VarModel| grounding::fixed_after(seeds, leaves, rounds).contains(
        var,
    ) implies known.contains(var) by {
        if rounds == 0 {
            lemma_premises(clause, var);
        } else {
            let before = grounding::fixed_after(seeds, leaves, (rounds - 1) as nat);
            lemma_fixed_is_determined(clause, known, (rounds - 1) as nat);
            if !before.contains(var) {
                let leaf = choose|leaf: ExprModel| #[trigger]
                    leaves.contains(leaf) && grounding::defines(leaf, var, before);
                assert(grounding::defines(leaf, var, known));
                lemma_defining(clause, leaf, var, known);
            }
        }
    }
}

proof fn lemma_fixed_set_is_determined(clause: ClauseModel)
    ensures
        determined(clause, all_fixed(clause)),
{
    let seeds = grounding::premise_vars(clause.atoms);
    let leaves = grounding::constraint_leaves(clause.constraint);
    let known = all_fixed(clause);
    assert forall|var: VarModel| #[trigger] in_premises(clause, var) implies known.contains(
        var,
    ) by {
        lemma_premises(clause, var);
        assert(grounding::fixed_after(seeds, leaves, 0).contains(var));
    }
    assert forall|var: VarModel, term: ExprModel| #[trigger]
        equates(clause, var, term) && (forall|own: VarModel| #[trigger]
            terms::occurs(own, term) ==> known.contains(own)) implies known.contains(var) by {
        let expr = clause.constraint->0;
        let one = ExprModel::Op(ChcOp::Eq, seq![ExprModel::Var(var), term]);
        let two = ExprModel::Op(ChcOp::Eq, seq![term, ExprModel::Var(var)]);
        lemma_asserted_leaves(expr, one);
        lemma_asserted_leaves(expr, two);
        assert forall|own: VarModel| #[trigger] terms::occurs(own, term) implies grounding::is_fixed(
            seeds,
            leaves,
            own,
        ) by {
            assert(known.contains(own));
        }
        let rounds = lemma_common_round(seeds, leaves, term);
        let fixed = grounding::fixed_after(seeds, leaves, rounds);
        let leaf = if asserts(expr, one) {
            one
        } else {
            two
        };
        assert(leaves.contains(leaf));
        assert(grounding::defines(leaf, var, fixed));
        assert(grounding::fixed_after(seeds, leaves, rounds + 1).contains(var));
    }
}

proof fn lemma_grounded_without_choice(clause: ClauseModel)
    ensures
        grounding::clause_grounded(clause) <==> clause.atoms.len() > 0
            && grounding::clause_within_budget(clause) && leaves_no_choice(clause),
{
    let seeds = grounding::premise_vars(clause.atoms);
    let leaves = grounding::constraint_leaves(clause.constraint);
    if grounding::clause_grounded(clause) {
        assert forall|known: Set<VarModel>, var: VarModel|
            #![trigger determined(clause, known), in_clause(clause, var)]
            determined(clause, known) && in_clause(clause, var) implies known.contains(var) by {
            if clause.constraint matches Some(expr) && terms::occurs(var, expr) {
                let expr = clause.constraint->0;
                lemma_occurs_in_asserted(expr, var);
                let leaf = choose|leaf: ExprModel| #[trigger]
                    asserts(expr, leaf) && terms::occurs(var, leaf);
                lemma_asserted_leaves(expr, leaf);
                assert(leaves.contains(leaf) && terms::occurs(var, leaf));
            } else {
                let args = grounding::head_args(clause.head);
                let j = choose|j: int| 0 <= j < args.len() && terms::occurs(var, #[trigger] args[j]);
                assert(terms::occurs_in_any(var, args));
            }
            assert(grounding::is_fixed(seeds, leaves, var));
            let rounds = choose|rounds: nat| #[trigger]
                grounding::fixed_after(seeds, leaves, rounds).contains(var);
            lemma_fixed_is_determined(clause, known, rounds);
        }
    }
    if leaves_no_choice(clause) {
        lemma_fixed_set_is_determined(clause);
        let known = all_fixed(clause);
        assert forall|leaf: ExprModel, var: VarModel|
            #![trigger leaves.contains(leaf), terms::occurs(var, leaf)]
            leaves.contains(leaf) && terms::occurs(var, leaf) implies grounding::is_fixed(
            seeds,
            leaves,
            var,
        ) by {
            let expr = clause.constraint->0;
            lemma_asserted_leaves(expr, leaf);
            lemma_occurs_in_asserted(expr, var);
            assert(in_clause(clause, var));
            assert(known.contains(var));
        }
        assert forall|var: VarModel| #[trigger]
            terms::occurs_in_any(var, grounding::head_args(clause.head)) implies grounding::is_fixed(
            seeds,
            leaves,
            var,
        ) by {
            let args = grounding::head_args(clause.head);
            let j = choose|j: int| 0 <= j < args.len() && terms::occurs(var, #[trigger] args[j]);
            assert(in_clause(clause, var));
            assert(known.contains(var));
        }
    }
}

/// A grounded clause has premises, and they leave no choice: every set that holds the
/// variables of the premises and every variable that the constraint equates, on
/// either side, with a term over the set, holds every variable of the clause. Its
/// arguments and its conjuncts have at most 200,000 nodes each.
pub proof fn law_grounded_clauses_leave_no_choice(clause: ClauseModel)
    requires
        grounding::clause_grounded(clause),
    ensures
        clause.atoms.len() > 0,
        leaves_no_choice(clause),
        forall|i: int, j: int|
            0 <= i < clause.atoms.len() && 0 <= j < clause.atoms[i].args.len()
                ==> terms::node_count(#[trigger] clause.atoms[i].args[j]) <= 200_000,
        clause.constraint matches Some(expr) ==> forall|leaf: ExprModel| #[trigger]
            asserts(expr, leaf) ==> terms::node_count(leaf) <= 200_000,
        clause.head matches HeadModel::Predicate(head) ==> forall|j: int|
            0 <= j < head.args.len() ==> terms::node_count(#[trigger] head.args[j]) <= 200_000,
{
    lemma_grounded_without_choice(clause);
    assert forall|i: int, j: int|
        0 <= i < clause.atoms.len() && 0 <= j < clause.atoms[i].args.len() implies terms::node_count(
        #[trigger] clause.atoms[i].args[j],
    ) <= 200_000 by {
        assert(grounding::all_within_budget(clause.atoms[i].args));
        assert(grounding::within_budget(clause.atoms[i].args[j]));
    }
    if let Some(expr) = clause.constraint {
        assert forall|leaf: ExprModel| #[trigger] asserts(expr, leaf) implies terms::node_count(leaf)
            <= 200_000 by {
            lemma_asserted_leaves(expr, leaf);
            assert(grounding::constraint_leaves(clause.constraint).contains(leaf));
            assert(grounding::within_budget(leaf));
        }
    }
    if let HeadModel::Predicate(head) = clause.head {
        assert forall|j: int| 0 <= j < head.args.len() implies terms::node_count(
            #[trigger] head.args[j],
        ) <= 200_000 by {
            assert(grounding::within_budget(grounding::head_args(clause.head)[j]));
        }
    }
}

/// Whether no term of a clause has more than 200,000 nodes.
pub open spec fn is_small(clause: ClauseModel) -> bool {
    &&& forall|i: int, j: int|
        0 <= i < clause.atoms.len() && 0 <= j < clause.atoms[i].args.len() ==> terms::node_count(
            #[trigger] clause.atoms[i].args[j],
        ) <= 200_000
    &&& clause.constraint matches Some(expr) ==> terms::node_count(expr) <= 200_000
    &&& clause.head matches HeadModel::Predicate(head) ==> forall|j: int|
        0 <= j < head.args.len() ==> terms::node_count(#[trigger] head.args[j]) <= 200_000
}

proof fn lemma_small_flattens(pending: Seq<ExprModel>, found: Seq<ExprModel>)
    requires
        found.len() + terms::total_nodes(pending) <= 200_000,
    ensures
        grounding::flattened(pending, found) is Some,
    decreases terms::total_nodes(pending),
{
    if pending.len() > 0 {
        let node = pending.last();
        let rest = pending.drop_last();
        grounding::lemma_flatten_decreases(pending);
        terms::lemma_node_count_positive(node);
        lemma_nodes_at_least(rest);
        if node is Op && node->Op_0 is And {
            terms::lemma_total_nodes_concat(rest, node->Op_1);
            lemma_small_flattens(rest + node->Op_1, found);
        } else {
            lemma_small_flattens(rest, found.push(node));
        }
    }
}

proof fn lemma_nodes_at_least(exprs: Seq<ExprModel>)
    ensures
        exprs.len() <= terms::total_nodes(exprs),
    decreases exprs.len(),
{
    if exprs.len() > 0 {
        lemma_nodes_at_least(exprs.drop_last());
        terms::lemma_node_count_positive(exprs.last());
    }
}

proof fn lemma_asserted_is_smaller(expr: ExprModel, leaf: ExprModel)
    requires
        asserts(expr, leaf),
    ensures
        terms::node_count(leaf) <= terms::node_count(expr),
    decreases expr,
{
    if let ExprModel::Op(ChcOp::And, args) = expr {
        let i = choose|i: int| 0 <= i < args.len() && asserts(#[trigger] args[i], leaf);
        lemma_asserted_is_smaller(args[i], leaf);
        lemma_one_of(args, i);
    }
}

proof fn lemma_one_of(exprs: Seq<ExprModel>, i: int)
    requires
        0 <= i < exprs.len(),
    ensures
        terms::node_count(exprs[i]) <= terms::total_nodes(exprs),
    decreases exprs.len(),
{
    if i < exprs.len() - 1 {
        lemma_one_of(exprs.drop_last(), i);
    }
}

proof fn lemma_small_within_budget(clause: ClauseModel)
    requires
        is_small(clause),
    ensures
        grounding::clause_within_budget(clause),
{
    assert forall|i: int| 0 <= i < clause.atoms.len() implies grounding::all_within_budget(
        (#[trigger] clause.atoms[i]).args,
    ) by {
        assert forall|j: int| 0 <= j < clause.atoms[i].args.len() implies grounding::within_budget(
            #[trigger] clause.atoms[i].args[j],
        ) by {}
    }
    if let Some(expr) = clause.constraint {
        assert(seq![expr].drop_last() =~= Seq::empty());
        assert(terms::total_nodes(seq![expr].drop_last()) == 0);
        assert(terms::total_nodes(seq![expr]) == terms::node_count(expr));
        lemma_small_flattens(seq![expr], Seq::empty());
        assert forall|leaf: ExprModel| #[trigger]
            grounding::constraint_leaves(clause.constraint).contains(
                leaf,
            ) implies grounding::within_budget(leaf) by {
            lemma_asserted_leaves(expr, leaf);
            lemma_asserted_is_smaller(expr, leaf);
        }
    }
    assert forall|j: int|
        0 <= j < grounding::head_args(clause.head).len() implies grounding::within_budget(
        #[trigger] grounding::head_args(clause.head)[j],
    ) by {}
}

/// A clause without large terms is grounded exactly where it has premises and they
/// leave no choice for its variables.
pub proof fn law_small_clauses_without_choice_are_grounded(clause: ClauseModel)
    requires
        is_small(clause),
    ensures
        grounding::clause_grounded(clause) <==> clause.atoms.len() > 0 && leaves_no_choice(clause),
{
    lemma_grounded_without_choice(clause);
    lemma_small_within_budget(clause);
}

proof fn lemma_chain_is_held(
    clause: ClauseModel,
    chain: Seq<VarModel>,
    known: Set<VarModel>,
    i: int,
)
    requires
        forall|j: int| 0 <= j < chain.len() ==> #[trigger] follows_earlier(clause, chain, j),
        determined(clause, known),
        0 <= i < chain.len(),
    ensures
        known.contains(chain[i]),
    decreases i,
{
    assert(follows_earlier(clause, chain, i));
    if !in_premises(clause, chain[i]) {
        let term = choose|term: ExprModel| #[trigger]
            equates(clause, chain[i], term) && forall|own: VarModel| #[trigger]
                terms::occurs(own, term) ==> exists|j: int|
                    0 <= j < i && #[trigger] chain[j] == own;
        assert forall|own: VarModel| #[trigger] terms::occurs(own, term) implies known.contains(
            own,
        ) by {
            let j = choose|j: int| 0 <= j < i && #[trigger] chain[j] == own;
            lemma_chain_is_held(clause, chain, known, j);
        }
        assert(equates(clause, chain[i], term));
    }
}

/// A clause with premises is grounded whenever its variables can be listed so that
/// each stands in a premise or is equated, on either side, with a term over those
/// before it.
pub proof fn law_chained_variables_are_grounded(clause: ClauseModel, chain: Seq<VarModel>)
    requires
        is_small(clause),
        clause.atoms.len() > 0,
        forall|i: int| 0 <= i < chain.len() ==> #[trigger] follows_earlier(clause, chain, i),
        forall|var: VarModel| #[trigger] in_clause(clause, var) ==> chain.contains(var),
    ensures
        grounding::clause_grounded(clause),
{
    assert forall|known: Set<VarModel>, var: VarModel|
        #![trigger determined(clause, known), in_clause(clause, var)]
        determined(clause, known) && in_clause(clause, var) implies known.contains(var) by {
        let i = choose|i: int| 0 <= i < chain.len() && chain[i] == var;
        lemma_chain_is_held(clause, chain, known, i);
    }
    law_small_clauses_without_choice_are_grounded(clause);
}

/// Whether a term is another with the sides of some of its equalities exchanged.
pub open spec fn exchanged(left: ExprModel, right: ExprModel) -> bool
    decreases left,
{
    match (left, right) {
        (ExprModel::Op(op, xs), ExprModel::Op(other, ys)) => op == other && xs.len() == ys.len()
            && {
            ||| forall|i: int| 0 <= i < xs.len() ==> exchanged(#[trigger] xs[i], ys[i])
            ||| op == ChcOp::Eq && xs.len() == 2 && exchanged(xs[0], ys[1]) && exchanged(
                xs[1],
                ys[0],
            )
        },
        _ => left == right,
    }
}

proof fn lemma_exchanged_back(left: ExprModel, right: ExprModel)
    requires
        exchanged(left, right),
    ensures
        exchanged(right, left),
    decreases left,
{
    if let ExprModel::Op(op, xs) = left {
        let ys = right->Op_1;
        if forall|i: int| 0 <= i < xs.len() ==> exchanged(#[trigger] xs[i], ys[i]) {
            assert forall|i: int| 0 <= i < ys.len() implies exchanged(#[trigger] ys[i], xs[i]) by {
                assert(exchanged(xs[i], ys[i]));
                lemma_exchanged_back(xs[i], ys[i]);
            }
        } else {
            lemma_exchanged_back(xs[0], ys[1]);
            lemma_exchanged_back(xs[1], ys[0]);
        }
    }
}

proof fn lemma_two_nodes(exprs: Seq<ExprModel>)
    requires
        exprs.len() == 2,
    ensures
        terms::total_nodes(exprs) == terms::node_count(exprs[0]) + terms::node_count(exprs[1]),
{
    let front = exprs.drop_last();
    assert(front.drop_last().len() == 0);
    assert(terms::total_nodes(front.drop_last()) == 0);
    assert(terms::total_nodes(front) == terms::node_count(exprs[0]));
}

proof fn lemma_exchanged_nodes(left: ExprModel, right: ExprModel)
    requires
        exchanged(left, right),
    ensures
        terms::node_count(left) == terms::node_count(right),
    decreases left, 1nat,
{
    if let ExprModel::Op(op, xs) = left {
        let ys = right->Op_1;
        if forall|i: int| 0 <= i < xs.len() ==> exchanged(#[trigger] xs[i], ys[i]) {
            lemma_exchanged_total(xs, ys);
        } else {
            lemma_exchanged_nodes(xs[0], ys[1]);
            lemma_exchanged_nodes(xs[1], ys[0]);
            lemma_two_nodes(xs);
            lemma_two_nodes(ys);
        }
    }
}

proof fn lemma_exchanged_total(xs: Seq<ExprModel>, ys: Seq<ExprModel>)
    requires
        xs.len() == ys.len(),
        forall|i: int| 0 <= i < xs.len() ==> exchanged(#[trigger] xs[i], ys[i]),
    ensures
        terms::total_nodes(xs) == terms::total_nodes(ys),
    decreases xs, 0nat,
{
    if xs.len() > 0 {
        let front = xs.drop_last();
        let other = ys.drop_last();
        assert forall|i: int| 0 <= i < front.len() implies exchanged(
            #[trigger] front[i],
            other[i],
        ) by {
            assert(exchanged(xs[i], ys[i]));
        }
        lemma_exchanged_total(front, other);
        assert(exchanged(xs[xs.len() - 1], ys[xs.len() - 1]));
        lemma_exchanged_nodes(xs[xs.len() - 1], ys[xs.len() - 1]);
    }
}

proof fn lemma_exchanged_occurs(left: ExprModel, right: ExprModel, var: VarModel)
    requires
        exchanged(left, right),
        terms::occurs(var, left),
    ensures
        terms::occurs(var, right),
    decreases left,
{
    if let ExprModel::Op(op, xs) = left {
        let ys = right->Op_1;
        assert(terms::occurs_in_any(var, xs));
        let i = choose|i: int| 0 <= i < xs.len() && terms::occurs(var, #[trigger] xs[i]);
        if forall|i: int| 0 <= i < xs.len() ==> exchanged(#[trigger] xs[i], ys[i]) {
            lemma_exchanged_occurs(xs[i], ys[i], var);
            assert(terms::occurs_in_any(var, ys));
        } else {
            assert(exchanged(xs[i], ys[1 - i]));
            lemma_exchanged_occurs(xs[i], ys[1 - i], var);
            assert(terms::occurs_in_any(var, ys));
        }
    }
}

proof fn lemma_exchanged_asserts(left: ExprModel, right: ExprModel, leaf: ExprModel) -> (other:
    ExprModel)
    requires
        exchanged(left, right),
        asserts(left, leaf),
    ensures
        asserts(right, other),
        exchanged(leaf, other),
    decreases left,
{
    if let ExprModel::Op(ChcOp::And, xs) = left {
        let ys = right->Op_1;
        let i = choose|i: int| 0 <= i < xs.len() && asserts(#[trigger] xs[i], leaf);
        let other = lemma_exchanged_asserts(xs[i], ys[i], leaf);
        assert(asserts(ys[i], other));
        other
    } else {
        right
    }
}

proof fn lemma_exchanged_flattens(
    one: Seq<ExprModel>,
    two: Seq<ExprModel>,
    found: Seq<ExprModel>,
    other: Seq<ExprModel>,
)
    requires
        one.len() == two.len(),
        forall|i: int| 0 <= i < one.len() ==> exchanged(#[trigger] one[i], two[i]),
        found.len() == other.len(),
    ensures
        grounding::flattened(one, found) is Some <==> grounding::flattened(two, other) is Some,
    decreases terms::total_nodes(one),
{
    if one.len() > 0 {
        grounding::lemma_flatten_decreases(one);
        grounding::lemma_flatten_decreases(two);
        let node = one[one.len() - 1];
        let twin = two[one.len() - 1];
        assert(exchanged(node, twin));
        let rest = one.drop_last();
        let left = two.drop_last();
        assert forall|i: int| 0 <= i < rest.len() implies exchanged(#[trigger] rest[i], left[i]) by {
            assert(exchanged(one[i], two[i]));
        }
        if node is Op && node->Op_0 is And {
            let xs = node->Op_1;
            let ys = twin->Op_1;
            let more = rest + xs;
            let same = left + ys;
            assert forall|i: int| 0 <= i < more.len() implies exchanged(
                #[trigger] more[i],
                same[i],
            ) by {
                if i < rest.len() {
                    assert(exchanged(rest[i], left[i]));
                } else {
                    assert(exchanged(xs[i - rest.len()], ys[i - rest.len()]));
                }
            }
            lemma_exchanged_flattens(more, same, found, other);
        } else {
            lemma_exchanged_flattens(rest, left, found.push(node), other.push(twin));
        }
    }
}

/// Whether a clause is another with the sides of some of the equalities of its
/// constraint exchanged.
pub open spec fn exchanged_clause(left: ClauseModel, right: ClauseModel) -> bool {
    &&& left.atoms == right.atoms
    &&& left.head == right.head
    &&& match (left.constraint, right.constraint) {
        (Some(one), Some(two)) => exchanged(one, two),
        (one, two) => one is None && two is None,
    }
}

proof fn lemma_exchanged_determines(left: ClauseModel, right: ClauseModel, known: Set<VarModel>)
    requires
        exchanged_clause(left, right),
        determined(right, known),
    ensures
        determined(left, known),
{
    assert forall|var: VarModel| #[trigger] in_premises(left, var) implies known.contains(var) by {
        let (i, j) = choose|i: int, j: int|
            0 <= i < left.atoms.len() && 0 <= j < left.atoms[i].args.len() && terms::occurs(
                var,
                #[trigger] left.atoms[i].args[j],
            );
        assert(terms::occurs(var, right.atoms[i].args[j]));
        assert(in_premises(right, var));
    }
    assert forall|var: VarModel, term: ExprModel| #[trigger]
        equates(left, var, term) && (forall|own: VarModel| #[trigger]
            terms::occurs(own, term) ==> known.contains(own)) implies known.contains(var) by {
        let one = left.constraint->0;
        let two = right.constraint->0;
        let plain = ExprModel::Op(ChcOp::Eq, seq![ExprModel::Var(var), term]);
        let swapped = ExprModel::Op(ChcOp::Eq, seq![term, ExprModel::Var(var)]);
        let leaf = if asserts(one, plain) {
            plain
        } else {
            swapped
        };
        let other = lemma_exchanged_asserts(one, two, leaf);
        let xs = leaf->Op_1;
        let ys = other->Op_1;
        let v = if asserts(one, plain) {
            0int
        } else {
            1int
        };
        assert(xs[v] == ExprModel::Var(var) && xs[1 - v] == term);
        let straight = forall|i: int| 0 <= i < xs.len() ==> exchanged(#[trigger] xs[i], ys[i]);
        let w = if straight {
            v
        } else {
            1 - v
        };
        assert(exchanged(xs[v], ys[w]));
        assert(exchanged(xs[1 - v], ys[1 - w]));
        assert(ys[w] == ExprModel::Var(var));
        let own_term = ys[1 - w];
        if w == 0 {
            assert(ys =~= seq![ExprModel::Var(var), own_term]);
        } else {
            assert(ys =~= seq![own_term, ExprModel::Var(var)]);
        }
        assert(equates(right, var, own_term));
        assert forall|own: VarModel| #[trigger] terms::occurs(own, own_term) implies known.contains(
            own,
        ) by {
            lemma_exchanged_back(term, own_term);
            lemma_exchanged_occurs(own_term, term, own);
        }
    }
}

proof fn lemma_exchanged_clause_back(left: ClauseModel, right: ClauseModel)
    requires
        exchanged_clause(left, right),
    ensures
        exchanged_clause(right, left),
{
    if let Some(one) = left.constraint {
        lemma_exchanged_back(one, right.constraint->0);
    }
}

proof fn lemma_exchanged_grounded(left: ClauseModel, right: ClauseModel)
    requires
        exchanged_clause(left, right),
        grounding::clause_grounded(left),
    ensures
        grounding::clause_grounded(right),
{
    lemma_grounded_without_choice(left);
    lemma_grounded_without_choice(right);
    lemma_exchanged_clause_back(left, right);
    assert forall|known: Set<VarModel>, var: VarModel|
        #![trigger determined(right, known), in_clause(right, var)]
        determined(right, known) && in_clause(right, var) implies known.contains(var) by {
        lemma_exchanged_determines(left, right, known);
        if right.constraint matches Some(expr) && terms::occurs(var, expr) {
            lemma_exchanged_occurs(right.constraint->0, left.constraint->0, var);
        }
        assert(in_clause(left, var));
    }
    if let Some(two) = right.constraint {
        let one = left.constraint->0;
        lemma_exchanged_flattens(seq![one], seq![two], Seq::empty(), Seq::empty());
        assert forall|leaf: ExprModel| #[trigger]
            grounding::constraint_leaves(right.constraint).contains(
                leaf,
            ) implies grounding::within_budget(leaf) by {
            lemma_asserted_leaves(two, leaf);
            let other = lemma_exchanged_asserts(two, one, leaf);
            lemma_asserted_leaves(one, other);
            lemma_exchanged_nodes(leaf, other);
            assert(grounding::constraint_leaves(left.constraint).contains(other));
            assert(grounding::within_budget(other));
        }
    }
}

/// A clause is grounded exactly where it is with the sides of any of its equalities
/// exchanged.
pub proof fn law_exchanged_sides_are_grounded_alike(left: ClauseModel, right: ClauseModel)
    requires
        exchanged_clause(left, right),
    ensures
        grounding::clause_grounded(left) <==> grounding::clause_grounded(right),
{
    lemma_exchanged_clause_back(left, right);
    if grounding::clause_grounded(left) {
        lemma_exchanged_grounded(left, right);
    }
    if grounding::clause_grounded(right) {
        lemma_exchanged_grounded(right, left);
    }
}

/// Whether a problem is another with the sides of some of the equalities in its
/// constraints exchanged.
pub open spec fn exchanged_problem(left: ProblemModel, right: ProblemModel) -> bool {
    &&& left == (ProblemModel { clauses: left.clauses, ..right })
    &&& left.clauses.len() == right.clauses.len()
    &&& forall|i: int|
        0 <= i < left.clauses.len() ==> exchanged_clause(
            #[trigger] left.clauses[i],
            right.clauses[i],
        )
}

proof fn lemma_exchanged_problem_back(left: ProblemModel, right: ProblemModel)
    requires
        exchanged_problem(left, right),
    ensures
        exchanged_problem(right, left),
{
    assert forall|i: int| 0 <= i < right.clauses.len() implies exchanged_clause(
        #[trigger] right.clauses[i],
        left.clauses[i],
    ) by {
        assert(exchanged_clause(left.clauses[i], right.clauses[i]));
        lemma_exchanged_clause_back(left.clauses[i], right.clauses[i]);
    }
}

proof fn lemma_exchanged_depends(left: ProblemModel, right: ProblemModel, from: int, to: int)
    requires
        exchanged_problem(left, right),
        graph::depends(left, from, to),
    ensures
        graph::depends(right, from, to),
{
    let i = choose|i: int|
        0 <= i < left.clauses.len() && graph::clause_edge(#[trigger] left.clauses[i], from, to);
    assert(exchanged_clause(left.clauses[i], right.clauses[i]));
    assert(graph::clause_edge(right.clauses[i], from, to));
}

proof fn lemma_exchanged_unrolls(left: ProblemModel, right: ProblemModel, k: nat)
    requires
        exchanged_problem(left, right),
        unroll::unrolls(left, k),
    ensures
        unroll::unrolls(right, k),
{
    let walk = choose|walk: Seq<int>| #[trigger]
        graph::is_walk(left, walk) && walk.len() >= 2 && walk[0] == walk.last();
    assert forall|i: int| 0 <= i < walk.len() - 1 implies graph::depends(
        right,
        #[trigger] walk[i],
        walk[i + 1],
    ) by {
        lemma_exchanged_depends(left, right, walk[i], walk[i + 1]);
    }
    assert(graph::is_walk(right, walk));
    assert forall|i: int| 0 <= i < right.clauses.len() implies (
    #[trigger] right.clauses[i]).atoms.len() <= 1 by {
        assert(exchanged_clause(left.clauses[i], right.clauses[i]));
    }
    let at = choose|at: int| grounding::is_entry(left, at);
    assert forall|i: int| 0 <= i < right.clauses.len() implies (#[trigger] right.clauses[i]).atoms
        == left.clauses[i].atoms && right.clauses[i].head == left.clauses[i].head by {
        assert(exchanged_clause(left.clauses[i], right.clauses[i]));
    }
    if let Some(one) = left.clauses[at].constraint {
        lemma_exchanged_nodes(one, right.clauses[at].constraint->0);
    }
    assert(exchanged_clause(left.clauses[at], right.clauses[at]));
    assert(grounding::is_entry(right, at));
    assert forall|i: int|
        0 <= i < right.clauses.len() && !grounding::is_fact(
            #[trigger] right.clauses[i],
        ) implies grounding::clause_grounded(right.clauses[i]) by {
        assert(exchanged_clause(left.clauses[i], right.clauses[i]));
        assert(!grounding::is_fact(left.clauses[i]));
        lemma_exchanged_grounded(left.clauses[i], right.clauses[i]);
    }
    assert forall|i: int| 0 <= i < right.predicates.len() implies !text::contains(
        (#[trigger] right.predicates[i]).name,
        unroll::level_marker(),
    ) by {
        assert(left.predicates[i] == right.predicates[i]);
    }
}

/// A problem can be unrolled exactly where it can with the sides of any of its
/// equalities exchanged.
pub proof fn law_exchanged_sides_unroll_alike(left: ProblemModel, right: ProblemModel, k: nat)
    requires
        exchanged_problem(left, right),
    ensures
        unroll::unrolls(left, k) <==> unroll::unrolls(right, k),
{
    lemma_exchanged_problem_back(left, right);
    if unroll::unrolls(left, k) {
        lemma_exchanged_unrolls(left, right, k);
    }
    if unroll::unrolls(right, k) {
        lemma_exchanged_unrolls(right, left, k);
    }
}

/// Whether a clause has no premise and derives a predicate that no other clause of
/// the problem derives, and is the only one without a premise.
pub open spec fn only_root(problem: ProblemModel, at: int) -> bool {
    &&& 0 <= at < problem.clauses.len()
    &&& forall|i: int|
        0 <= i < problem.clauses.len() ==> ((#[trigger] problem.clauses[i]).atoms.len() == 0
            <==> i == at)
    &&& problem.clauses[at].head matches HeadModel::Predicate(root) && forall|i: int|
        0 <= i < problem.clauses.len() && i != at ==> !((
        #[trigger] problem.clauses[i]).head matches HeadModel::Predicate(other)
            && other.predicate.index == root.predicate.index)
}

/// A problem without large terms can be unrolled exactly where it has a cycle of
/// predicates, each derived from the one before it; it is a plain problem without
/// datatypes; no clause has two premises; no name carries the mark of copies; one
/// clause alone has no premise and derives a predicate that no other derives; the
/// premises of every other clause leave no choice for its variables; and the copies
/// are not too many.
pub proof fn law_unrolled_problems(problem: ProblemModel, k: nat)
    requires
        forall|i: int| 0 <= i < problem.clauses.len() ==> is_small(#[trigger] problem.clauses[i]),
    ensures
        unroll::unrolls(problem, k) <==> {
            &&& exists|walk: Seq<int>| #[trigger] is_loop(problem, walk)
            &&& forall|i: int|
                0 <= i < problem.clauses.len() ==> (#[trigger] problem.clauses[i]).atoms.len() <= 1
            &&& !problem.fixedpoint_format && !problem.stripped_body_forall
            &&& !problem.has_datatype_defs && !problem.has_action_decomposition
            &&& forall|i: int|
                0 <= i < problem.predicates.len() ==> !text::contains(
                    (#[trigger] problem.predicates[i]).name,
                    "__trust_mc_bmc_unroll_l"@,
                )
            &&& exists|at: int| #[trigger] only_root(problem, at)
            &&& forall|i: int|
                0 <= i < problem.clauses.len() && (#[trigger] problem.clauses[i]).atoms.len() > 0
                    ==> leaves_no_choice(problem.clauses[i])
            &&& problem.predicates.len() * (k + 1) <= 65_536
            &&& problem.clauses.len() * (k + 1) <= 262_144
        },
{
    assert forall|i: int|
        0 <= i < problem.clauses.len() implies (grounding::clause_grounded(
        #[trigger] problem.clauses[i],
    ) <==> problem.clauses[i].atoms.len() > 0 && leaves_no_choice(problem.clauses[i])) by {
        law_small_clauses_without_choice_are_grounded(problem.clauses[i]);
    }
    assert forall|at: int| only_root(problem, at) <==> grounding::is_entry(problem, at) by {
        if only_root(problem, at) || grounding::is_entry(problem, at) {
            assert(is_small(problem.clauses[at]));
            assert(problem.clauses[at].atoms.len() == 0);
            assert forall|i: int| 0 <= i < problem.clauses.len() implies (grounding::is_fact(
                #[trigger] problem.clauses[i],
            ) <==> problem.clauses[i].atoms.len() == 0) by {}
            if let HeadModel::Predicate(root) = problem.clauses[at].head {
                assert forall|i: int| 0 <= i < problem.clauses.len() implies (grounding::derives(
                    #[trigger] problem.clauses[i],
                    root.predicate.index as int,
                ) <==> (problem.clauses[i].head matches HeadModel::Predicate(other)
                    && other.predicate.index == root.predicate.index)) by {}
                assert forall|j: int|
                    0 <= j < grounding::head_args(
                        problem.clauses[at].head,
                    ).len() implies grounding::within_budget(
                    #[trigger] grounding::head_args(problem.clauses[at].head)[j],
                ) by {
                    assert(terms::node_count(root.args[j]) <= 200_000);
                }
            }
        }
    }
    if exists|at: int| #[trigger] only_root(problem, at) {
        let at = choose|at: int| #[trigger] only_root(problem, at);
        assert(grounding::is_entry(problem, at));
    }
    if exists|at: int| grounding::is_entry(problem, at) {
        let at = choose|at: int| grounding::is_entry(problem, at);
        assert(only_root(problem, at));
    }
    law_cycles_are_loops(problem);
}

/// A problem has a cycle exactly where predicates follow each other, each derived from
/// the one before it, back to the first.
pub proof fn law_cycles_are_loops(problem: ProblemModel)
    ensures
        graph::has_cycle(problem) <==> exists|walk: Seq<int>| #[trigger] is_loop(problem, walk),
{
    if graph::has_cycle(problem) {
        let walk = choose|walk: Seq<int>| #[trigger]
            graph::is_walk(problem, walk) && walk.len() >= 2 && walk[0] == walk.last();
        assert forall|i: int| 0 <= i < walk.len() - 1 implies derives_from(
            problem,
            #[trigger] walk[i],
            walk[i + 1],
        ) by {
            lemma_derives_from(problem, walk[i], walk[i + 1]);
        }
        assert(is_loop(problem, walk));
    }
    if exists|walk: Seq<int>| #[trigger] is_loop(problem, walk) {
        let walk = choose|walk: Seq<int>| #[trigger] is_loop(problem, walk);
        assert forall|i: int| 0 <= i < walk.len() - 1 implies graph::depends(
            problem,
            #[trigger] walk[i],
            walk[i + 1],
        ) by {
            lemma_derives_from(problem, walk[i], walk[i + 1]);
        }
        assert(graph::is_walk(problem, walk));
    }
}

/// Whether a clause derives one predicate from another.
pub open spec fn derives_from(problem: ProblemModel, from: int, to: int) -> bool {
    exists|i: int, j: int|
        0 <= i < problem.clauses.len() && 0 <= j < problem.clauses[i].atoms.len() && (
        #[trigger] problem.clauses[i].atoms[j]).predicate.index == from && (
        problem.clauses[i].head matches HeadModel::Predicate(head) && head.predicate.index == to)
}

/// Whether predicates follow each other, each derived from the one before it, back
/// to the first.
pub open spec fn is_loop(problem: ProblemModel, walk: Seq<int>) -> bool {
    &&& walk.len() >= 2
    &&& walk[0] == walk[walk.len() - 1]
    &&& forall|i: int|
        0 <= i < walk.len() - 1 ==> derives_from(problem, #[trigger] walk[i], walk[i + 1])
}

proof fn lemma_derives_from(problem: ProblemModel, from: int, to: int)
    ensures
        graph::depends(problem, from, to) <==> derives_from(problem, from, to),
{
    if graph::depends(problem, from, to) {
        let i = choose|i: int|
            0 <= i < problem.clauses.len() && graph::clause_edge(
                #[trigger] problem.clauses[i],
                from,
                to,
            );
        let j = choose|j: int|
            0 <= j < problem.clauses[i].atoms.len() && (
            #[trigger] problem.clauses[i].atoms[j]).predicate.index == from;
        assert(problem.clauses[i].atoms[j].predicate.index == from);
    }
    if derives_from(problem, from, to) {
        let (i, j) = choose|i: int, j: int|
            0 <= i < problem.clauses.len() && 0 <= j < problem.clauses[i].atoms.len() && (
            #[trigger] problem.clauses[i].atoms[j]).predicate.index == from && (
            problem.clauses[i].head matches HeadModel::Predicate(head) && head.predicate.index
                == to);
        assert(graph::clause_edge(problem.clauses[i], from, to));
    }
}

/// A problem that unrolls to some steps unrolls to fewer.
pub proof fn law_fewer_steps_unroll_too(problem: ProblemModel, k: nat, fewer: nat)
    requires
        unroll::unrolls(problem, k),
        fewer <= k,
    ensures
        unroll::unrolls(problem, fewer),
{
    let p = problem.predicates.len();
    let c = problem.clauses.len();
    assert(p * (fewer + 1) <= p * (k + 1)) by (nonlinear_arith)
        requires
            fewer <= k,
            p >= 0,
    ;
    assert(c * (fewer + 1) <= c * (k + 1)) by (nonlinear_arith)
        requires
            fewer <= k,
            c >= 0,
    ;
}

} // verus!
