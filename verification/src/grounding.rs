//! Groundedness of Horn clauses.
//!
//! A variable of a clause is grounded where the premise predicates or a chain of
//! defining equalities fix its value. A clause with another variable may be
//! satisfied by a value that nothing produces, so it must not back a refutation.
use std::sync::Arc;

use vstd::prelude::*;

use crate::bridge_laws;
use crate::chc;
use crate::chc::{
    AtomModel, ChcExpr, ChcOp, ChcProblem, ChcVar, ClauseHead, ClauseModel, ExprModel,
    HeadModel, HornClause, PredicateAtom, ProblemModel, VarModel,
};
use crate::semantics;
use crate::semantics::{Env, Interpretation};
use crate::shared::share;
use crate::terms;
use crate::terms::{add_var, holds_var};

verus! {

/// Nodes that one walk over a term visits at most.
pub const GROUNDING_NODE_BUDGET: usize = 200_000;

/// Whether a term is small enough to list its variables.
pub open spec fn within_budget(expr: ExprModel) -> bool {
    terms::node_count(expr) <= GROUNDING_NODE_BUDGET
}

/// Whether all of several terms are small enough.
pub open spec fn all_within_budget(exprs: Seq<ExprModel>) -> bool {
    forall|i: int| 0 <= i < exprs.len() ==> within_budget(#[trigger] exprs[i])
}

/// Adds terms to a stack.
fn push_all(stack: &mut Vec<Arc<ChcExpr>>, args: &Vec<Arc<ChcExpr>>)
    ensures
        final(stack)@ == old(stack)@ + args@,
        chc::terms_model(final(stack)@) == chc::terms_model(old(stack)@) + chc::terms_model(args@),
{
    for i in 0..args.len()
        invariant
            stack@ == old(stack)@ + args@.take(i as int),
    {
        stack.push(share(&args[i]));
    }
    assert(args@.take(args@.len() as int) =~= args@);
    assert(chc::terms_model(stack@) =~= chc::terms_model(old(stack)@) + chc::terms_model(args@));
}

proof fn lemma_occurs_split(var: VarModel, left: Seq<ExprModel>, right: Seq<ExprModel>)
    ensures
        terms::occurs_in_any(var, left + right) <==> terms::occurs_in_any(var, left)
            || terms::occurs_in_any(var, right),
{
    let all = left + right;
    if terms::occurs_in_any(var, left) {
        let i = choose|i: int| 0 <= i < left.len() && terms::occurs(var, #[trigger] left[i]);
        assert(terms::occurs(var, all[i]));
    }
    if terms::occurs_in_any(var, right) {
        let i = choose|i: int| 0 <= i < right.len() && terms::occurs(var, #[trigger] right[i]);
        assert(terms::occurs(var, all[left.len() + i]));
    }
    if terms::occurs_in_any(var, all) {
        let i = choose|i: int| 0 <= i < all.len() && terms::occurs(var, #[trigger] all[i]);
        if i < left.len() {
            assert(terms::occurs(var, left[i]));
        } else {
            assert(terms::occurs(var, right[i - left.len()]));
        }
    }
}

proof fn lemma_occurs_single(var: VarModel, expr: ExprModel)
    ensures
        terms::occurs_in_any(var, seq![expr]) <==> terms::occurs(var, expr),
{
    assert(seq![expr][0] == expr);
}

proof fn lemma_total_single(expr: ExprModel)
    ensures
        terms::total_nodes(seq![expr]) == terms::node_count(expr),
{
    assert(seq![expr].drop_last() =~= Seq::empty());
    assert(terms::total_nodes(seq![expr].drop_last()) == 0);
}

/// The stack without its last term.
proof fn lemma_stack_rest(stack: Seq<Arc<ChcExpr>>)
    requires
        stack.len() > 0,
    ensures
        chc::terms_model(stack) == chc::terms_model(stack.drop_last()) + seq![stack.last()@],
        terms::total_nodes(chc::terms_model(stack)) == terms::total_nodes(
            chc::terms_model(stack.drop_last()),
        ) + terms::node_count(stack.last()@),
        forall|var: VarModel| #[trigger]
            terms::occurs_in_any(var, chc::terms_model(stack)) <==> terms::occurs_in_any(
                var,
                chc::terms_model(stack.drop_last()),
            ) || terms::occurs(var, stack.last()@),
{
    let rest = chc::terms_model(stack.drop_last());
    let top = seq![stack.last()@];
    assert(chc::terms_model(stack) =~= rest + top);
    terms::lemma_total_nodes_concat(rest, top);
    lemma_total_single(stack.last()@);
    assert forall|var: VarModel| #[trigger] terms::occurs_in_any(
        var,
        chc::terms_model(stack),
    ) <==> terms::occurs_in_any(var, rest) || terms::occurs(var, stack.last()@) by {
        lemma_occurs_split(var, rest, top);
        lemma_occurs_single(var, stack.last()@);
    }
}

/// Lists the variables of a term, unless it is too large.
pub fn collect_expr_vars(expr: &Arc<ChcExpr>) -> (listed: Option<Vec<ChcVar>>)
    ensures
        match listed {
            Some(vars) => within_budget(expr@) && forall|var: VarModel| #[trigger]
                terms::var_set(vars@).contains(var) <==> terms::occurs(var, expr@),
            None => !within_budget(expr@),
        },
{
    let mut vars: Vec<ChcVar> = Vec::new();
    let mut visited: usize = 0;
    let mut pending: Vec<Arc<ChcExpr>> = Vec::new();
    pending.push(share(expr));
    proof {
        lemma_stack_rest(pending@);
        assert(pending@.drop_last() =~= Seq::empty());
        assert(chc::terms_model(pending@.drop_last()) =~= Seq::empty());
    }
    while pending.len() > 0
        invariant
            visited <= GROUNDING_NODE_BUDGET,
            visited + terms::total_nodes(chc::terms_model(pending@)) == terms::node_count(expr@),
            forall|var: VarModel|
                #![trigger terms::var_set(vars@).contains(var)]
                #![trigger terms::occurs(var, expr@)]
                terms::var_set(vars@).contains(var) || terms::occurs_in_any(
                    var,
                    chc::terms_model(pending@),
                ) <==> terms::occurs(var, expr@),
        decreases terms::total_nodes(chc::terms_model(pending@)),
    {
        proof {
            lemma_stack_rest(pending@);
            terms::lemma_node_count_positive(pending@.last()@);
        }
        let ghost before = pending@;
        let node = pending.pop().unwrap();
        if visited == GROUNDING_NODE_BUDGET {
            return None;
        }
        visited = visited + 1;
        let ghost rest = pending@;
        let ghost known = vars@;
        match &*node {
            ChcExpr::Var(var) => {
                add_var(&mut vars, var);
            },
            ChcExpr::Op(_, args) => {
                push_all(&mut pending, args);
                proof {
                    lemma_extended(rest, args@);
                }
            },
            ChcExpr::PredicateApp(_, _, args) => {
                push_all(&mut pending, args);
                proof {
                    lemma_extended(rest, args@);
                }
            },
            ChcExpr::FuncApp(_, _, args) => {
                push_all(&mut pending, args);
                proof {
                    lemma_extended(rest, args@);
                }
            },
            ChcExpr::ConstArray(_, value) => {
                pending.push(share(value));
                proof {
                    assert(pending@.drop_last() =~= rest);
                    lemma_stack_rest(pending@);
                }
            },
            _ => {},
        }
        assert forall|var: VarModel|
            #![trigger terms::var_set(vars@).contains(var)]
            #![trigger terms::occurs(var, expr@)]
            terms::var_set(vars@).contains(var) || terms::occurs_in_any(
                var,
                chc::terms_model(pending@),
            ) <==> terms::occurs(var, expr@) by {
            assert(terms::var_set(known).contains(var) || terms::occurs_in_any(
                var,
                chc::terms_model(before),
            ) <==> terms::occurs(var, expr@));
            assert(terms::occurs_in_any(var, chc::terms_model(before)) <==> terms::occurs_in_any(
                var,
                chc::terms_model(rest),
            ) || terms::occurs(var, node@));
        }
    }
    assert(chc::terms_model(pending@) =~= Seq::empty());
    Some(vars)
}

proof fn lemma_extended(rest: Seq<Arc<ChcExpr>>, args: Seq<Arc<ChcExpr>>)
    ensures
        terms::total_nodes(chc::terms_model(rest) + chc::terms_model(args)) == terms::total_nodes(
            chc::terms_model(rest),
        ) + terms::total_nodes(chc::terms_model(args)),
        forall|var: VarModel| #[trigger]
            terms::occurs_in_any(var, chc::terms_model(rest) + chc::terms_model(args))
                <==> terms::occurs_in_any(var, chc::terms_model(rest)) || terms::occurs_in_any(
                var,
                chc::terms_model(args),
            ),
{
    terms::lemma_total_nodes_concat(chc::terms_model(rest), chc::terms_model(args));
    assert forall|var: VarModel| #[trigger] terms::occurs_in_any(
        var,
        chc::terms_model(rest) + chc::terms_model(args),
    ) <==> terms::occurs_in_any(var, chc::terms_model(rest)) || terms::occurs_in_any(
        var,
        chc::terms_model(args),
    ) by {
        lemma_occurs_split(var, chc::terms_model(rest), chc::terms_model(args));
    }
}

/// The conjunct leaves of the terms on a stack, worked off from its end; `None`
/// where leaves and waiting terms together exceed the budget on the way.
pub open spec fn flattened(pending: Seq<ExprModel>, found: Seq<ExprModel>) -> Option<Seq<ExprModel>>
    decreases terms::total_nodes(pending),
{
    if pending.len() == 0 {
        Some(found)
    } else {
        let node = pending.last();
        let rest = pending.drop_last();
        proof {
            lemma_flatten_decreases(pending);
        }
        if found.len() + rest.len() > GROUNDING_NODE_BUDGET {
            None
        } else if node is Op && node->Op_0 is And {
            flattened(rest + node->Op_1, found)
        } else {
            flattened(rest, found.push(node))
        }
    }
}

/// Working off the last term of a stack leaves fewer nodes.
pub proof fn lemma_flatten_decreases(pending: Seq<ExprModel>)
    requires
        pending.len() > 0,
    ensures
        terms::total_nodes(pending.drop_last()) < terms::total_nodes(pending),
        pending.last() is Op ==> terms::total_nodes(pending.drop_last() + pending.last()->Op_1)
            < terms::total_nodes(pending),
{
    terms::lemma_node_count_positive(pending.last());
    if pending.last() is Op {
        terms::lemma_total_nodes_concat(pending.drop_last(), pending.last()->Op_1);
    }
}

/// Whether a term is a conjunct leaf of one of several terms.
pub open spec fn is_leaf_of_any(leaf: ExprModel, exprs: Seq<ExprModel>) -> bool {
    terms::all_conjunct_leaves(exprs).contains(leaf)
}

proof fn lemma_leaves_split(leaf: ExprModel, left: Seq<ExprModel>, right: Seq<ExprModel>)
    ensures
        is_leaf_of_any(leaf, left + right) <==> is_leaf_of_any(leaf, left) || is_leaf_of_any(
            leaf,
            right,
        ),
{
    terms::lemma_leaves_concat(left, right);
    let l = terms::all_conjunct_leaves(left);
    let r = terms::all_conjunct_leaves(right);
    let all = l + r;
    if l.contains(leaf) {
        let i = choose|i: int| 0 <= i < l.len() && l[i] == leaf;
        assert(all[i] == leaf);
    }
    if r.contains(leaf) {
        let i = choose|i: int| 0 <= i < r.len() && r[i] == leaf;
        assert(all[l.len() + i] == leaf);
    }
    if all.contains(leaf) {
        let i = choose|i: int| 0 <= i < all.len() && all[i] == leaf;
        if i < l.len() {
            assert(l[i] == leaf);
        } else {
            assert(r[i - l.len()] == leaf);
        }
    }
}

/// Flattening gives the conjunct leaves, in some order.
proof fn lemma_flattened_leaves(pending: Seq<ExprModel>, found: Seq<ExprModel>, leaf: ExprModel)
    requires
        flattened(pending, found) is Some,
    ensures
        flattened(pending, found)->0.contains(leaf) <==> found.contains(leaf) || is_leaf_of_any(
            leaf,
            pending,
        ),
    decreases terms::total_nodes(pending),
{
    if pending.len() > 0 {
        let node = pending.last();
        let rest = pending.drop_last();
        lemma_flatten_decreases(pending);
        assert(pending =~= rest + seq![node]);
        lemma_leaves_split(leaf, rest, seq![node]);
        assert(seq![node].drop_last() =~= Seq::empty());
        assert(terms::all_conjunct_leaves(seq![node].drop_last()) =~= Seq::empty());
        assert(terms::all_conjunct_leaves(seq![node]) =~= terms::conjunct_leaves(node));
        if node is Op && node->Op_0 is And {
            lemma_flattened_leaves(rest + node->Op_1, found, leaf);
            lemma_leaves_split(leaf, rest, node->Op_1);
        } else {
            lemma_flattened_leaves(rest, found.push(node), leaf);
            assert(terms::conjunct_leaves(node) == seq![node]);
            assert(seq![node].contains(leaf) <==> leaf == node) by {
                assert(seq![node][0] == node);
            }
            assert(found.push(node).contains(leaf) <==> found.contains(leaf) || leaf == node) by {
                assert(found.push(node).last() == node);
                if found.contains(leaf) {
                    let i = choose|i: int| 0 <= i < found.len() && found[i] == leaf;
                    assert(found.push(node)[i] == leaf);
                }
                if found.push(node).contains(leaf) && leaf != node {
                    let i = choose|i: int| 0 <= i < found.push(node).len() && found.push(node)[i]
                        == leaf;
                    assert(found[i] == leaf);
                }
            }
        }
    }
}

/// The conjunct leaves of a clause constraint.
pub open spec fn constraint_leaves(constraint: Option<ExprModel>) -> Seq<ExprModel> {
    match constraint {
        Some(expr) => terms::conjunct_leaves(expr),
        None => Seq::empty(),
    }
}

/// Whether the constraint of a clause flattens within the budget.
pub open spec fn flattens(constraint: Option<ExprModel>) -> bool {
    match constraint {
        Some(expr) => flattened(seq![expr], Seq::empty()) is Some,
        None => true,
    }
}

/// The conjunct leaves of a clause constraint, in some order, unless it is too
/// large.
fn flatten_conjuncts(constraint: &Option<Arc<ChcExpr>>) -> (leaves: Option<Vec<Arc<ChcExpr>>>)
    ensures
        match leaves {
            Some(own) => flattens(chc::option_model(*constraint)) && forall|leaf: ExprModel|
                #[trigger]
                chc::terms_model(own@).contains(leaf) <==> constraint_leaves(
                    chc::option_model(*constraint),
                ).contains(leaf),
            None => !flattens(chc::option_model(*constraint)),
        },
{
    let mut found: Vec<Arc<ChcExpr>> = Vec::new();
    let root = match constraint {
        Some(root) => root,
        None => {
            assert(chc::terms_model(found@) =~= Seq::empty());
            return Some(found);
        },
    };
    let mut pending: Vec<Arc<ChcExpr>> = Vec::new();
    pending.push(share(root));
    proof {
        assert(chc::terms_model(pending@) =~= seq![root@]);
        assert(chc::terms_model(found@) =~= Seq::empty());
    }
    while pending.len() > 0
        invariant
            flattened(chc::terms_model(pending@), chc::terms_model(found@)) == flattened(
                seq![root@],
                Seq::empty(),
            ),
            *constraint == Some(*root),
        decreases terms::total_nodes(chc::terms_model(pending@)),
    {
        let ghost before = chc::terms_model(pending@);
        let ghost known = chc::terms_model(found@);
        let ghost stack = pending@;
        proof {
            lemma_flatten_decreases(before);
        }
        let node = pending.pop().unwrap();
        let ghost rest = chc::terms_model(pending@);
        proof {
            assert(before.drop_last() =~= rest);
            assert(before.last() == node@);
            assert(known.len() == found@.len());
            assert(rest.len() == pending@.len());
        }
        if pending.len() > GROUNDING_NODE_BUDGET || found.len() > GROUNDING_NODE_BUDGET
            - pending.len() {
            return None;
        }
        match &*node {
            ChcExpr::Op(ChcOp::And, args) => {
                push_all(&mut pending, args);
            },
            _ => {
                found.push(share(&node));
                assert(chc::terms_model(found@) =~= known.push(node@));
            },
        }
    }
    proof {
        assert(chc::terms_model(pending@) =~= Seq::empty());
        let own = chc::terms_model(found@);
        assert forall|leaf: ExprModel| #[trigger] own.contains(leaf) <==> constraint_leaves(
            Some(root@),
        ).contains(leaf) by {
            lemma_flattened_leaves(seq![root@], Seq::empty(), leaf);
            assert(seq![root@].drop_last() =~= Seq::empty());
            assert(terms::all_conjunct_leaves(seq![root@].drop_last()) =~= Seq::empty());
            assert(terms::all_conjunct_leaves(seq![root@]) =~= terms::conjunct_leaves(root@));
        }
    }
    Some(found)
}

/// Whether every variable of a term belongs to a set.
pub open spec fn vars_within(expr: ExprModel, vars: Set<VarModel>) -> bool {
    forall|var: VarModel| #[trigger] terms::occurs(var, expr) ==> vars.contains(var)
}

/// Whether an equality defines a variable by a term over the given variables.
pub open spec fn defines(leaf: ExprModel, var: VarModel, known: Set<VarModel>) -> bool {
    &&& leaf matches ExprModel::Op(ChcOp::Eq, args)
    &&& args.len() == 2
    &&& {
        ||| args[0] == ExprModel::Var(var) && vars_within(args[1], known)
        ||| args[1] == ExprModel::Var(var) && vars_within(args[0], known)
    }
}

/// The variables that the arguments of the premises fix.
pub open spec fn premise_vars(atoms: Seq<AtomModel>) -> Set<VarModel> {
    Set::new(
        |var: VarModel|
            exists|i: int|
                0 <= i < atoms.len() && terms::occurs_in_any(var, (#[trigger] atoms[i]).args),
    )
}

/// The variables that are fixed after a number of rounds of defining equalities.
pub open spec fn fixed_after(
    seeds: Set<VarModel>,
    leaves: Seq<ExprModel>,
    rounds: nat,
) -> Set<VarModel>
    decreases rounds,
{
    if rounds == 0 {
        seeds
    } else {
        let known = fixed_after(seeds, leaves, (rounds - 1) as nat);
        Set::new(
            |var: VarModel|
                known.contains(var) || exists|leaf: ExprModel| #[trigger]
                    leaves.contains(leaf) && defines(leaf, var, known),
        )
    }
}

/// Whether a variable is fixed by the premises and the defining equalities.
pub open spec fn is_fixed(seeds: Set<VarModel>, leaves: Seq<ExprModel>, var: VarModel) -> bool {
    exists|rounds: nat| #[trigger] fixed_after(seeds, leaves, rounds).contains(var)
}

/// The arguments of a clause head.
pub open spec fn head_args(head: HeadModel) -> Seq<ExprModel> {
    match head {
        HeadModel::False => Seq::empty(),
        HeadModel::Predicate(atom) => atom.args,
    }
}

/// Whether every term of a clause is small enough to walk.
pub open spec fn clause_within_budget(clause: ClauseModel) -> bool {
    &&& forall|i: int|
        0 <= i < clause.atoms.len() ==> all_within_budget((#[trigger] clause.atoms[i]).args)
    &&& flattens(clause.constraint)
    &&& forall|leaf: ExprModel| #[trigger]
        constraint_leaves(clause.constraint).contains(leaf) ==> within_budget(leaf)
    &&& all_within_budget(head_args(clause.head))
}

/// Whether a clause has premises and every variable of it is fixed by them and
/// the defining equalities.
pub open spec fn clause_grounded(clause: ClauseModel) -> bool {
    let seeds = premise_vars(clause.atoms);
    let leaves = constraint_leaves(clause.constraint);
    &&& clause.atoms.len() > 0
    &&& clause_within_budget(clause)
    &&& forall|leaf: ExprModel, var: VarModel|
        #![trigger leaves.contains(leaf), terms::occurs(var, leaf)]
        leaves.contains(leaf) && terms::occurs(var, leaf) ==> is_fixed(seeds, leaves, var)
    &&& forall|var: VarModel| #[trigger]
        terms::occurs_in_any(var, head_args(clause.head)) ==> is_fixed(seeds, leaves, var)
}

/// Rounds only add variables.
proof fn lemma_fixed_grows(seeds: Set<VarModel>, leaves: Seq<ExprModel>, rounds: nat)
    ensures
        fixed_after(seeds, leaves, rounds).subset_of(fixed_after(seeds, leaves, rounds + 1)),
{
}

/// A set that holds the seeds and is closed under the defining equalities holds
/// every fixed variable.
proof fn lemma_closed_holds_fixed(
    seeds: Set<VarModel>,
    leaves: Seq<ExprModel>,
    known: Set<VarModel>,
    rounds: nat,
)
    requires
        seeds.subset_of(known),
        forall|leaf: ExprModel, var: VarModel| #[trigger]
            defines(leaf, var, known) && leaves.contains(leaf) ==> known.contains(var),
    ensures
        fixed_after(seeds, leaves, rounds).subset_of(known),
    decreases rounds,
{
    if rounds > 0 {
        let before = fixed_after(seeds, leaves, (rounds - 1) as nat);
        lemma_closed_holds_fixed(seeds, leaves, known, (rounds - 1) as nat);
        assert forall|var: VarModel| fixed_after(seeds, leaves, rounds).contains(
            var,
        ) implies known.contains(var) by {
            if !before.contains(var) {
                let leaf = choose|leaf: ExprModel| #[trigger]
                    leaves.contains(leaf) && defines(leaf, var, before);
                assert(defines(leaf, var, known));
            }
        }
    }
}

/// Whether a term is a variable outside a set.
spec fn is_open(expr: ExprModel, known: Set<VarModel>) -> bool {
    expr matches ExprModel::Var(var) && !known.contains(var)
}

/// Number of equality sides that are variables outside a set.
spec fn open_sides(leaves: Seq<ExprModel>, known: Set<VarModel>) -> nat
    decreases leaves.len(),
{
    if leaves.len() == 0 {
        0
    } else {
        open_sides(leaves.drop_last(), known) + leaf_open_sides(leaves.last(), known)
    }
}

spec fn leaf_open_sides(leaf: ExprModel, known: Set<VarModel>) -> nat {
    match leaf {
        ExprModel::Op(ChcOp::Eq, args) if args.len() == 2 => (if is_open(args[0], known) {
            1nat
        } else {
            0nat
        }) + (if is_open(args[1], known) {
            1nat
        } else {
            0nat
        }),
        _ => 0,
    }
}

proof fn lemma_open_sides_shrink(
    leaves: Seq<ExprModel>,
    known: Set<VarModel>,
    more: Set<VarModel>,
    at: int,
)
    requires
        known.subset_of(more),
    ensures
        open_sides(leaves, more) <= open_sides(leaves, known),
        0 <= at < leaves.len() && leaf_open_sides(leaves[at], more) < leaf_open_sides(
            leaves[at],
            known,
        ) ==> open_sides(leaves, more) < open_sides(leaves, known),
    decreases leaves.len(),
{
    if leaves.len() > 0 {
        lemma_open_sides_shrink(leaves.drop_last(), known, more, at);
        if at < leaves.len() - 1 {
            assert(0 <= at ==> leaves.drop_last()[at] == leaves[at]);
        }
    }
}

/// Whether all of several variables are known.
fn all_known(vars: &Vec<ChcVar>, known: &Vec<ChcVar>) -> (yes: bool)
    ensures
        yes == terms::var_set(vars@).subset_of(terms::var_set(known@)),
{
    for i in 0..vars.len()
        invariant
            forall|j: int|
                0 <= j < i ==> terms::var_set(known@).contains((#[trigger] vars@[j])@),
    {
        if !holds_var(known, &vars[i]) {
            assert(terms::var_set(vars@).contains(vars@[i as int]@));
            return false;
        }
    }
    assert forall|var: VarModel| terms::var_set(vars@).contains(var) implies terms::var_set(
        known@,
    ).contains(var) by {
        let i = choose|i: int| 0 <= i < vars@.len() && #[trigger] vars@[i]@ == var;
        assert(terms::var_set(known@).contains(vars@[i]@));
    }
    true
}

/// Adds the variable on one side of an equality where the other side fixes it;
/// `None` where the other side is too large to tell.
fn ground_side(var_side: &Arc<ChcExpr>, def_side: &Arc<ChcExpr>, known: &mut Vec<ChcVar>) -> (added:
    Option<bool>)
    ensures
        match added {
            None => !within_budget(def_side@) && final(known)@ == old(known)@,
            Some(true) => {
                &&& var_side@ matches ExprModel::Var(var)
                &&& !terms::var_set(old(known)@).contains(var)
                &&& vars_within(def_side@, terms::var_set(old(known)@))
                &&& terms::var_set(final(known)@) == terms::var_set(old(known)@).insert(var)
            },
            Some(false) => {
                &&& final(known)@ == old(known)@
                &&& var_side@ matches ExprModel::Var(var) ==> terms::var_set(old(known)@).contains(
                    var,
                ) || !vars_within(def_side@, terms::var_set(old(known)@))
            },
        },
{
    match &**var_side {
        ChcExpr::Var(var) => {
            if holds_var(known, var) {
                return Some(false);
            }
            match collect_expr_vars(def_side) {
                None => None,
                Some(vars) => {
                    let ghost held = terms::var_set(known@);
                    if all_known(&vars, known) {
                        assert forall|own: VarModel| #[trigger]
                            terms::occurs(own, def_side@) implies held.contains(own) by {
                            assert(terms::var_set(vars@).contains(own));
                        }
                        add_var(known, var);
                        Some(true)
                    } else {
                        assert(!vars_within(def_side@, held)) by {
                            let own = choose|own: VarModel|
                                terms::var_set(vars@).contains(own) && !held.contains(own);
                            assert(terms::var_set(vars@).contains(own));
                            assert(terms::occurs(own, def_side@));
                        }
                        Some(false)
                    }
                },
            }
        },
        _ => Some(false),
    }
}

/// The sides of an equality are smaller than the equality.
proof fn lemma_side_within_budget(leaf: ExprModel, side: int)
    requires
        leaf is Op,
        leaf->Op_1.len() == 2,
        0 <= side < 2,
        within_budget(leaf),
    ensures
        within_budget(leaf->Op_1[side]),
{
    let args = leaf->Op_1;
    assert(args =~= seq![args[0], args[1]]);
    assert(args.drop_last() =~= seq![args[0]]);
    assert(args.last() == args[1]);
    lemma_total_single(args[0]);
    assert(terms::total_nodes(args) == terms::node_count(args[0]) + terms::node_count(args[1]));
    assert(terms::node_count(leaf) == 1 + terms::total_nodes(args));
}

/// Extends the known variables by one pass over the defining equalities.
/// Returns whether any was added; `None` where an equality is too large.
fn ground_pass(
    leaves: &Vec<Arc<ChcExpr>>,
    known: &mut Vec<ChcVar>,
    Ghost(seeds): Ghost<Set<VarModel>>,
    Ghost(rounds): Ghost<nat>,
) -> (pass: (Option<bool>, Ghost<nat>))
    requires
        terms::var_set(old(known)@).subset_of(
            fixed_after(seeds, chc::terms_model(leaves@), rounds),
        ),
    ensures
        ({
            let models = chc::terms_model(leaves@);
            let before = terms::var_set(old(known)@);
            let after = terms::var_set(final(known)@);
            &&& before.subset_of(after)
            &&& after.subset_of(fixed_after(seeds, models, pass.1@))
            &&& match pass.0 {
                None => exists|leaf: ExprModel| #[trigger]
                    models.contains(leaf) && !within_budget(leaf),
                Some(true) => open_sides(models, after) < open_sides(models, before),
                Some(false) => {
                    &&& after == before
                    &&& forall|leaf: ExprModel, var: VarModel| #[trigger]
                        defines(leaf, var, after) && models.contains(leaf) ==> after.contains(var)
                },
            }
        }),
{
    let ghost models = chc::terms_model(leaves@);
    let ghost before = terms::var_set(known@);
    let ghost mut reached = rounds;
    let mut changed = false;
    for i in 0..leaves.len()
        invariant
            models == chc::terms_model(leaves@),
            before == terms::var_set(old(known)@),
            before.subset_of(terms::var_set(known@)),
            terms::var_set(known@).subset_of(fixed_after(seeds, models, reached)),
            changed ==> open_sides(models, terms::var_set(known@)) < open_sides(models, before),
            !changed ==> terms::var_set(known@) == before,
            !changed ==> forall|j: int, var: VarModel|
                0 <= j < i && #[trigger] defines(models[j], var, before) ==> before.contains(var),
    {
        let ghost leaf = models[i as int];
        assert(leaf == leaves@[i as int]@);
        if let ChcExpr::Op(ChcOp::Eq, args) = &*leaves[i] {
            assert(chc::terms_model(args@).len() == args@.len());
            if args.len() == 2 {
                proof {
                    chc::lemma_model_of_two(args@);
                    if within_budget(leaf) {
                        lemma_side_within_budget(leaf, 0);
                        lemma_side_within_budget(leaf, 1);
                    }
                    assert(models.contains(leaf));
                }
                let ghost held = terms::var_set(known@);
                let ghost depth = reached;
                let first = match ground_side(&args[0], &args[1], known) {
                    Some(added) => added,
                    None => {
                        return (None, Ghost(reached));
                    },
                };
                if first {
                    changed = true;
                    proof {
                        lemma_addition(seeds, models, held, leaf, leaf->Op_1[0]->Var_0, reached);
                        reached = reached + 1;
                        lemma_open_sides_shrink(models, held, terms::var_set(known@), i as int);
                        lemma_open_sides_shrink(models, before, held, i as int);
                    }
                }
                let ghost middle = terms::var_set(known@);
                let second = match ground_side(&args[1], &args[0], known) {
                    Some(added) => added,
                    None => {
                        return (None, Ghost(reached));
                    },
                };
                if second {
                    changed = true;
                    proof {
                        lemma_addition(seeds, models, middle, leaf, leaf->Op_1[1]->Var_0, reached);
                        reached = reached + 1;
                        lemma_open_sides_shrink(models, middle, terms::var_set(known@), i as int);
                        lemma_open_sides_shrink(models, before, middle, i as int);
                    }
                }
            }
        }
    }
    proof {
        if !changed {
            assert forall|leaf: ExprModel, var: VarModel| #[trigger]
                defines(leaf, var, before) && models.contains(leaf) implies before.contains(var) by {
                let j = choose|j: int| 0 <= j < models.len() && models[j] == leaf;
                assert(defines(models[j], var, before));
            }
        }
    }
    (Some(changed), Ghost(reached))
}

/// A variable that an equality defines over fixed variables is fixed one round
/// later.
proof fn lemma_addition(
    seeds: Set<VarModel>,
    leaves: Seq<ExprModel>,
    known: Set<VarModel>,
    leaf: ExprModel,
    var: VarModel,
    rounds: nat,
)
    requires
        known.subset_of(fixed_after(seeds, leaves, rounds)),
        leaves.contains(leaf),
        defines(leaf, var, known),
    ensures
        known.insert(var).subset_of(fixed_after(seeds, leaves, rounds + 1)),
{
    let fixed = fixed_after(seeds, leaves, rounds);
    lemma_fixed_grows(seeds, leaves, rounds);
    assert(defines(leaf, var, fixed));
    assert forall|own: VarModel| known.insert(var).contains(own) implies fixed_after(
        seeds,
        leaves,
        rounds + 1,
    ).contains(own) by {
        if known.contains(own) {
            assert(fixed.contains(own));
        }
    }
}

/// Lists the variables that the arguments of the premises fix; `None` where an
/// argument is too large.
fn collect_premise_vars(atoms: &Vec<PredicateAtom>) -> (listed: Option<Vec<ChcVar>>)
    ensures
        match listed {
            Some(vars) => {
                &&& terms::var_set(vars@) == premise_vars(chc::atoms_model(atoms@))
                &&& forall|i: int|
                    0 <= i < atoms@.len() ==> all_within_budget(
                        (#[trigger] chc::atoms_model(atoms@)[i]).args,
                    )
            },
            None => exists|i: int|
                0 <= i < atoms@.len() && !all_within_budget(
                    (#[trigger] chc::atoms_model(atoms@)[i]).args,
                ),
        },
{
    let ghost models = chc::atoms_model(atoms@);
    let mut known: Vec<ChcVar> = Vec::new();
    for i in 0..atoms.len()
        invariant
            models == chc::atoms_model(atoms@),
            forall|j: int| 0 <= j < i ==> all_within_budget((#[trigger] models[j]).args),
            forall|var: VarModel| #[trigger]
                terms::var_set(known@).contains(var) <==> exists|j: int|
                    0 <= j < i && terms::occurs_in_any(var, (#[trigger] models[j]).args),
    {
        let ghost before = known@;
        if !add_vars_of_all(&atoms[i].args, &mut known) {
            assert(!all_within_budget(models[i as int].args));
            return None;
        }
        assert forall|var: VarModel| #[trigger] terms::var_set(known@).contains(var) <==> exists|
            j: int,
        |
            0 <= j < i + 1 && terms::occurs_in_any(var, (#[trigger] models[j]).args) by {
            assert(terms::var_set(known@).contains(var) <==> terms::var_set(before).contains(var)
                || terms::occurs_in_any(var, models[i as int].args));
        }
    }
    assert(terms::var_set(known@) =~= premise_vars(models));
    Some(known)
}

/// Adds the variables of several terms, unless one is too large.
fn add_vars_of_all(exprs: &Vec<Arc<ChcExpr>>, known: &mut Vec<ChcVar>) -> (added: bool)
    ensures
        added == all_within_budget(chc::terms_model(exprs@)),
        added ==> forall|var: VarModel| #[trigger]
            terms::var_set(final(known)@).contains(var) <==> terms::var_set(old(known)@).contains(
                var,
            ) || terms::occurs_in_any(var, chc::terms_model(exprs@)),
{
    let ghost models = chc::terms_model(exprs@);
    for i in 0..exprs.len()
        invariant
            models == chc::terms_model(exprs@),
            forall|j: int| 0 <= j < i ==> within_budget(#[trigger] models[j]),
            forall|var: VarModel| #[trigger]
                terms::var_set(known@).contains(var) <==> terms::var_set(old(known)@).contains(var)
                    || exists|j: int| 0 <= j < i && terms::occurs(var, #[trigger] models[j]),
    {
        assert(models[i as int] == exprs@[i as int]@);
        let vars = match collect_expr_vars(&exprs[i]) {
            Some(vars) => vars,
            None => {
                assert(!within_budget(models[i as int]));
                return false;
            },
        };
        let ghost before = known@;
        add_all(&vars, known);
        assert forall|var: VarModel| #[trigger] terms::var_set(known@).contains(var)
            <==> terms::var_set(old(known)@).contains(var) || exists|j: int|
            0 <= j < i + 1 && terms::occurs(var, #[trigger] models[j]) by {
            assert(terms::var_set(known@).contains(var) <==> terms::var_set(before).contains(var)
                || terms::var_set(vars@).contains(var));
            assert(terms::var_set(vars@).contains(var) <==> terms::occurs(var, models[i as int]));
        }
    }
    true
}

/// Adds several variables.
fn add_all(vars: &Vec<ChcVar>, known: &mut Vec<ChcVar>)
    ensures
        forall|var: VarModel| #[trigger]
            terms::var_set(final(known)@).contains(var) <==> terms::var_set(old(known)@).contains(
                var,
            ) || terms::var_set(vars@).contains(var),
{
    for i in 0..vars.len()
        invariant
            forall|var: VarModel| #[trigger]
                terms::var_set(known@).contains(var) <==> terms::var_set(old(known)@).contains(var)
                    || exists|j: int| 0 <= j < i && #[trigger] vars@[j]@ == var,
    {
        let ghost before = known@;
        add_var(known, &vars[i]);
        assert forall|var: VarModel| #[trigger] terms::var_set(known@).contains(var)
            <==> terms::var_set(old(known)@).contains(var) || exists|j: int|
            0 <= j < i + 1 && #[trigger] vars@[j]@ == var by {
            assert(terms::var_set(known@).contains(var) <==> terms::var_set(before).contains(var)
                || vars@[i as int]@ == var);
        }
    }
}

/// Whether every variable of several terms is known; `false` too where a term is
/// too large.
fn terms_known(exprs: &Vec<Arc<ChcExpr>>, known: &Vec<ChcVar>) -> (yes: bool)
    ensures
        yes == (all_within_budget(chc::terms_model(exprs@)) && forall|i: int|
            0 <= i < exprs@.len() ==> vars_within(
                #[trigger] chc::terms_model(exprs@)[i],
                terms::var_set(known@),
            )),
{
    let ghost models = chc::terms_model(exprs@);
    for i in 0..exprs.len()
        invariant
            models == chc::terms_model(exprs@),
            forall|j: int|
                0 <= j < i ==> within_budget(#[trigger] models[j]) && vars_within(
                    models[j],
                    terms::var_set(known@),
                ),
    {
        assert(models[i as int] == exprs@[i as int]@);
        match collect_expr_vars(&exprs[i]) {
            Some(vars) => {
                if !all_known(&vars, known) {
                    assert(!vars_within(models[i as int], terms::var_set(known@))) by {
                        let own = choose|own: VarModel|
                            terms::var_set(vars@).contains(own) && !terms::var_set(
                                known@,
                            ).contains(own);
                        assert(terms::var_set(vars@).contains(own));
                        assert(terms::occurs(own, models[i as int]));
                    }
                    return false;
                }
                assert forall|own: VarModel| #[trigger]
                    terms::occurs(own, models[i as int]) implies terms::var_set(known@).contains(
                    own,
                ) by {
                    assert(terms::var_set(vars@).contains(own));
                }
            },
            None => {
                assert(!within_budget(models[i as int]));
                return false;
            },
        }
    }
    true
}

/// Whether a clause has premises and every variable of it is fixed by them and
/// the defining equalities.
pub fn clause_is_grounded_for_refutation(clause: &HornClause) -> (grounded: bool)
    ensures
        grounded == clause_grounded(clause@),
{
    let ghost model = clause@;
    let ghost seeds = premise_vars(model.atoms);
    if clause.body.predicates.len() == 0 {
        return false;
    }
    let mut known = match collect_premise_vars(&clause.body.predicates) {
        Some(known) => known,
        None => {
            return false;
        },
    };
    let leaves = match flatten_conjuncts(&clause.body.constraint) {
        Some(leaves) => leaves,
        None => {
            return false;
        },
    };
    let ghost models = chc::terms_model(leaves@);
    let ghost own = constraint_leaves(model.constraint);
    let ghost mut rounds: nat = 0;
    let mut settled = false;
    while !settled
        invariant
            models == chc::terms_model(leaves@),
            forall|leaf: ExprModel| #[trigger] models.contains(leaf) <==> own.contains(leaf),
            model == clause@,
            own == constraint_leaves(model.constraint),
            seeds == premise_vars(model.atoms),
            seeds.subset_of(terms::var_set(known@)),
            terms::var_set(known@).subset_of(fixed_after(seeds, models, rounds)),
            settled ==> forall|leaf: ExprModel, var: VarModel| #[trigger]
                defines(leaf, var, terms::var_set(known@)) && models.contains(leaf)
                    ==> terms::var_set(known@).contains(var),
        decreases
                open_sides(models, terms::var_set(known@)),
                (if settled {
                    0int
                } else {
                    1int
                }),
    {
        let (pass, depth) = ground_pass(&leaves, &mut known, Ghost(seeds), Ghost(rounds));
        proof {
            rounds = depth@;
        }
        match pass {
            None => {
                assert(!clause_within_budget(model)) by {
                    let leaf = choose|leaf: ExprModel| #[trigger]
                        models.contains(leaf) && !within_budget(leaf);
                    assert(own.contains(leaf));
                }
                return false;
            },
            Some(changed) => {
                if !changed {
                    settled = true;
                }
            },
        }
    }
    let ghost held = terms::var_set(known@);
    proof {
        lemma_same_leaves(seeds, models, own);
        assert forall|var: VarModel| held.contains(var) <==> is_fixed(seeds, own, var) by {
            if held.contains(var) {
                assert(fixed_after(seeds, models, rounds).contains(var));
                assert(fixed_after(seeds, own, rounds).contains(var));
            }
            if is_fixed(seeds, own, var) {
                let n = choose|n: nat| #[trigger] fixed_after(seeds, own, n).contains(var);
                lemma_closed_holds_fixed(seeds, models, held, n);
                assert(fixed_after(seeds, models, n).contains(var));
            }
        }
    }
    if !terms_known(&leaves, &known) {
        assert(!clause_grounded(model)) by {
            lemma_unknown_leaf(model, models, held);
        }
        return false;
    }
    proof {
        assert forall|leaf: ExprModel| #[trigger] own.contains(leaf) implies within_budget(leaf)
            && vars_within(leaf, held) by {
            assert(models.contains(leaf));
            let i = choose|i: int| 0 <= i < models.len() && models[i] == leaf;
            assert(within_budget(models[i]) && vars_within(models[i], held));
        }
    }
    match &clause.head {
        ClauseHead::False => {
            assert(head_args(model.head) =~= Seq::empty());
            true
        },
        ClauseHead::Predicate(atom) => {
            let known_args = terms_known(&atom.args, &known);
            proof {
                let args = chc::terms_model(atom.args@);
                assert(head_args(model.head) == args);
                if known_args {
                    assert forall|var: VarModel| #[trigger]
                        terms::occurs_in_any(var, args) implies is_fixed(seeds, own, var) by {
                        let i = choose|i: int|
                            0 <= i < args.len() && terms::occurs(var, #[trigger] args[i]);
                        assert(vars_within(args[i], held));
                        assert(held.contains(var));
                    }
                } else if all_within_budget(args) {
                    let i = choose|i: int| 0 <= i < args.len() && !vars_within(#[trigger] args[i], held);
                    let var = choose|var: VarModel| #[trigger]
                        terms::occurs(var, args[i]) && !held.contains(var);
                    assert(terms::occurs(var, args[i]));
                    assert(terms::occurs_in_any(var, args));
                }
            }
            known_args
        },
    }
}

/// The rounds depend only on which equalities there are.
proof fn lemma_same_leaves(seeds: Set<VarModel>, left: Seq<ExprModel>, right: Seq<ExprModel>)
    requires
        forall|leaf: ExprModel| #[trigger] left.contains(leaf) <==> right.contains(leaf),
    ensures
        forall|rounds: nat| #[trigger]
            fixed_after(seeds, left, rounds) == fixed_after(seeds, right, rounds),
{
    assert forall|rounds: nat| #[trigger] fixed_after(seeds, left, rounds) == fixed_after(
        seeds,
        right,
        rounds,
    ) by {
        lemma_same_leaves_after(seeds, left, right, rounds);
    }
}

proof fn lemma_same_leaves_after(
    seeds: Set<VarModel>,
    left: Seq<ExprModel>,
    right: Seq<ExprModel>,
    rounds: nat,
)
    requires
        forall|leaf: ExprModel| #[trigger] left.contains(leaf) <==> right.contains(leaf),
    ensures
        fixed_after(seeds, left, rounds) == fixed_after(seeds, right, rounds),
    decreases rounds,
{
    if rounds > 0 {
        lemma_same_leaves_after(seeds, left, right, (rounds - 1) as nat);
        let known = fixed_after(seeds, left, (rounds - 1) as nat);
        assert forall|var: VarModel| fixed_after(seeds, left, rounds).contains(var)
            <==> fixed_after(seeds, right, rounds).contains(var) by {
            if exists|leaf: ExprModel| #[trigger]
                left.contains(leaf) && defines(leaf, var, known) {
                let leaf = choose|leaf: ExprModel| #[trigger]
                    left.contains(leaf) && defines(leaf, var, known);
                assert(right.contains(leaf));
            }
            if exists|leaf: ExprModel| #[trigger]
                right.contains(leaf) && defines(leaf, var, known) {
                let leaf = choose|leaf: ExprModel| #[trigger]
                    right.contains(leaf) && defines(leaf, var, known);
                assert(left.contains(leaf));
            }
        }
        assert(fixed_after(seeds, left, rounds) =~= fixed_after(seeds, right, rounds));
    }
}

/// A leaf that is too large or has an unfixed variable ungrounds the clause.
proof fn lemma_unknown_leaf(clause: ClauseModel, models: Seq<ExprModel>, held: Set<VarModel>)
    requires
        forall|leaf: ExprModel| #[trigger]
            models.contains(leaf) <==> constraint_leaves(clause.constraint).contains(leaf),
        forall|var: VarModel|
            held.contains(var) <==> #[trigger] is_fixed(
                premise_vars(clause.atoms),
                constraint_leaves(clause.constraint),
                var,
            ),
        !(all_within_budget(models) && forall|i: int|
            0 <= i < models.len() ==> vars_within(#[trigger] models[i], held)),
    ensures
        !clause_grounded(clause),
{
    let leaves = constraint_leaves(clause.constraint);
    if !all_within_budget(models) {
        let i = choose|i: int| 0 <= i < models.len() && !within_budget(#[trigger] models[i]);
        assert(models.contains(models[i]));
        assert(leaves.contains(models[i]));
    } else {
        let i = choose|i: int| 0 <= i < models.len() && !vars_within(#[trigger] models[i], held);
        let var = choose|var: VarModel| #[trigger]
            terms::occurs(var, models[i]) && !held.contains(var);
        assert(models.contains(models[i]));
        assert(leaves.contains(models[i]));
        assert(terms::occurs(var, models[i]));
        assert(!is_fixed(premise_vars(clause.atoms), leaves, var));
    }
}

/// Whether a clause is a fact: it has no premise predicate.
pub open spec fn is_fact(clause: ClauseModel) -> bool {
    clause.atoms.len() == 0
}

/// Whether a clause derives a predicate.
pub open spec fn derives(clause: ClauseModel, predicate: int) -> bool {
    clause.head matches HeadModel::Predicate(head) && head.predicate.index == predicate
}

/// Whether a clause is the only fact of a problem, seeds a predicate that
/// nothing else derives, and is small enough to walk.
pub open spec fn is_entry(problem: ProblemModel, at: int) -> bool {
    let entry = problem.clauses[at];
    &&& 0 <= at < problem.clauses.len()
    &&& is_fact(entry)
    &&& forall|i: int|
        0 <= i < problem.clauses.len() && is_fact(#[trigger] problem.clauses[i]) ==> i == at
    &&& entry.head matches HeadModel::Predicate(head) && forall|i: int|
        0 <= i < problem.clauses.len() && i != at ==> !derives(
            #[trigger] problem.clauses[i],
            head.predicate.index as int,
        )
    &&& entry.constraint matches Some(expr) ==> within_budget(expr)
    &&& all_within_budget(head_args(entry.head))
}

/// Whether a problem has one entry and every other clause is grounded.
pub open spec fn problem_grounded(problem: ProblemModel) -> bool {
    &&& exists|at: int| is_entry(problem, at)
    &&& forall|i: int|
        0 <= i < problem.clauses.len() && !is_fact(#[trigger] problem.clauses[i])
            ==> clause_grounded(problem.clauses[i])
}

/// The place of the only fact of a problem.
fn only_fact(problem: &ChcProblem) -> (found: Option<usize>)
    ensures
        match found {
            Some(at) => {
                &&& at < problem@.clauses.len()
                &&& is_fact(problem@.clauses[at as int])
                &&& forall|i: int|
                    0 <= i < problem@.clauses.len() && is_fact(#[trigger] problem@.clauses[i]) ==> i
                        == at
            },
            None => forall|at: int| !#[trigger] is_entry(problem@, at),
        },
{
    let ghost clauses = problem@.clauses;
    let mut found: Option<usize> = None;
    for i in 0..problem.clauses.len()
        invariant
            clauses == problem@.clauses,
            match found {
                Some(at) => {
                    &&& at < i
                    &&& is_fact(clauses[at as int])
                    &&& forall|j: int| 0 <= j < i && is_fact(#[trigger] clauses[j]) ==> j == at
                },
                None => forall|j: int| 0 <= j < i ==> !is_fact(#[trigger] clauses[j]),
            },
    {
        assert(clauses[i as int].atoms.len() == problem.clauses@[i as int].body.predicates@.len());
        if problem.clauses[i].body.predicates.len() == 0 {
            match found {
                Some(at) => {
                    assert forall|entry: int| !#[trigger] is_entry(problem@, entry) by {
                        assert(is_fact(clauses[at as int]));
                        assert(is_fact(clauses[i as int]));
                    }
                    return None;
                },
                None => {
                    found = Some(i);
                },
            }
        }
    }
    found
}

/// Whether a problem has one entry and every other clause is grounded.
pub fn problem_is_grounded_for_refutation(problem: &ChcProblem) -> (grounded: bool)
    ensures
        grounded == problem_grounded(problem@),
{
    let ghost model = problem@;
    let at: usize = match only_fact(problem) {
        Some(at) => at,
        None => {
            return false;
        },
    };
    let entry = &problem.clauses[at];
    assert(model.clauses[at as int] == entry@);
    let head = match &entry.head {
        ClauseHead::Predicate(head) => head,
        ClauseHead::False => {
            assert forall|other: int| !#[trigger] is_entry(model, other) by {
                assert(is_fact(model.clauses[at as int]));
            }
            return false;
        },
    };
    let ghost seeded = head.predicate.index as int;
    for i in 0..problem.clauses.len()
        invariant
            model == problem@,
            at < model.clauses.len(),
            is_fact(model.clauses[at as int]),
            model.clauses[at as int].head == HeadModel::Predicate(head@),
            seeded == head.predicate.index,
            forall|j: int|
                0 <= j < model.clauses.len() && is_fact(#[trigger] model.clauses[j]) ==> j == at,
            forall|j: int|
                0 <= j < i && j != at ==> !derives(#[trigger] model.clauses[j], seeded),
    {
        let clause = &problem.clauses[i];
        assert(model.clauses[i as int] == clause@);
        assert(clause@.atoms.len() == clause.body.predicates@.len());
        let seeds_again = match &clause.head {
            ClauseHead::Predicate(other) => other.predicate == head.predicate,
            ClauseHead::False => false,
        };
        if clause.body.predicates.len() > 0 && seeds_again {
            assert forall|other: int| !#[trigger] is_entry(model, other) by {
                assert(is_fact(model.clauses[at as int]));
                assert(derives(model.clauses[i as int], seeded));
            }
            return false;
        }
    }
    let sized = match &entry.body.constraint {
        Some(constraint) => collect_expr_vars(constraint).is_some(),
        None => true,
    };
    let mut scratch: Vec<ChcVar> = Vec::new();
    if !sized || !add_vars_of_all(&head.args, &mut scratch) {
        assert forall|other: int| !#[trigger] is_entry(model, other) by {
            assert(is_fact(model.clauses[at as int]));
        }
        return false;
    }
    assert(is_entry(model, at as int));
    for i in 0..problem.clauses.len()
        invariant
            model == problem@,
            forall|j: int|
                0 <= j < i && !is_fact(#[trigger] model.clauses[j]) ==> clause_grounded(
                    model.clauses[j],
                ),
    {
        assert(model.clauses[i as int] == problem.clauses@[i as int]@);
        assert(model.clauses[i as int].atoms.len()
            == problem.clauses@[i as int].body.predicates@.len());
        if problem.clauses[i].body.predicates.len() > 0 {
            if !clause_is_grounded_for_refutation(&problem.clauses[i]) {
                return false;
            }
        }
    }
    true
}

/// Where two solutions of a grounded clause agree on the variables of the
/// premises, they agree on every variable that is fixed.
proof fn lemma_fixed_values_agree(
    clause: ClauseModel,
    expr: ExprModel,
    env: Env,
    other: Env,
    interp: Interpretation,
    rounds: nat,
)
    requires
        clause.constraint == Some(expr),
        semantics::well_sorted(expr),
        terms::truth_of(expr, env, interp),
        terms::truth_of(expr, other, interp),
        forall|var: VarModel| #[trigger]
            premise_vars(clause.atoms).contains(var) ==> env(var) == other(var),
    ensures
        forall|var: VarModel| #[trigger]
            fixed_after(premise_vars(clause.atoms), terms::conjunct_leaves(expr), rounds).contains(
                var,
            ) ==> env(var) == other(var),
    decreases rounds,
{
    let seeds = premise_vars(clause.atoms);
    let leaves = terms::conjunct_leaves(expr);
    if rounds > 0 {
        lemma_fixed_values_agree(clause, expr, env, other, interp, (rounds - 1) as nat);
        let known = fixed_after(seeds, leaves, (rounds - 1) as nat);
        terms::lemma_leaves_hold(expr, env, interp);
        terms::lemma_leaves_hold(expr, other, interp);
        assert forall|var: VarModel| #[trigger] fixed_after(seeds, leaves, rounds).contains(
            var,
        ) implies env(var) == other(var) by {
            if !known.contains(var) {
                let leaf = choose|leaf: ExprModel| #[trigger]
                    leaves.contains(leaf) && defines(leaf, var, known);
                let at = choose|at: int| 0 <= at < leaves.len() && leaves[at] == leaf;
                assert(terms::truth_of(leaves[at], env, interp));
                assert(terms::truth_of(leaves[at], other, interp));
                let args = leaf->Op_1;
                let vals = semantics::eval_all(args, env, interp);
                let other_vals = semantics::eval_all(args, other, interp);
                assert(vals[0] == semantics::eval(args[0], env, interp));
                assert(vals[1] == semantics::eval(args[1], env, interp));
                assert(other_vals[0] == semantics::eval(args[0], other, interp));
                assert(other_vals[1] == semantics::eval(args[1], other, interp));
                if args[0] == ExprModel::Var(var) && vars_within(args[1], known) {
                    bridge_laws::lemma_eval_agrees(args[1], env, other, interp);
                } else {
                    bridge_laws::lemma_eval_agrees(args[0], env, other, interp);
                }
            }
        }
    }
}

/// In a grounded clause the premises leave no freedom: two solutions of its
/// constraint that agree on the variables of the premises agree on every
/// variable of the constraint and of the head.
pub proof fn law_grounded_values_are_forced(
    clause: ClauseModel,
    expr: ExprModel,
    env: Env,
    other: Env,
    interp: Interpretation,
    var: VarModel,
)
    requires
        clause_grounded(clause),
        clause.constraint == Some(expr),
        semantics::well_sorted(expr),
        terms::truth_of(expr, env, interp),
        terms::truth_of(expr, other, interp),
        forall|own: VarModel| #[trigger]
            premise_vars(clause.atoms).contains(own) ==> env(own) == other(own),
        terms::occurs_in_any(var, terms::conjunct_leaves(expr)) || terms::occurs_in_any(
            var,
            head_args(clause.head),
        ),
    ensures
        env(var) == other(var),
{
    let seeds = premise_vars(clause.atoms);
    let leaves = terms::conjunct_leaves(expr);
    if terms::occurs_in_any(var, leaves) {
        let i = choose|i: int| 0 <= i < leaves.len() && terms::occurs(var, #[trigger] leaves[i]);
        assert(constraint_leaves(clause.constraint).contains(leaves[i]));
        assert(terms::occurs(var, leaves[i]));
        assert(is_fixed(seeds, leaves, var));
    }
    assert(is_fixed(seeds, leaves, var));
    let rounds = choose|rounds: nat| #[trigger] fixed_after(seeds, leaves, rounds).contains(var);
    lemma_fixed_values_agree(clause, expr, env, other, interp, rounds);
}

} // verus!
