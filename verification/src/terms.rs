//! Walks over Horn-clause terms.
use std::sync::Arc;

use vstd::prelude::*;

use crate::chc;
use crate::chc::{ChcExpr, ChcOp, ChcVar, ExprModel, VarModel};
use crate::semantics;
use crate::semantics::{Env, Interpretation};
use crate::shared::share;

verus! {

/// Whether a variable occurs in a term.
pub open spec fn occurs(var: VarModel, expr: ExprModel) -> bool
    decreases expr,
{
    match expr {
        ExprModel::Var(own) => own == var,
        ExprModel::Op(_, args) => occurs_in_any(var, args),
        ExprModel::PredicateApp(_, _, args) => occurs_in_any(var, args),
        ExprModel::FuncApp(_, _, args) => occurs_in_any(var, args),
        ExprModel::ConstArray(_, value) => occurs(var, *value),
        _ => false,
    }
}

/// Whether a variable occurs in one of several terms.
pub open spec fn occurs_in_any(var: VarModel, exprs: Seq<ExprModel>) -> bool
    decreases exprs,
{
    exists|i: int| 0 <= i < exprs.len() && occurs(var, #[trigger] exprs[i])
}

/// Number of nodes of a term, shared subterms counted once per occurrence.
pub open spec fn node_count(expr: ExprModel) -> nat
    decreases expr,
{
    match expr {
        ExprModel::Op(_, args) => 1 + total_nodes(args),
        ExprModel::PredicateApp(_, _, args) => 1 + total_nodes(args),
        ExprModel::FuncApp(_, _, args) => 1 + total_nodes(args),
        ExprModel::ConstArray(_, value) => 1 + node_count(*value),
        _ => 1,
    }
}

/// Number of nodes of several terms together.
pub open spec fn total_nodes(exprs: Seq<ExprModel>) -> nat
    decreases exprs,
{
    if exprs.len() == 0 {
        0
    } else {
        total_nodes(exprs.drop_last()) + node_count(exprs.last())
    }
}

/// The leaves of the conjunction tree at the root of a term, left to right.
pub open spec fn conjunct_leaves(expr: ExprModel) -> Seq<ExprModel>
    decreases expr,
{
    match expr {
        ExprModel::Op(ChcOp::And, args) => all_conjunct_leaves(args),
        _ => seq![expr],
    }
}

/// The conjunct leaves of several terms, one after the other.
pub open spec fn all_conjunct_leaves(exprs: Seq<ExprModel>) -> Seq<ExprModel>
    decreases exprs,
{
    if exprs.len() == 0 {
        Seq::empty()
    } else {
        all_conjunct_leaves(exprs.drop_last()) + conjunct_leaves(exprs.last())
    }
}

pub proof fn lemma_node_count_positive(expr: ExprModel)
    ensures
        node_count(expr) >= 1,
{
}

pub proof fn lemma_total_nodes_concat(left: Seq<ExprModel>, right: Seq<ExprModel>)
    ensures
        total_nodes(left + right) == total_nodes(left) + total_nodes(right),
    decreases right.len(),
{
    if right.len() == 0 {
        assert(left + right == left);
    } else {
        assert((left + right).drop_last() == left + right.drop_last());
        lemma_total_nodes_concat(left, right.drop_last());
    }
}

pub proof fn lemma_leaves_concat(left: Seq<ExprModel>, right: Seq<ExprModel>)
    ensures
        all_conjunct_leaves(left + right) == all_conjunct_leaves(left) + all_conjunct_leaves(right),
    decreases right.len(),
{
    if right.len() == 0 {
        assert(left + right == left);
    } else {
        assert((left + right).drop_last() == left + right.drop_last());
        lemma_leaves_concat(left, right.drop_last());
    }
}

/// A stack of terms, read from its top down.
pub open spec fn stack_model(stack: Seq<Arc<ChcExpr>>) -> Seq<ExprModel> {
    chc::terms_model(stack).reverse()
}

proof fn lemma_stack_pop(stack: Seq<Arc<ChcExpr>>)
    requires
        stack.len() > 0,
    ensures
        stack_model(stack) == seq![stack.last()@] + stack_model(stack.drop_last()),
        total_nodes(stack_model(stack)) == node_count(stack.last()@) + total_nodes(
            stack_model(stack.drop_last()),
        ),
        all_conjunct_leaves(stack_model(stack)) == conjunct_leaves(stack.last()@)
            + all_conjunct_leaves(stack_model(stack.drop_last())),
{
    let top = seq![stack.last()@];
    let rest = stack_model(stack.drop_last());
    assert(stack_model(stack) =~= top + rest);
    lemma_total_nodes_concat(top, rest);
    lemma_leaves_concat(top, rest);
    assert(top.drop_last() =~= Seq::empty());
    assert(all_conjunct_leaves(top.drop_last()) =~= Seq::empty());
    assert(all_conjunct_leaves(top) =~= conjunct_leaves(top.last()));
    assert(total_nodes(top.drop_last()) == 0);
}

/// The terms of `args` as they stand on a stack after being pushed last to first.
proof fn lemma_stack_push_all(stack: Seq<Arc<ChcExpr>>, args: Seq<Arc<ChcExpr>>)
    ensures
        stack_model(stack + args.reverse()) == chc::terms_model(args) + stack_model(stack),
        total_nodes(stack_model(stack + args.reverse())) == total_nodes(chc::terms_model(args))
            + total_nodes(stack_model(stack)),
        all_conjunct_leaves(stack_model(stack + args.reverse())) == all_conjunct_leaves(
            chc::terms_model(args),
        ) + all_conjunct_leaves(stack_model(stack)),
{
    assert(stack_model(stack + args.reverse()) =~= chc::terms_model(args) + stack_model(stack));
    lemma_total_nodes_concat(chc::terms_model(args), stack_model(stack));
    lemma_leaves_concat(chc::terms_model(args), stack_model(stack));
}

/// Pushes the members of a list so that the first is popped first.
fn push_reversed(stack: &mut Vec<Arc<ChcExpr>>, args: &Vec<Arc<ChcExpr>>)
    ensures
        final(stack)@ == old(stack)@ + args@.reverse(),
{
    let mut left: usize = args.len();
    while left > 0
        invariant
            left <= args.len(),
            stack@ == old(stack)@ + args@.skip(left as int).reverse(),
        decreases left,
    {
        left = left - 1;
        stack.push(share(&args[left]));
    }
    assert(args@.skip(0) == args@);
}

/// The facts that a constraint asserts outright: the leaves of the conjunction
/// tree at its root, left to right. Nothing below another connective counts.
pub fn top_level_conjuncts(constraint: &Arc<ChcExpr>) -> (conjuncts: Vec<Arc<ChcExpr>>)
    ensures
        chc::terms_model(conjuncts@) == conjunct_leaves(constraint@),
{
    let mut conjuncts: Vec<Arc<ChcExpr>> = Vec::new();
    let mut stack: Vec<Arc<ChcExpr>> = Vec::new();
    stack.push(share(constraint));
    proof {
        lemma_stack_pop(stack@);
        assert(stack@.drop_last() =~= Seq::empty());
        assert(stack_model(stack@.drop_last()) =~= Seq::empty());
        assert(chc::terms_model(conjuncts@) =~= Seq::empty());
        assert(Seq::<ExprModel>::empty() + conjunct_leaves(constraint@) =~= conjunct_leaves(
            constraint@,
        ));
        assert(conjunct_leaves(constraint@) + Seq::<ExprModel>::empty() =~= conjunct_leaves(
            constraint@,
        ));
    }
    while stack.len() > 0
        invariant
            chc::terms_model(conjuncts@) + all_conjunct_leaves(stack_model(stack@))
                == conjunct_leaves(constraint@),
        decreases total_nodes(stack_model(stack@)),
    {
        proof {
            lemma_stack_pop(stack@);
            lemma_node_count_positive(stack@.last()@);
        }
        let ghost before = stack@;
        let ghost found = chc::terms_model(conjuncts@);
        let node = stack.pop().unwrap();
        match &*node {
            ChcExpr::Op(ChcOp::And, args) => {
                let ghost rest = stack@;
                push_reversed(&mut stack, args);
                proof {
                    lemma_stack_push_all(rest, args@);
                }
            },
            _ => {
                conjuncts.push(share(&node));
                proof {
                    assert(chc::terms_model(conjuncts@) =~= found + seq![node@]);
                    assert(conjunct_leaves(node@) == seq![node@]);
                    assert(found + seq![node@] + all_conjunct_leaves(stack_model(stack@)) =~= found
                        + (seq![node@] + all_conjunct_leaves(stack_model(stack@))));
                }
            },
        }
    }
    proof {
        assert(stack_model(stack@) =~= Seq::empty());
        assert(chc::terms_model(conjuncts@) + Seq::<ExprModel>::empty() =~= chc::terms_model(
            conjuncts@,
        ));
    }
    conjuncts
}

/// A conjunction tree holds exactly where every one of its leaves holds.
pub proof fn lemma_leaves_hold(expr: ExprModel, env: Env, interp: Interpretation)
    requires
        semantics::well_sorted(expr),
    ensures
        truth_of(expr, env, interp) <==> (forall|i: int|
            0 <= i < conjunct_leaves(expr).len() ==> truth_of(
                #[trigger] conjunct_leaves(expr)[i],
                env,
                interp,
            )),
        forall|i: int|
            0 <= i < conjunct_leaves(expr).len() ==> semantics::well_sorted(
                #[trigger] conjunct_leaves(expr)[i],
            ),
    decreases expr,
{
    match expr {
        ExprModel::Op(ChcOp::And, args) => {
            lemma_all_leaves_hold(args, env, interp);
            let vals = semantics::eval_all(args, env, interp);
            assert(semantics::eval(expr, env, interp) == semantics::fixed_meaning(ChcOp::And, vals)->0);
            assert(truth_of(expr, env, interp) == (forall|i: int|
                0 <= i < vals.len() ==> semantics::truth(#[trigger] vals[i])));
            if truth_of(expr, env, interp) {
                assert forall|i: int| 0 <= i < args.len() implies truth_of(
                    #[trigger] args[i],
                    env,
                    interp,
                ) by {
                    assert(semantics::truth(vals[i]));
                }
            }
        },
        _ => {
            assert(conjunct_leaves(expr)[0] == expr);
        },
    }
}

/// Several conjunction trees all hold exactly where all their leaves do.
proof fn lemma_all_leaves_hold(exprs: Seq<ExprModel>, env: Env, interp: Interpretation)
    requires
        forall|i: int| 0 <= i < exprs.len() ==> semantics::well_sorted(#[trigger] exprs[i]),
    ensures
        (forall|i: int| 0 <= i < exprs.len() ==> truth_of(#[trigger] exprs[i], env, interp)) <==> (
        forall|i: int|
            0 <= i < all_conjunct_leaves(exprs).len() ==> truth_of(
                #[trigger] all_conjunct_leaves(exprs)[i],
                env,
                interp,
            )),
        forall|i: int|
            0 <= i < all_conjunct_leaves(exprs).len() ==> semantics::well_sorted(
                #[trigger] all_conjunct_leaves(exprs)[i],
            ),
    decreases exprs,
{
    if exprs.len() > 0 {
        let front = exprs.drop_last();
        lemma_all_leaves_hold(front, env, interp);
        lemma_leaves_hold(exprs.last(), env, interp);
        let before = all_conjunct_leaves(front);
        let after = conjunct_leaves(exprs.last());
        let all = all_conjunct_leaves(exprs);
        assert(all == before + after);
        assert forall|i: int| 0 <= i < before.len() implies before[i] == #[trigger] all[i] by {}
        assert forall|i: int| 0 <= i < after.len() implies #[trigger] after[i] == all[before.len()
            + i] by {}
        assert forall|i: int| 0 <= i < front.len() implies #[trigger] front[i] == exprs[i] by {}
        if forall|i: int| 0 <= i < exprs.len() ==> truth_of(#[trigger] exprs[i], env, interp) {
            assert(truth_of(exprs[exprs.len() - 1], env, interp));
        }
        if forall|i: int| 0 <= i < all.len() ==> truth_of(#[trigger] all[i], env, interp) {
            assert forall|i: int| 0 <= i < before.len() implies truth_of(
                #[trigger] before[i],
                env,
                interp,
            ) by {
                assert(before[i] == all[i]);
            }
            assert forall|i: int| 0 <= i < after.len() implies truth_of(
                #[trigger] after[i],
                env,
                interp,
            ) by {
                assert(after[i] == all[before.len() + i]);
            }
            assert forall|i: int| 0 <= i < exprs.len() implies truth_of(
                #[trigger] exprs[i],
                env,
                interp,
            ) by {
                if i < front.len() {
                    assert(front[i] == exprs[i]);
                }
            }
        }
    }
}

/// Whether a term evaluates to true.
pub open spec fn truth_of(expr: ExprModel, env: Env, interp: Interpretation) -> bool {
    semantics::truth(semantics::eval(expr, env, interp))
}

/// The variables in a list.
pub open spec fn var_set(vars: Seq<ChcVar>) -> Set<VarModel> {
    Set::new(|var: VarModel| exists|i: int| 0 <= i < vars.len() && #[trigger] vars[i]@ == var)
}

/// Whether a list holds a variable.
pub(crate) fn holds_var(vars: &Vec<ChcVar>, var: &ChcVar) -> (held: bool)
    ensures
        held == var_set(vars@).contains(var@),
{
    for i in 0..vars.len()
        invariant
            forall|j: int| 0 <= j < i ==> #[trigger] vars@[j]@ != var@,
    {
        if vars[i].same(var) {
            return true;
        }
    }
    false
}

/// Adds a variable to a list that does not hold it yet.
pub(crate) fn add_var(vars: &mut Vec<ChcVar>, var: &ChcVar)
    ensures
        var_set(final(vars)@) == var_set(old(vars)@).insert(var@),
{
    if !holds_var(vars, var) {
        vars.push(var.duplicate());
        assert(vars@.drop_last() == old(vars)@);
        assert(var_set(vars@) =~= var_set(old(vars)@).insert(var@)) by {
            assert(vars@.last()@ == var@);
            assert forall|own: VarModel| var_set(old(vars)@).contains(own) implies var_set(
                vars@,
            ).contains(own) by {
                let i = choose|i: int| 0 <= i < old(vars)@.len() && #[trigger] old(vars)@[i]@ == own;
                assert(vars@[i]@ == own);
            }
            assert forall|own: VarModel| var_set(vars@).contains(own) && own != var@ implies var_set(
                old(vars)@,
            ).contains(own) by {
                let i = choose|i: int| 0 <= i < vars@.len() && #[trigger] vars@[i]@ == own;
                assert(old(vars)@[i]@ == own);
            }
        }
    } else {
        assert(var_set(vars@) =~= var_set(vars@).insert(var@));
    }
}

/// Adds every variable that occurs in a term.
pub(crate) fn collect_vars(expr: &ChcExpr, vars: &mut Vec<ChcVar>)
    ensures
        forall|var: VarModel| #[trigger]
            var_set(final(vars)@).contains(var) <==> var_set(old(vars)@).contains(var) || occurs(
                var,
                expr@,
            ),
    decreases *expr, 1int,
{
    match expr {
        ChcExpr::Var(var) => {
            add_var(vars, var);
        },
        ChcExpr::Op(_, args) => {
            collect_vars_of_all(args, vars);
        },
        ChcExpr::PredicateApp(_, _, args) => {
            collect_vars_of_all(args, vars);
        },
        ChcExpr::FuncApp(_, _, args) => {
            collect_vars_of_all(args, vars);
        },
        ChcExpr::ConstArray(_, value) => {
            collect_vars(value, vars);
        },
        _ => {},
    }
}

/// Adds every variable that occurs in one of several terms.
pub(crate) fn collect_vars_of_all(exprs: &Vec<Arc<ChcExpr>>, vars: &mut Vec<ChcVar>)
    ensures
        forall|var: VarModel| #[trigger]
            var_set(final(vars)@).contains(var) <==> var_set(old(vars)@).contains(var)
                || occurs_in_any(var, chc::terms_model(exprs@)),
    decreases *exprs, 0int,
{
    let ghost models = chc::terms_model(exprs@);
    for i in 0..exprs.len()
        invariant
            models == chc::terms_model(exprs@),
            decreases_to!(*exprs => exprs@),
            forall|var: VarModel| #[trigger]
                var_set(vars@).contains(var) <==> var_set(old(vars)@).contains(var) || exists|j: int|
                    0 <= j < i && occurs(var, #[trigger] models[j]),
    {
        assert(models[i as int] == exprs@[i as int]@);
        let ghost before = vars@;
        collect_vars(&exprs[i], vars);
        assert forall|var: VarModel| #[trigger] var_set(vars@).contains(var) <==> var_set(
            old(vars)@,
        ).contains(var) || exists|j: int| 0 <= j < i + 1 && occurs(var, #[trigger] models[j]) by {
            assert(var_set(vars@).contains(var) <==> var_set(before).contains(var) || occurs(
                var,
                models[i as int],
            ));
        }
    }
}

} // verus!
