//! Parts of Horn-clause terms.
use vstd::prelude::*;

use crate::chc::{ExprModel, VarModel};
use crate::terms;

verus! {

/// Whether a term is part of another, or that term itself.
pub open spec fn part_of(part: ExprModel, expr: ExprModel) -> bool
    decreases expr,
{
    part == expr || match expr {
        ExprModel::Op(_, args) => exists|i: int|
            0 <= i < args.len() && part_of(part, #[trigger] args[i]),
        ExprModel::PredicateApp(_, _, args) => exists|i: int|
            0 <= i < args.len() && part_of(part, #[trigger] args[i]),
        ExprModel::FuncApp(_, _, args) => exists|i: int|
            0 <= i < args.len() && part_of(part, #[trigger] args[i]),
        ExprModel::ConstArray(_, value) => part_of(part, *value),
        _ => false,
    }
}

/// The operands of a term, where it is applied to some.
pub open spec fn operands(expr: ExprModel) -> Seq<ExprModel> {
    match expr {
        ExprModel::Op(_, args) => args,
        ExprModel::PredicateApp(_, _, args) => args,
        ExprModel::FuncApp(_, _, args) => args,
        ExprModel::ConstArray(_, value) => seq![*value],
        _ => Seq::empty(),
    }
}

/// A variable occurs in a term exactly where it is a part of the term.
pub proof fn law_occurring_variables_are_parts(var: VarModel, expr: ExprModel)
    ensures
        terms::occurs(var, expr) <==> part_of(ExprModel::Var(var), expr),
    decreases expr,
{
    match expr {
        ExprModel::Op(_, args) => {
            lemma_occurrences(var, args);
        },
        ExprModel::PredicateApp(_, _, args) => {
            lemma_occurrences(var, args);
        },
        ExprModel::FuncApp(_, _, args) => {
            lemma_occurrences(var, args);
        },
        ExprModel::ConstArray(_, value) => {
            law_occurring_variables_are_parts(var, *value);
        },
        _ => {},
    }
}

proof fn lemma_occurrences(var: VarModel, exprs: Seq<ExprModel>)
    ensures
        terms::occurs_in_any(var, exprs) <==> exists|i: int|
            0 <= i < exprs.len() && part_of(ExprModel::Var(var), #[trigger] exprs[i]),
    decreases exprs,
{
    assert forall|i: int| 0 <= i < exprs.len() implies (terms::occurs(
        var,
        #[trigger] exprs[i],
    ) <==> part_of(ExprModel::Var(var), exprs[i])) by {
        law_occurring_variables_are_parts(var, exprs[i]);
    }
}

/// A proper part of a term has fewer nodes than the term, and a term without operands has
/// one node.
pub proof fn law_parts_have_fewer_nodes(part: ExprModel, expr: ExprModel)
    requires
        part_of(part, expr),
    ensures
        part != expr ==> terms::node_count(part) < terms::node_count(expr),
        operands(expr).len() == 0 ==> terms::node_count(expr) == 1,
        operands(expr).len() == 1 ==> terms::node_count(expr) == 1 + terms::node_count(
            operands(expr)[0],
        ),
    decreases expr,
{
    if operands(expr).len() == 0 {
        assert(terms::total_nodes(operands(expr)) == 0);
    }
    if operands(expr).len() == 1 {
        let args = operands(expr);
        assert(terms::total_nodes(args.drop_last()) == 0);
        assert(terms::total_nodes(args) == terms::node_count(args[0]));
    }
    if part != expr {
        match expr {
            ExprModel::Op(_, args) => {
                let i = choose|i: int| 0 <= i < args.len() && part_of(part, #[trigger] args[i]);
                law_parts_have_fewer_nodes(part, args[i]);
                lemma_total_covers(args, i);
            },
            ExprModel::PredicateApp(_, _, args) => {
                let i = choose|i: int| 0 <= i < args.len() && part_of(part, #[trigger] args[i]);
                law_parts_have_fewer_nodes(part, args[i]);
                lemma_total_covers(args, i);
            },
            ExprModel::FuncApp(_, _, args) => {
                let i = choose|i: int| 0 <= i < args.len() && part_of(part, #[trigger] args[i]);
                law_parts_have_fewer_nodes(part, args[i]);
                lemma_total_covers(args, i);
            },
            ExprModel::ConstArray(_, value) => {
                law_parts_have_fewer_nodes(part, *value);
            },
            _ => {},
        }
    }
}

proof fn lemma_total_covers(exprs: Seq<ExprModel>, i: int)
    requires
        0 <= i < exprs.len(),
    ensures
        terms::node_count(exprs[i]) <= terms::total_nodes(exprs),
    decreases exprs.len(),
{
    if i < exprs.len() - 1 {
        lemma_total_covers(exprs.drop_last(), i);
    }
}

} // verus!
