//! Laws of the lowering of rules and of whole verification conditions.
use std::sync::Arc;

use vstd::prelude::*;

use crate::bridge_laws;
use crate::chc;
use crate::chc::{ClauseModel, HeadModel, PredicateModel, SortModel, VarModel};
use crate::error::ErrorModel;
use crate::lowering;
use crate::lowering_laws;
use crate::rewrite;
use crate::semantics;
use crate::semantics::{Env, TermValue};
use crate::text;
use crate::vc::{ChcVc, Expr, ExprValue, OverflowCheck, RelationDecl, Rule, Sort, SortKind};
use crate::vc_semantics;
use crate::vc_semantics::{numeral, shape, supported, World};

verus! {

/// Whether a relation stands at a position and is the last of its name.
pub open spec fn last_named(relations: Seq<RelationDecl>, name: Seq<char>, at: int) -> bool {
    &&& 0 <= at < relations.len()
    &&& relations[at].name@ == name
    &&& forall|i: int| at < i < relations.len() ==> (#[trigger] relations[i]).name@ != name
}

/// A name stands for the last relation that is declared under it, and for none where
/// none is.
pub proof fn law_names_stand_for_the_last_declared(relations: Seq<RelationDecl>, name: Seq<char>)
    requires
        relations.len() <= usize::MAX,
    ensures
        match lowering::lowered_name(relations, name) {
            Ok(id) => last_named(relations, name, id.index as int),
            Err(_) => forall|i: int| 0 <= i < relations.len() ==> (#[trigger] relations[i]).name@
                != name,
        },
    decreases relations.len(),
{
    lemma_declared(relations, name);
}

proof fn lemma_declared(relations: Seq<RelationDecl>, name: Seq<char>)
    ensures
        match lowering::declared_at(relations, name) {
            Some(at) => last_named(relations, name, at as int),
            None => forall|i: int| 0 <= i < relations.len() ==> (#[trigger] relations[i]).name@
                != name,
        },
    decreases relations.len(),
{
    if relations.len() > 0 {
        let front = relations.drop_last();
        lemma_declared(front, name);
        assert forall|i: int| 0 <= i < front.len() implies #[trigger] relations[i] == front[i] by {}
        assert(relations[relations.len() - 1] == relations.last());
    }
}

/// Whether the terms of a rule are typed and its constraints are truth values.
pub open spec fn typed_rule(rule: Rule) -> bool {
    &&& vc_semantics::all_typed(rule.head.args@)
    &&& rule.body.relation matches Some(app) ==> vc_semantics::all_typed(app.args@)
    &&& vc_semantics::all_typed(rule.body.constraints@)
    &&& vc_semantics::all_of(rule.body.constraints@, SortModel::Bool)
}

/// The world with other values of the variables.
pub open spec fn with_env(world: World, env: Env) -> World {
    World { env, ..world }
}

/// Whether a rule derives values of its head from values of its premise: some values of
/// the variables make its constraints true and its terms have those values.
pub open spec fn rule_derives(
    world: World,
    rule: Rule,
    premise: Seq<TermValue>,
    conclusion: Seq<TermValue>,
) -> bool {
    exists|env: Env|
        {
            let here = #[trigger] with_env(world, env);
            &&& here.carries()
            &&& vc_semantics::all_true(here.meanings(rule.body.constraints@))
            &&& rule.body.relation matches Some(app) ==> here.meanings(app.args@) == premise
            &&& here.meanings(rule.head.args@) == conclusion
        }
}

/// Whether a clause with at most one premise derives values of its head from values of
/// its premise.
pub open spec fn clause_derives(
    world: World,
    clause: ClauseModel,
    premise: Seq<TermValue>,
    conclusion: Seq<TermValue>,
) -> bool {
    exists|env: Env|
        {
            let here = #[trigger] with_env(world, env);
            &&& here.carries()
            &&& semantics::satisfies(clause.constraint, env, world.interp)
            &&& clause.atoms.len() == 1 ==> semantics::eval_all(
                clause.atoms[0].args,
                env,
                world.interp,
            ) == premise
            &&& clause.head matches HeadModel::Predicate(head) && semantics::eval_all(
                head.args,
                env,
                world.interp,
            ) == conclusion
        }
}

proof fn lemma_other_env(world: World, env: Env)
    requires
        world.is_usual(),
    ensures
        with_env(world, env).is_usual(),
{
    reveal(World::is_usual);
    let here = with_env(world, env);
    assert forall|op: crate::chc::ChcOp, a: TermValue| #[trigger]
        here.usual_of_one(op, a) == world.usual_of_one(op, a) by {}
    assert forall|op: crate::chc::ChcOp, a: TermValue, b: TermValue| #[trigger]
        here.usual_of_two(op, a, b) == world.usual_of_two(op, a, b) by {}
}

proof fn lemma_fits(world: World)
    requires
        world.carries(),
    ensures
        semantics::env_fits(world.env),
{
    reveal(World::carries);
    assert forall|var: VarModel| semantics::has_sort(#[trigger] (world.env)(var), var.sort) by {
        assert(world.holds(var.sort, (world.env)(var)));
        match var.sort {
            SortModel::BitVec(width) => {
                assert(world.holds(SortModel::BitVec(width), (world.env)(var)));
            },
            _ => {},
        }
    }
}

/// Values of plain sorts may change, those of the others stay.
proof fn lemma_changed_env(world: World, env: Env)
    requires
        world.carries(),
        semantics::env_fits(env),
        forall|var: VarModel|
            !(var.sort is Int || var.sort is BitVec) ==> #[trigger] env(var) == (world.env)(var),
    ensures
        with_env(world, env).carries(),
{
    reveal(World::carries);
    let here = with_env(world, env);
    assert forall|sort: SortModel, value: TermValue| #[trigger] here.holds(sort, value)
        == world.holds(sort, value) by {}
    assert forall|var: VarModel| here.holds(var.sort, #[trigger] (here.env)(var)) by {
        assert(semantics::has_sort(env(var), var.sort));
        assert(world.holds(var.sort, (world.env)(var)));
        match var.sort {
            SortModel::Int => {
                assert(world.holds(SortModel::Int, env(var)));
            },
            SortModel::BitVec(width) => {
                assert(world.holds(SortModel::BitVec(width), env(var)));
            },
            _ => {},
        }
    }
}

/// The constraint of a rule before integer bridges are eliminated.
proof fn lemma_constraint_kept(world: World, constraints: Seq<Arc<Expr>>)
    requires
        world.carries(),
        world.is_usual(),
        vc_semantics::all_typed(constraints),
        vc_semantics::all_of(constraints, SortModel::Bool),
        lowering::lowered_constraint(constraints) is Ok,
    ensures
        semantics::satisfies(
            lowering::lowered_constraint(constraints)->Ok_0,
            world.env,
            world.interp,
        ) <==> vc_semantics::all_true(world.meanings(constraints)),
        lowering::lowered_constraint(constraints)->Ok_0 matches Some(expr) ==> {
            &&& semantics::well_sorted(expr)
            &&& semantics::term_sort(expr) == Some(SortModel::Bool)
        },
{
    let lowered = lowering::lowered_exprs(constraints)->Ok_0;
    lowering_laws::lemma_lists_keep_meaning(world, constraints);
    lowering_laws::lemma_lists_sorted(constraints);
    if lowered.len() > 0 {
        lowering_laws::lemma_conjunction_kept(world, constraints, lowered);
        lowering_laws::lemma_connective_sorted(constraints, lowered);
    } else {
        assert(vc_semantics::all_true(world.meanings(constraints)));
    }
}

proof fn lemma_arguments_kept(world: World, relations: Seq<RelationDecl>, rule: Rule)
    requires
        world.carries(),
        world.is_usual(),
        typed_rule(rule),
        lowering::lowered_rule(relations, rule) is Ok,
    ensures
        ({
            let clause = lowering::lowered_rule(relations, rule)->Ok_0;
            &&& clause.head matches HeadModel::Predicate(head) && semantics::eval_all(
                head.args,
                world.env,
                world.interp,
            ) == world.meanings(rule.head.args@)
            &&& match rule.body.relation {
                Some(app) => clause.atoms.len() == 1 && semantics::eval_all(
                    clause.atoms[0].args,
                    world.env,
                    world.interp,
                ) == world.meanings(app.args@),
                None => clause.atoms.len() == 0,
            }
        }),
{
    lowering_laws::lemma_lists_keep_meaning(world, rule.head.args@);
    lowering_laws::lemma_values_kept(
        world,
        rule.head.args@,
        lowering::lowered_exprs(rule.head.args@)->Ok_0,
    );
    if let Some(app) = rule.body.relation {
        lowering_laws::lemma_lists_keep_meaning(world, app.args@);
        lowering_laws::lemma_values_kept(
            world,
            app.args@,
            lowering::lowered_exprs(app.args@)->Ok_0,
        );
    }
}

/// A lowered rule derives exactly what the submitted rule derives: the same values of
/// the head from the same values of the premise. Its head and its premise are those of
/// the relations that the rule names.
pub proof fn law_rules_derive_the_same(
    world: World,
    relations: Seq<RelationDecl>,
    rule: Rule,
    premise: Seq<TermValue>,
    conclusion: Seq<TermValue>,
)
    requires
        world.is_usual(),
        typed_rule(rule),
        relations.len() <= usize::MAX,
        lowering::lowered_rule(relations, rule) is Ok,
    ensures
        ({
            let clause = lowering::lowered_rule(relations, rule)->Ok_0;
            &&& rule_derives(world, rule, premise, conclusion) <==> clause_derives(
                world,
                clause,
                premise,
                conclusion,
            )
            &&& clause.head matches HeadModel::Predicate(head) && last_named(
                relations,
                rule.head.name@,
                head.predicate.index as int,
            )
            &&& match rule.body.relation {
                Some(app) => clause.atoms.len() == 1 && last_named(
                    relations,
                    app.name@,
                    clause.atoms[0].predicate.index as int,
                ),
                None => clause.atoms.len() == 0,
            }
        }),
{
    let clause = lowering::lowered_rule(relations, rule)->Ok_0;
    law_names_stand_for_the_last_declared(relations, rule.head.name@);
    if let Some(app) = rule.body.relation {
        law_names_stand_for_the_last_declared(relations, app.name@);
    }
    if rule_derives(world, rule, premise, conclusion) {
        lemma_clause_follows(world, relations, rule, premise, conclusion);
    }
    if clause_derives(world, clause, premise, conclusion) {
        lemma_rule_follows(world, relations, rule, premise, conclusion);
    }
}

proof fn lemma_clause_follows(
    world: World,
    relations: Seq<RelationDecl>,
    rule: Rule,
    premise: Seq<TermValue>,
    conclusion: Seq<TermValue>,
)
    requires
        world.is_usual(),
        typed_rule(rule),
        lowering::lowered_rule(relations, rule) is Ok,
        rule_derives(world, rule, premise, conclusion),
    ensures
        clause_derives(
            world,
            lowering::lowered_rule(relations, rule)->Ok_0,
            premise,
            conclusion,
        ),
{
    let clause = lowering::lowered_rule(relations, rule)->Ok_0;
    let constraint = lowering::lowered_constraint(rule.body.constraints@)->Ok_0;
    let args = (clause.head->Predicate_0).args;
    let env = choose|env: Env|
        {
            let here = #[trigger] with_env(world, env);
            &&& here.carries()
            &&& vc_semantics::all_true(here.meanings(rule.body.constraints@))
            &&& rule.body.relation matches Some(app) ==> here.meanings(app.args@) == premise
            &&& here.meanings(rule.head.args@) == conclusion
        };
    let here = with_env(world, env);
    lemma_other_env(world, env);
    lemma_constraint_kept(here, rule.body.constraints@);
    lemma_arguments_kept(here, relations, rule);
    lemma_fits(here);
    let rewritten = constraint matches Some(expr) && rewrite::bridge_free(
        expr,
        clause.atoms,
        args,
    ) is Some;
    if rewritten {
        let expr = constraint->0;
        bridge_laws::law_rewriting_keeps_solutions(expr, clause.atoms, args, env, world.interp);
        let image = bridge_laws::encoded(
            env,
            bridge_laws::rewritten_names(expr),
            bridge_laws::bridge_width(expr),
        );
        lemma_changed_env(here, image);
        assert(with_env(here, image) == with_env(world, image));
        if clause.atoms.len() == 1 {
            assert(semantics::eval_all(clause.atoms[0].args, env, world.interp)
                == semantics::eval_all(clause.atoms[0].args, image, world.interp));
        }
        assert(with_env(world, image).carries());
    } else {
        assert(with_env(world, env).carries());
    }
}

proof fn lemma_rule_follows(
    world: World,
    relations: Seq<RelationDecl>,
    rule: Rule,
    premise: Seq<TermValue>,
    conclusion: Seq<TermValue>,
)
    requires
        world.is_usual(),
        typed_rule(rule),
        lowering::lowered_rule(relations, rule) is Ok,
        clause_derives(
            world,
            lowering::lowered_rule(relations, rule)->Ok_0,
            premise,
            conclusion,
        ),
    ensures
        rule_derives(world, rule, premise, conclusion),
{
    let clause = lowering::lowered_rule(relations, rule)->Ok_0;
    let constraint = lowering::lowered_constraint(rule.body.constraints@)->Ok_0;
    let args = (clause.head->Predicate_0).args;
    let env = choose|env: Env|
        {
            let here = #[trigger] with_env(world, env);
            &&& here.carries()
            &&& semantics::satisfies(clause.constraint, env, world.interp)
            &&& clause.atoms.len() == 1 ==> semantics::eval_all(
                clause.atoms[0].args,
                env,
                world.interp,
            ) == premise
            &&& clause.head matches HeadModel::Predicate(head) && semantics::eval_all(
                head.args,
                env,
                world.interp,
            ) == conclusion
        };
    let here = with_env(world, env);
    lemma_other_env(world, env);
    lemma_fits(here);
    lemma_constraint_kept(here, rule.body.constraints@);
    lemma_arguments_kept(here, relations, rule);
    let rewritten = constraint matches Some(expr) && rewrite::bridge_free(
        expr,
        clause.atoms,
        args,
    ) is Some;
    if rewritten {
        let expr = constraint->0;
        bridge_laws::law_rewriting_adds_no_solutions(expr, clause.atoms, args, env, world.interp);
        let source = bridge_laws::decoded(
            env,
            bridge_laws::rewritten_names(expr),
            bridge_laws::bridge_width(expr),
        );
        lemma_changed_env(here, source);
        let there = with_env(world, source);
        assert(with_env(here, source) == there);
        lemma_other_env(world, source);
        lemma_constraint_kept(there, rule.body.constraints@);
        lemma_arguments_kept(there, relations, rule);
        if clause.atoms.len() == 1 {
            assert(semantics::eval_all(clause.atoms[0].args, env, world.interp)
                == semantics::eval_all(clause.atoms[0].args, source, world.interp));
        }
        assert(there.carries());
    } else {
        assert(with_env(world, env).carries());
    }
}

/// Whether a text is a run of decimal digits.
pub open spec fn is_digits(content: Seq<char>) -> bool {
    content.len() > 0 && forall|i: int|
        0 <= i < content.len() ==> '0' <= #[trigger] content[i] <= '9'
}

/// Whether a text is a numeral: digits behind an optional plus sign.
pub open spec fn is_natural(content: Seq<char>) -> bool {
    is_digits(content) || content.len() > 0 && content[0] == '+' && is_digits(content.skip(1))
}

/// Whether a text is a numeral with an optional sign.
pub open spec fn is_integer(content: Seq<char>) -> bool {
    is_natural(content) || content.len() > 0 && content[0] == '-' && is_digits(content.skip(1))
}

proof fn lemma_digits(content: Seq<char>)
    ensures
        text::digits_value(content) is Some <==> is_digits(content),
    decreases content.len(),
{
    if content.len() == 1 {
        assert(is_digits(content) <==> '0' <= content[0] <= '9');
    } else if content.len() > 1 {
        let front = content.drop_last();
        lemma_digits(front);
        assert(content[content.len() - 1] == content.last());
        if is_digits(content) {
            assert forall|i: int| 0 <= i < front.len() implies '0' <= #[trigger] front[i]
                <= '9' by {
                assert('0' <= content[i] <= '9');
            }
        }
        if is_digits(front) && '0' <= content.last() <= '9' {
            assert forall|i: int| 0 <= i < content.len() implies '0' <= #[trigger] content[i]
                <= '9' by {
                if i < front.len() {
                    assert('0' <= front[i] <= '9');
                }
            }
        }
    }
}

proof fn lemma_numerals(content: Seq<char>)
    ensures
        text::natural_value(content) is Some <==> is_natural(content),
        text::integer_value(content) is Some <==> is_integer(content),
        text::natural_value(content) matches Some(value) ==> value == numeral(content),
        text::integer_value(content) matches Some(value) ==> value == numeral(content),
{
    lemma_digits(content);
    lemma_digits(content.skip(1));
    lowering_laws::law_numerals_are_read_by_place(content);
    if is_digits(content) {
        assert('0' <= content[0] <= '9');
    }
}

/// Whether a Horn-clause problem can hold a submitted term: its numerals are in range,
/// its sorts are supported, its signed overflow predicates and its products are of at
/// most 128 bits, and nothing in it is of an unsupported kind.
pub open spec fn expressible(expr: Expr) -> bool
    decreases expr,
{
    match expr.value {
        ExprValue::BoolConst(_) => true,
        ExprValue::BitVecConst { value, .. } => is_natural(value@) && numeral(value@)
            <= u128::MAX,
        ExprValue::IntConst(value) => is_integer(value@) && i128::MIN <= numeral(value@)
            <= i128::MAX,
        ExprValue::RealConst(value) => is_integer(value@) && i64::MIN <= numeral(value@)
            <= i64::MAX,
        ExprValue::Var { .. } => supported(expr.sort),
        ExprValue::Unary(_, inner) => expressible(*inner),
        ExprValue::Binary(_, left, right) => expressible(*left) && expressible(*right),
        ExprValue::And(args) => all_expressible(args@),
        ExprValue::Or(args) => all_expressible(args@),
        ExprValue::Distinct(args) => args@.len() < 2 || all_expressible(args@),
        ExprValue::Ite { cond, then_expr, else_expr } => expressible(*cond) && expressible(
            *then_expr,
        ) && expressible(*else_expr),
        ExprValue::Store { array, index, value } => expressible(*array) && expressible(*index)
            && expressible(*value),
        ExprValue::ConstArray { index_sort, value } => supported(index_sort) && expressible(*value),
        ExprValue::FuncApp { args, .. } => supported(expr.sort) && all_expressible(args@),
        ExprValue::DatatypeConstructor { args, .. } => supported(expr.sort) && all_expressible(
            args@,
        ),
        ExprValue::DatatypeSelector { operand, .. } => supported(expr.sort) && expressible(
            *operand,
        ),
        ExprValue::NoOverflow(check, left, right) => expressible(*left) && expressible(*right) && (
        check == OverflowCheck::UnsignedAdd || check == OverflowCheck::UnsignedSub || (
        left.sort.kind matches SortKind::BitVec(width) && width.bits() <= 128)),
        ExprValue::NegNoOverflow(inner) => expressible(*inner) && (
        inner.sort.kind matches SortKind::BitVec(width) && width.bits() <= 128),
        ExprValue::Unsupported(_) => false,
    }
}

/// Whether a Horn-clause problem can hold all of several terms.
pub open spec fn all_expressible(exprs: Seq<Arc<Expr>>) -> bool
    decreases exprs,
{
    forall|i: int| 0 <= i < exprs.len() ==> expressible(*#[trigger] exprs[i])
}

spec fn own(expr: Arc<Expr>) -> Expr {
    *expr
}

/// A term is lowered exactly where a Horn-clause problem can hold it.
pub proof fn law_expressible_terms_are_lowered(expr: Expr)
    ensures
        lowering::lowered_expr(expr) is Ok <==> expressible(expr),
    decreases expr, 1nat,
{
    match expr.value {
        ExprValue::BitVecConst { value, .. } => lemma_numerals(value@),
        ExprValue::IntConst(value) => lemma_numerals(value@),
        ExprValue::RealConst(value) => lemma_numerals(value@),
        ExprValue::Var { .. } => lowering_laws::law_sorts_are_kept(expr.sort),
        ExprValue::Unary(_, inner) => law_expressible_terms_are_lowered(own(inner)),
        ExprValue::Binary(_, left, right) => {
            law_expressible_terms_are_lowered(own(left));
            law_expressible_terms_are_lowered(own(right));
        },
        ExprValue::And(args) => lemma_expressible_lists(args@),
        ExprValue::Or(args) => lemma_expressible_lists(args@),
        ExprValue::Distinct(args) => lemma_expressible_lists(args@),
        ExprValue::Ite { cond, then_expr, else_expr } => {
            law_expressible_terms_are_lowered(own(cond));
            law_expressible_terms_are_lowered(own(then_expr));
            law_expressible_terms_are_lowered(own(else_expr));
        },
        ExprValue::Store { array, index, value } => {
            law_expressible_terms_are_lowered(own(array));
            law_expressible_terms_are_lowered(own(index));
            law_expressible_terms_are_lowered(own(value));
        },
        ExprValue::ConstArray { index_sort, value } => {
            lowering_laws::law_sorts_are_kept(index_sort);
            law_expressible_terms_are_lowered(own(value));
        },
        ExprValue::FuncApp { args, .. } => {
            lowering_laws::law_sorts_are_kept(expr.sort);
            lemma_expressible_lists(args@);
        },
        ExprValue::DatatypeConstructor { args, .. } => {
            lowering_laws::law_sorts_are_kept(expr.sort);
            lemma_expressible_lists(args@);
        },
        ExprValue::DatatypeSelector { operand, .. } => {
            lowering_laws::law_sorts_are_kept(expr.sort);
            law_expressible_terms_are_lowered(own(operand));
        },
        ExprValue::NoOverflow(_, left, right) => {
            law_expressible_terms_are_lowered(own(left));
            law_expressible_terms_are_lowered(own(right));
        },
        ExprValue::NegNoOverflow(inner) => law_expressible_terms_are_lowered(own(inner)),
        _ => {},
    }
}

proof fn lemma_expressible_lists(exprs: Seq<Arc<Expr>>)
    ensures
        lowering::lowered_exprs(exprs) is Ok <==> all_expressible(exprs),
    decreases exprs, 0nat,
{
    if exprs.len() > 0 {
        let front = exprs.drop_last();
        let last = exprs[exprs.len() - 1];
        lemma_expressible_lists(front);
        law_expressible_terms_are_lowered(own(last));
        if all_expressible(exprs) {
            assert forall|i: int| 0 <= i < front.len() implies expressible(
                *#[trigger] front[i],
            ) by {
                assert(expressible(*exprs[i]));
            }
            assert(expressible(*exprs[exprs.len() - 1]));
        }
        if all_expressible(front) && expressible(own(last)) {
            assert forall|i: int| 0 <= i < exprs.len() implies expressible(
                *#[trigger] exprs[i],
            ) by {
                if i < front.len() {
                    assert(expressible(*front[i]));
                }
            }
        }
    }
}

/// Whether a rule can be lowered: the relations that it names are declared and its
/// terms are expressible.
pub open spec fn expressible_rule(relations: Seq<RelationDecl>, rule: Rule) -> bool {
    &&& exists|at: int| #[trigger] last_named(relations, rule.head.name@, at)
    &&& all_expressible(rule.head.args@)
    &&& rule.body.relation matches Some(app) ==> (exists|at: int| #[trigger]
        last_named(relations, app.name@, at)) && all_expressible(app.args@)
    &&& all_expressible(rule.body.constraints@)
}

proof fn lemma_rule_expressible(relations: Seq<RelationDecl>, rule: Rule)
    requires
        relations.len() <= usize::MAX,
    ensures
        lowering::lowered_rule(relations, rule) is Ok <==> expressible_rule(relations, rule),
{
    lemma_name_expressible(relations, rule.head.name@);
    lemma_expressible_lists(rule.head.args@);
    lemma_expressible_lists(rule.body.constraints@);
    if let Some(app) = rule.body.relation {
        lemma_name_expressible(relations, app.name@);
        lemma_expressible_lists(app.args@);
    }
}

proof fn lemma_name_expressible(relations: Seq<RelationDecl>, name: Seq<char>)
    requires
        relations.len() <= usize::MAX,
    ensures
        lowering::lowered_name(relations, name) is Ok <==> exists|at: int| #[trigger]
            last_named(relations, name, at),
{
    law_names_stand_for_the_last_declared(relations, name);
    if let Ok(id) = lowering::lowered_name(relations, name) {
        assert(last_named(relations, name, id.index as int));
    }
}

proof fn lemma_rules_at(relations: Seq<RelationDecl>, rules: Seq<Rule>)
    requires
        relations.len() <= usize::MAX,
    ensures
        lowering::lowered_rules(relations, rules) is Ok <==> forall|i: int|
            0 <= i < rules.len() ==> expressible_rule(relations, #[trigger] rules[i]),
        lowering::lowered_rules(relations, rules) matches Ok(clauses) ==> clauses.len()
            == rules.len() && forall|i: int|
            0 <= i < rules.len() ==> lowering::lowered_rule(relations, #[trigger] rules[i]) == Ok::<
                ClauseModel,
                ErrorModel,
            >(clauses[i]),
    decreases rules.len(),
{
    if rules.len() > 0 {
        let front = rules.drop_last();
        let last = rules[rules.len() - 1];
        assert(last == rules.last());
        lemma_rules_at(relations, front);
        lemma_rule_expressible(relations, last);
        assert forall|i: int| 0 <= i < front.len() implies #[trigger] front[i] == rules[i] by {}
        if forall|i: int|
            0 <= i < rules.len() ==> expressible_rule(relations, #[trigger] rules[i]) {
            assert forall|i: int| 0 <= i < front.len() implies expressible_rule(
                relations,
                #[trigger] front[i],
            ) by {
                assert(expressible_rule(relations, rules[i]));
            }
            assert(expressible_rule(relations, rules[rules.len() - 1]));
        }
        if forall|i: int|
            0 <= i < front.len() ==> expressible_rule(relations, #[trigger] front[i]) {
            assert forall|i: int| 0 <= i < rules.len() - 1 implies expressible_rule(
                relations,
                #[trigger] rules[i],
            ) by {
                assert(expressible_rule(relations, front[i]));
            }
        }
        if let Ok(clauses) = lowering::lowered_rules(relations, rules) {
            let before = lowering::lowered_rules(relations, front)->Ok_0;
            assert forall|i: int| 0 <= i < rules.len() implies lowering::lowered_rule(
                relations,
                #[trigger] rules[i],
            ) == Ok::<ClauseModel, ErrorModel>(clauses[i]) by {
                if i < front.len() {
                    assert(front[i] == rules[i]);
                    assert(clauses[i] == before[i]);
                }
            }
        }
    }
}

/// Whether all of several sorts are supported.
pub open spec fn all_supported(sorts: Seq<Sort>) -> bool {
    forall|i: int| 0 <= i < sorts.len() ==> supported(#[trigger] sorts[i])
}

proof fn lemma_sorts_at(sorts: Seq<Sort>)
    ensures
        lowering::lowered_sorts(sorts) is Ok <==> all_supported(sorts),
        lowering::lowered_sorts(sorts) matches Ok(lowered) ==> lowered.len() == sorts.len()
            && forall|i: int|
            0 <= i < sorts.len() ==> #[trigger] lowered[i] == shape(sorts[i]),
    decreases sorts.len(),
{
    if sorts.len() > 0 {
        let front = sorts.drop_last();
        let last = sorts[sorts.len() - 1];
        assert(last == sorts.last());
        lemma_sorts_at(front);
        lowering_laws::law_sorts_are_kept(last);
        assert forall|i: int| 0 <= i < front.len() implies #[trigger] front[i] == sorts[i] by {}
        if all_supported(sorts) {
            assert forall|i: int| 0 <= i < front.len() implies supported(#[trigger] front[i]) by {
                assert(supported(sorts[i]));
            }
            assert(supported(sorts[sorts.len() - 1]));
        }
        if all_supported(front) && supported(last) {
            assert forall|i: int| 0 <= i < sorts.len() implies supported(#[trigger] sorts[i]) by {
                if i < front.len() {
                    assert(supported(front[i]));
                }
            }
        }
    }
}

/// Whether a predicate is that of a relation: of its name and of its argument sorts.
pub open spec fn is_relation(predicate: PredicateModel, relation: RelationDecl) -> bool {
    &&& predicate.name == relation.name@
    &&& predicate.arg_sorts.len() == relation.arg_sorts@.len()
    &&& forall|i: int|
        0 <= i < relation.arg_sorts@.len() ==> #[trigger] predicate.arg_sorts[i] == shape(
            relation.arg_sorts@[i],
        )
}

proof fn lemma_relations_at(relations: Seq<RelationDecl>)
    ensures
        lowering::lowered_relations(relations) is Ok <==> forall|i: int|
            0 <= i < relations.len() ==> all_supported((#[trigger] relations[i]).arg_sorts@),
        lowering::lowered_relations(relations) matches Ok(predicates) ==> predicates.len()
            == relations.len() && forall|i: int|
            0 <= i < relations.len() ==> is_relation(#[trigger] predicates[i], relations[i]),
    decreases relations.len(),
{
    if relations.len() > 0 {
        let front = relations.drop_last();
        let last = relations[relations.len() - 1];
        assert(last == relations.last());
        lemma_relations_at(front);
        lemma_sorts_at(last.arg_sorts@);
        assert forall|i: int| 0 <= i < front.len() implies #[trigger] front[i] == relations[i] by {}
        if forall|i: int|
            0 <= i < relations.len() ==> all_supported((#[trigger] relations[i]).arg_sorts@) {
            assert forall|i: int| 0 <= i < front.len() implies all_supported(
                (#[trigger] front[i]).arg_sorts@,
            ) by {
                assert(all_supported(relations[i].arg_sorts@));
            }
            assert(all_supported(relations[relations.len() - 1].arg_sorts@));
        }
        if forall|i: int|
            0 <= i < front.len() ==> all_supported((#[trigger] front[i]).arg_sorts@) {
            assert forall|i: int| 0 <= i < relations.len() - 1 implies all_supported(
                (#[trigger] relations[i]).arg_sorts@,
            ) by {
                assert(all_supported(front[i].arg_sorts@));
            }
        }
    }
}

/// Whether a verification condition can be lowered: its sorts are supported, its rules
/// are expressible, and its query target is declared, without arguments.
pub open spec fn expressible_vc(vc: ChcVc) -> bool {
    &&& forall|i: int|
        0 <= i < vc.relations@.len() ==> all_supported((#[trigger] vc.relations@[i]).arg_sorts@)
    &&& forall|i: int|
        0 <= i < vc.rules@.len() ==> expressible_rule(vc.relations@, #[trigger] vc.rules@[i])
    &&& exists|at: int| #[trigger]
        last_named(vc.relations@, vc.query_target@, at) && vc.relations@[at].arg_sorts@.len() == 0
}

proof fn lemma_one_last(relations: Seq<RelationDecl>, name: Seq<char>, one: int, other: int)
    requires
        last_named(relations, name, one),
        last_named(relations, name, other),
    ensures
        one == other,
{
    if one < other {
        assert(relations[other].name@ != name);
    }
    if other < one {
        assert(relations[one].name@ != name);
    }
}

/// A verification condition is lowered exactly where a Horn-clause problem can hold
/// it. The problem has one predicate per relation and one clause per rule, in order,
/// and one more clause which asks whether the query target is derivable: it derives
/// falsity from the target alone.
pub proof fn law_conditions_are_lowered_whole(vc: ChcVc)
    requires
        vc.relations@.len() <= usize::MAX,
    ensures
        lowering::lowered_vc(vc) is Ok <==> expressible_vc(vc),
        lowering::lowered_vc(vc) matches Ok(problem) ==> {
            &&& problem.predicates.len() == vc.relations@.len()
            &&& forall|i: int|
                0 <= i < vc.relations@.len() ==> is_relation(
                    #[trigger] problem.predicates[i],
                    vc.relations@[i],
                )
            &&& problem.clauses.len() == vc.rules@.len() + 1
            &&& forall|i: int|
                0 <= i < vc.rules@.len() ==> lowering::lowered_rule(
                    vc.relations@,
                    #[trigger] vc.rules@[i],
                ) == Ok::<ClauseModel, ErrorModel>(problem.clauses[i])
            &&& problem.clauses.last().head == HeadModel::False
            &&& problem.clauses.last().constraint is None
            &&& problem.clauses.last().atoms.len() == 1
            &&& problem.clauses.last().atoms[0].args.len() == 0
            &&& last_named(
                vc.relations@,
                vc.query_target@,
                problem.clauses.last().atoms[0].predicate.index as int,
            )
            &&& !problem.fixedpoint_format && !problem.stripped_body_forall
            &&& !problem.has_datatype_defs && !problem.has_action_decomposition
        },
{
    let relations = vc.relations@;
    lemma_relations_at(relations);
    lemma_rules_at(relations, vc.rules@);
    law_names_stand_for_the_last_declared(relations, vc.query_target@);
    lemma_name_expressible(relations, vc.query_target@);
    if lowering::lowered_name(relations, vc.query_target@) is Ok
        && lowering::lowered_relations(relations) is Ok {
        let id = lowering::lowered_name(relations, vc.query_target@)->Ok_0;
        let at = id.index as int;
        let predicates = lowering::lowered_relations(relations)->Ok_0;
        assert(is_relation(predicates[at], relations[at]));
        assert forall|other: int| #[trigger]
            last_named(relations, vc.query_target@, other) implies other == at by {
            lemma_one_last(relations, vc.query_target@, at, other);
        }
    }
    if let Ok(problem) = lowering::lowered_vc(vc) {
        let front = lowering::lowered_rules(relations, vc.rules@)->Ok_0;
        assert forall|i: int| 0 <= i < vc.rules@.len() implies lowering::lowered_rule(
            relations,
            #[trigger] vc.rules@[i],
        ) == Ok::<ClauseModel, ErrorModel>(problem.clauses[i]) by {
            assert(problem.clauses[i] == front[i]);
        }
    }
}

} // verus!
