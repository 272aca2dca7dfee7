//! Rewriting of bridged constraints into bit-vector constraints.
use std::sync::Arc;

use vstd::arithmetic::power2;
use vstd::prelude::*;

use crate::bridge;
use crate::bridge::{
    admissible_names, holds_name, is_int_sort, match_signed_decode, match_signed_decode_term,
    power_of_two, single_bridge_width, SignedDecodeParts,
};
use crate::chc;
use crate::chc::{op1, op2};
use crate::chc::{AtomModel, ClauseBody, PredicateAtom, ChcExpr, ChcOp, ChcSort, ChcVar, ExprModel, SortModel, VarModel};
use crate::semantics;
use crate::shared::{share, SharedCache};
use crate::terms;
use crate::terms::top_level_conjuncts;

verus! {

/// The terms, where there are any, as their models.
pub open spec fn option_models(exprs: Option<Vec<Arc<ChcExpr>>>) -> Option<Seq<ExprModel>> {
    match exprs {
        Some(exprs) => Some(chc::terms_model(exprs@)),
        None => None,
    }
}

/// Computes the bit-vector images of terms, each shared term once.
struct BridgeRewriter {
    width: u32,
    modulus: i128,
    half: i128,
    names: Vec<String>,
    memo: SharedCache<ChcExpr, ChcExpr>,
}

impl BridgeRewriter {
    spec fn target(&self, expr: ExprModel) -> Option<ExprModel> {
        bridge::image(expr, self.width, bridge::name_set(self.names@))
    }

    spec fn wf(&self) -> bool {
        &&& 1 <= self.width <= bridge::MAX_BRIDGE_WIDTH
        &&& self.modulus == power2::pow2(self.width as nat)
        &&& self.half == power2::pow2((self.width - 1) as nat)
        &&& forall|key: ChcExpr, value: ChcExpr| #[trigger]
            self.memo.records(key, value) ==> self.target(key@) == Some(value@)
    }

    /// Only the remembered results may differ.
    spec fn same_task(&self, other: &BridgeRewriter) -> bool {
        &&& self.width == other.width
        &&& self.names@ == other.names@
    }

    fn new(width: u32, names: Vec<String>) -> (rewriter: BridgeRewriter)
        requires
            1 <= width <= bridge::MAX_BRIDGE_WIDTH,
        ensures
            rewriter.wf(),
            rewriter.width == width,
            rewriter.names@ == names@,
    {
        BridgeRewriter {
            width,
            modulus: power_of_two(width),
            half: power_of_two(width - 1),
            names,
            memo: SharedCache::new(),
        }
    }

    /// The two's-complement pattern of an integer at the rewriting width.
    fn pattern_literal(&self, number: i128) -> (expr: Arc<ChcExpr>)
        requires
            self.wf(),
        ensures
            expr@ == bridge::pattern_literal(number as int, self.width),
    {
        proof {
            power2::lemma_pow2_pos(self.width as nat);
            vstd::arithmetic::div_mod::lemma_mod_bound(number as int, self.modulus as int);
        }
        let pattern: i128 = number.checked_rem_euclid(self.modulus).unwrap();
        Arc::new(ChcExpr::BitVec(pattern as u128, self.width))
    }

    /// The bit-vector variable that stands for an integer variable.
    fn image_var(&self, name: &String) -> (expr: Arc<ChcExpr>)
        ensures
            expr@ == bridge::image_var(name@, self.width),
    {
        Arc::new(ChcExpr::Var(ChcVar::new(name.clone(), ChcSort::BitVec(self.width))))
    }

    fn rewrite_arc(&mut self, expr: &Arc<ChcExpr>) -> (rewritten: Option<Arc<ChcExpr>>)
        requires
            old(self).wf(),
        ensures
            final(self).wf(),
            final(self).same_task(old(self)),
            chc::option_model(rewritten) == old(self).target(expr@),
        decreases **expr, 2int,
    {
        match self.memo.lookup(expr) {
            Some(known) => {
                return Some(known);
            },
            None => {},
        }
        let rewritten = self.rewrite_node(expr);
        match &rewritten {
            Some(image) => {
                self.memo.remember(expr, image);
            },
            None => {},
        }
        rewritten
    }

    fn rewrite_args(&mut self, args: &Vec<Arc<ChcExpr>>) -> (rewritten: Option<
        Vec<Arc<ChcExpr>>,
    >)
        requires
            old(self).wf(),
        ensures
            final(self).wf(),
            final(self).same_task(old(self)),
            option_models(rewritten) == bridge::image_all(
                chc::terms_model(args@),
                old(self).width,
                bridge::name_set(old(self).names@),
            ),
        decreases *args, 0int,
    {
        let mut images: Vec<Arc<ChcExpr>> = Vec::new();
        let ghost models = chc::terms_model(args@);
        for i in 0..args.len()
            invariant
                self.wf(),
                self.same_task(old(self)),
                models == chc::terms_model(args@),
                decreases_to!(*args => args@),
                images@.len() == i,
                forall|j: int|
                    0 <= j < i ==> old(self).target(#[trigger] models[j]) == Some(images@[j]@),
        {
            assert(models[i as int] == args@[i as int]@);
            match self.rewrite_arc(&args[i]) {
                Some(image) => {
                    images.push(image);
                },
                None => {
                    assert(old(self).target(models[i as int]) is None);
                    return None;
                },
            }
        }
        proof {
            assert forall|j: int| 0 <= j < models.len() implies bridge::image(
                #[trigger] models[j],
                old(self).width,
                bridge::name_set(old(self).names@),
            ) is Some by {
                assert(old(self).target(models[j]) == Some(images@[j]@));
            }
            let expected = bridge::image_all(
                models,
                old(self).width,
                bridge::name_set(old(self).names@),
            )->0;
            assert forall|j: int| 0 <= j < models.len() implies #[trigger] expected[j]
                == chc::terms_model(images@)[j] by {
                assert(old(self).target(models[j]) == Some(images@[j]@));
            }
            assert(chc::terms_model(images@) =~= expected);
        }
        Some(images)
    }

    /// The application of `op` to the images of the operands.
    fn rewrite_application(&mut self, op: ChcOp, args: &Vec<Arc<ChcExpr>>) -> (rewritten: Option<
        Arc<ChcExpr>,
    >)
        requires
            old(self).wf(),
        ensures
            final(self).wf(),
            final(self).same_task(old(self)),
            chc::option_model(rewritten) == match bridge::image_all(
                chc::terms_model(args@),
                old(self).width,
                bridge::name_set(old(self).names@),
            ) {
                Some(images) => Some(ExprModel::Op(op, images)),
                None => None,
            },
        decreases *args, 1int,
    {
        match self.rewrite_args(args) {
            Some(images) => Some(Arc::new(ChcExpr::Op(op, images))),
            None => None,
        }
    }

    /// The conditional that a pinned signed decode becomes.
    fn rewrite_signed_decode(&mut self, parts: &SignedDecodeParts) -> (rewritten: Option<
        Arc<ChcExpr>,
    >)
        requires
            old(self).wf(),
        ensures
            final(self).wf(),
            final(self).same_task(old(self)),
            chc::option_model(rewritten) == match old(self).target(parts.bv_term@) {
                Some(bits) => Some(
                    bridge::decode_image(bits, parts.var_name@, old(self).width, parts.order),
                ),
                None => None,
            },
        decreases *parts.bv_term, 3int,
    {
        let bits = match self.rewrite_arc(&parts.bv_term) {
            Some(bits) => bits,
            None => {
                return None;
            },
        };
        let image = self.image_var(&parts.var_name);
        let top: u32 = self.width - 1;
        let sign_bit = op1(ChcOp::BvExtract(top, top), share(&bits));
        let one_bit = Arc::new(ChcExpr::BitVec(1, 1));
        let cond = equation(&one_bit, &sign_bit, parts.order.cond_literal_first);
        let then_branch = equation(&image, &bits, parts.order.then_var_first);
        let else_branch = equation(&image, &bits, parts.order.else_var_first);
        let mut args: Vec<Arc<ChcExpr>> = Vec::new();
        args.push(cond);
        args.push(then_branch);
        args.push(else_branch);
        proof {
            chc::lemma_model_of_three(args@);
        }
        Some(Arc::new(ChcExpr::Op(ChcOp::Ite, args)))
    }

    fn rewrite_node(&mut self, expr: &ChcExpr) -> (rewritten: Option<Arc<ChcExpr>>)
        requires
            old(self).wf(),
        ensures
            final(self).wf(),
            final(self).same_task(old(self)),
            chc::option_model(rewritten) == old(self).target(expr@),
        decreases *expr, 1int,
    {
        match expr {
            ChcExpr::Bool(_) => Some(Arc::new(expr.duplicate())),
            ChcExpr::BitVec(_, _) => Some(Arc::new(expr.duplicate())),
            ChcExpr::Int(number) => {
                if -self.half <= *number && *number < self.half {
                    Some(self.pattern_literal(*number))
                } else {
                    None
                }
            },
            ChcExpr::Var(var) => match &var.sort {
                ChcSort::Bool => Some(Arc::new(expr.duplicate())),
                ChcSort::BitVec(_) => Some(Arc::new(expr.duplicate())),
                ChcSort::Int => if holds_name(&self.names, &var.name) {
                    Some(self.image_var(&var.name))
                } else {
                    None
                },
                _ => None,
            },
            ChcExpr::Op(op, args) => {
                assert(chc::terms_model(args@).len() == args@.len());
                match op {
                    ChcOp::Ite => self.rewrite_conditional(expr, args),
                    ChcOp::Int2Bv(width) => {
                        if *width != self.width || args.len() != 1 {
                            return None;
                        }
                        assert(chc::terms_model(args@)[0] == args@[0]@);
                        match &*args[0] {
                            ChcExpr::Int(number) => Some(self.pattern_literal(*number)),
                            ChcExpr::Var(var) => match &var.sort {
                                ChcSort::Int => if holds_name(&self.names, &var.name) {
                                    Some(self.image_var(&var.name))
                                } else {
                                    None
                                },
                                _ => None,
                            },
                            _ => None,
                        }
                    },
                    _ => match image_operator(*op, args) {
                        Some(image_op) => self.rewrite_application(image_op, args),
                        None => None,
                    },
                }
            },
            _ => None,
        }
    }

    fn rewrite_conditional(&mut self, expr: &ChcExpr, args: &Vec<Arc<ChcExpr>>) -> (rewritten:
        Option<Arc<ChcExpr>>)
        requires
            old(self).wf(),
            expr@ == ExprModel::Op(ChcOp::Ite, chc::terms_model(args@)),
            decreases_to!(*expr => *args),
        ensures
            final(self).wf(),
            final(self).same_task(old(self)),
            chc::option_model(rewritten) == old(self).target(expr@),
        decreases *expr, 0int,
    {
        match match_signed_decode(expr, self.width) {
            Some(parts) => {
                if holds_name(&self.names, &parts.var_name) {
                    return self.rewrite_signed_decode(&parts);
                }
            },
            None => {},
        }
        match match_signed_decode_term(expr, self.width) {
            Some(bits) => {
                return self.rewrite_arc(&bits);
            },
            None => {},
        }
        if args.len() != 3 {
            return None;
        }
        self.rewrite_application(ChcOp::Ite, args)
    }
}

/// An equality, its first operand written second unless `in_order`.
fn equation(left: &Arc<ChcExpr>, right: &Arc<ChcExpr>, in_order: bool) -> (expr: Arc<ChcExpr>)
    ensures
        expr@ == bridge::equation(left@, right@, in_order),
{
    if in_order {
        op2(ChcOp::Eq, share(left), share(right))
    } else {
        op2(ChcOp::Eq, share(right), share(left))
    }
}

/// The operator that the image of an application carries, where its operands
/// are imaged one by one.
fn image_operator(op: ChcOp, args: &Vec<Arc<ChcExpr>>) -> (found: Option<ChcOp>)
    requires
        !(op is Ite),
    ensures
        found == bridge::image_op(op, chc::terms_model(args@)),
{
    assert(chc::terms_model(args@).len() == args@.len());
    match op {
        ChcOp::Not
        | ChcOp::And
        | ChcOp::Or
        | ChcOp::Implies
        | ChcOp::Iff
        | ChcOp::BvAdd
        | ChcOp::BvSub
        | ChcOp::BvMul
        | ChcOp::BvUDiv
        | ChcOp::BvURem
        | ChcOp::BvSDiv
        | ChcOp::BvSRem
        | ChcOp::BvSMod
        | ChcOp::BvAnd
        | ChcOp::BvOr
        | ChcOp::BvXor
        | ChcOp::BvNand
        | ChcOp::BvNor
        | ChcOp::BvXnor
        | ChcOp::BvNot
        | ChcOp::BvNeg
        | ChcOp::BvShl
        | ChcOp::BvLShr
        | ChcOp::BvAShr
        | ChcOp::BvComp
        | ChcOp::BvConcat
        | ChcOp::BvExtract(_, _)
        | ChcOp::BvZeroExtend(_)
        | ChcOp::BvSignExtend(_)
        | ChcOp::BvRotateLeft(_)
        | ChcOp::BvRotateRight(_)
        | ChcOp::BvRepeat(_) => if args.len() > 0 {
            Some(op)
        } else {
            None
        },
        ChcOp::BvULt
        | ChcOp::BvULe
        | ChcOp::BvUGt
        | ChcOp::BvUGe
        | ChcOp::BvSLt
        | ChcOp::BvSLe
        | ChcOp::BvSGt
        | ChcOp::BvSGe => if args.len() == 2 {
            Some(op)
        } else {
            None
        },
        ChcOp::Eq | ChcOp::Ne => {
            if args.len() != 2 {
                return None;
            }
            proof {
                chc::lemma_model_of_two(args@);
            }
            match (args[0].sort(), args[1].sort()) {
                (Some(left), Some(right)) => {
                    let plain = match left {
                        ChcSort::Bool | ChcSort::Int | ChcSort::BitVec(_) => true,
                        _ => false,
                    };
                    if plain && left.same(&right) {
                        Some(op)
                    } else {
                        None
                    }
                },
                _ => None,
            }
        },
        ChcOp::Lt | ChcOp::Le | ChcOp::Gt | ChcOp::Ge => {
            if args.len() != 2 {
                return None;
            }
            proof {
                chc::lemma_model_of_two(args@);
            }
            let ghost models = chc::terms_model(args@);
            assert(models[0] == args@[0]@ && models[1] == args@[1]@);
            if !is_int_sort(&args[0].sort()) || !is_int_sort(&args[1].sort()) {
                assert(!semantics::all_of_sort(models, SortModel::Int)) by {
                    assert(semantics::term_sort(models[0]) != Some(SortModel::Int)
                        || semantics::term_sort(models[1]) != Some(SortModel::Int));
                }
                return None;
            }
            assert(semantics::all_of_sort(models, SortModel::Int));
            match op {
                ChcOp::Lt => Some(ChcOp::BvSLt),
                ChcOp::Le => Some(ChcOp::BvSLe),
                ChcOp::Gt => Some(ChcOp::BvSGt),
                _ => Some(ChcOp::BvSGe),
            }
        },
        _ => None,
    }
}

/// Whether a variable occurs in the arguments of the head or of a body predicate.
pub open spec fn occurs_in_arguments(
    var: VarModel,
    atoms: Seq<AtomModel>,
    head_args: Seq<ExprModel>,
) -> bool {
    ||| terms::occurs_in_any(var, head_args)
    ||| exists|i: int|
        0 <= i < atoms.len() && terms::occurs_in_any(var, (#[trigger] atoms[i]).args)
}

/// Whether giving the named variables another sort captures no other variable:
/// in the constraint they are integers throughout, and no argument mentions them.
pub open spec fn capture_free(
    names: Set<Seq<char>>,
    constraint: ExprModel,
    atoms: Seq<AtomModel>,
    head_args: Seq<ExprModel>,
) -> bool {
    forall|var: VarModel| #[trigger]
        names.contains(var.name) ==> {
            &&& terms::occurs(var, constraint) ==> var.sort is Int
            &&& !occurs_in_arguments(var, atoms, head_args)
        }
}

/// The bit-vector constraint that a bridged constraint becomes; `None` where it
/// is left alone.
pub open spec fn bridge_free(
    constraint: ExprModel,
    atoms: Seq<AtomModel>,
    head_args: Seq<ExprModel>,
) -> Option<ExprModel> {
    if exists|width: u32| bridge::is_bridge_width(constraint, width) {
        let width = choose|width: u32| bridge::is_bridge_width(constraint, width);
        let names = bridge::admissible(terms::conjunct_leaves(constraint), width);
        if capture_free(names, constraint, atoms, head_args) {
            bridge::image(constraint, width, names)
        } else {
            None
        }
    } else {
        None
    }
}

/// Whether the named variables can be given another sort.
fn is_capture_free(
    names: &Vec<String>,
    constraint: &ChcExpr,
    atoms: &Vec<PredicateAtom>,
    head_args: &Vec<Arc<ChcExpr>>,
) -> (free: bool)
    ensures
        free == capture_free(
            bridge::name_set(names@),
            constraint@,
            chc::atoms_model(atoms@),
            chc::terms_model(head_args@),
        ),
{
    let ghost set = bridge::name_set(names@);
    let ghost heads = chc::terms_model(head_args@);
    let ghost models = chc::atoms_model(atoms@);
    let mut own: Vec<ChcVar> = Vec::new();
    terms::collect_vars(constraint, &mut own);
    for i in 0..own.len()
        invariant
            set == bridge::name_set(names@),
            forall|j: int|
                0 <= j < i ==> (set.contains((#[trigger] own@[j])@.name) ==> own@[j]@.sort is Int),
            forall|var: VarModel| #[trigger]
                terms::var_set(own@).contains(var) <==> terms::occurs(var, constraint@),
    {
        let is_int = match &own[i].sort {
            ChcSort::Int => true,
            _ => false,
        };
        if !is_int && holds_name(names, &own[i].name) {
            let ghost var = own@[i as int]@;
            assert(terms::var_set(own@).contains(var));
            assert(set.contains(var.name) && terms::occurs(var, constraint@) && !(var.sort is Int));
            return false;
        }
    }
    let mut used: Vec<ChcVar> = Vec::new();
    for i in 0..atoms.len()
        invariant
            models == chc::atoms_model(atoms@),
            forall|var: VarModel| #[trigger]
                terms::var_set(used@).contains(var) <==> exists|j: int|
                    0 <= j < i && terms::occurs_in_any(var, (#[trigger] models[j]).args),
    {
        let ghost before = used@;
        terms::collect_vars_of_all(&atoms[i].args, &mut used);
        assert forall|var: VarModel| #[trigger] terms::var_set(used@).contains(var) <==> exists|
            j: int,
        |
            0 <= j < i + 1 && terms::occurs_in_any(var, (#[trigger] models[j]).args) by {
            assert(terms::var_set(used@).contains(var) <==> terms::var_set(before).contains(var)
                || terms::occurs_in_any(var, models[i as int].args));
        }
    }
    terms::collect_vars_of_all(head_args, &mut used);
    assert forall|var: VarModel| #[trigger] terms::var_set(used@).contains(var)
        <==> occurs_in_arguments(var, models, heads) by {}
    for i in 0..used.len()
        invariant
            set == bridge::name_set(names@),
            models == chc::atoms_model(atoms@),
            heads == chc::terms_model(head_args@),
            forall|j: int| 0 <= j < i ==> !set.contains((#[trigger] used@[j])@.name),
            forall|var: VarModel| #[trigger]
                terms::var_set(used@).contains(var) <==> occurs_in_arguments(var, models, heads),
    {
        if holds_name(names, &used[i].name) {
            let ghost var = used@[i as int]@;
            assert(terms::var_set(used@).contains(var));
            assert(set.contains(var.name) && occurs_in_arguments(var, models, heads));
            return false;
        }
    }
    assert forall|var: VarModel| #[trigger] set.contains(var.name) implies {
        &&& terms::occurs(var, constraint@) ==> var.sort is Int
        &&& !occurs_in_arguments(var, models, heads)
    } by {
        assert(terms::var_set(own@).contains(var) <==> terms::occurs(var, constraint@));
        assert(terms::var_set(used@).contains(var) <==> occurs_in_arguments(var, models, heads));
    }
    true
}

/// The bit-vector constraint that a bridged constraint becomes; `None` where it
/// is left alone.
pub fn rewrite_bridged_constraint(
    constraint: &Arc<ChcExpr>,
    body_predicates: &Vec<PredicateAtom>,
    head_args: &Vec<Arc<ChcExpr>>,
) -> (rewritten: Option<Arc<ChcExpr>>)
    ensures
        chc::option_model(rewritten) == bridge_free(
            constraint@,
            chc::atoms_model(body_predicates@),
            chc::terms_model(head_args@),
        ),
{
    let width: u32 = match single_bridge_width(constraint) {
        Some(width) => width,
        None => {
            return None;
        },
    };
    proof {
        let chosen = choose|width: u32| bridge::is_bridge_width(constraint@, width);
        assert(bridge::is_bridge_width(constraint@, chosen));
        assert(bridge::has_bridge_width(constraint@, chosen));
    }
    let conjuncts = top_level_conjuncts(constraint);
    let names = admissible_names(&conjuncts, width);
    if !is_capture_free(&names, constraint, body_predicates, head_args) {
        return None;
    }
    let mut rewriter = BridgeRewriter::new(width, names);
    rewriter.rewrite_arc(constraint)
}

/// The clause body with its constraint rewritten over bit-vectors alone, where
/// that is exact; otherwise the body as it is.
pub fn eliminate_signed_int_bridges(body: ClauseBody, head_args: &Vec<Arc<ChcExpr>>) -> (eliminated:
    ClauseBody)
    ensures
        eliminated.predicates == body.predicates,
        chc::option_model(eliminated.constraint) == without_bridges(
            chc::option_model(body.constraint),
            chc::atoms_model(body.predicates@),
            chc::terms_model(head_args@),
        ),
{
    let rewritten = match &body.constraint {
        Some(constraint) => rewrite_bridged_constraint(constraint, &body.predicates, head_args),
        None => None,
    };
    match rewritten {
        Some(constraint) => ClauseBody { predicates: body.predicates, constraint: Some(constraint) },
        None => body,
    }
}

/// The constraint of a clause after bridge elimination.
pub open spec fn without_bridges(
    constraint: Option<ExprModel>,
    atoms: Seq<AtomModel>,
    head_args: Seq<ExprModel>,
) -> Option<ExprModel> {
    match constraint {
        None => None,
        Some(expr) => match bridge_free(expr, atoms, head_args) {
            Some(rewritten) => Some(rewritten),
            None => constraint,
        },
    }
}

} // verus!
