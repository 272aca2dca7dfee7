use std::collections::HashSet;
use std::sync::Arc;

use trust_mc_native::bridge::{record_conjunct_bound, VarBounds};
use trust_mc_native::chc::{ChcExpr, ChcOp, ChcProblem, ChcSort, ClauseHead};
use trust_mc_native::error::NativeSolveError;
use trust_mc_native::lowering::{
    lower_expr, lower_int_constant, lower_obligation_with_accounting, lower_sort,
    TypedChcLoweringAccounting,
};
use trust_mc_native::overflow::{bv_all_ones, bv_signed_min};
use trust_mc_native::rewrite::rewrite_bridged_constraint;
use trust_mc_native::terms::top_level_conjuncts;
use trust_mc_native::vc::{
    BinaryOp, BitVecWidth, ChcVc, DtConstructor, DtField, Expr, ExprValue, OverflowCheck,
    RelationApp, RelationDecl, Rule, RuleBody, RuleTexts, Sort, SortKind, UnaryOp,
};

const I32_MIN: i128 = -2_147_483_648;
const I32_MAX: i128 = 2_147_483_647;

type Term = Arc<Expr>;

fn bool_sort() -> Sort {
    Sort { kind: SortKind::Bool, rendering: "Bool".to_owned() }
}

fn int_sort() -> Sort {
    Sort { kind: SortKind::Int, rendering: "Int".to_owned() }
}

fn bitvec_sort(width: u32) -> Sort {
    let kind = SortKind::BitVec(BitVecWidth::new(width).expect("positive width"));
    Sort { kind, rendering: format!("(_ BitVec {width})") }
}

fn term(sort: Sort, value: ExprValue) -> Term {
    Arc::new(Expr { sort, value })
}

fn var(name: &str, sort: Sort) -> Term {
    term(sort, ExprValue::Var { name: name.to_owned() })
}

fn number(value: i128) -> Term {
    term(int_sort(), ExprValue::IntConst(value.to_string()))
}

fn bits(value: u128, width: u32) -> Term {
    term(bitvec_sort(width), ExprValue::BitVecConst { value: value.to_string(), width })
}

fn truth(value: bool) -> Term {
    term(bool_sort(), ExprValue::BoolConst(value))
}

fn unary(sort: Sort, op: UnaryOp, operand: Term) -> Term {
    term(sort, ExprValue::Unary(op, operand))
}

fn binary(sort: Sort, op: BinaryOp, left: Term, right: Term) -> Term {
    term(sort, ExprValue::Binary(op, left, right))
}

fn relates(op: BinaryOp, left: Term, right: Term) -> Term {
    binary(bool_sort(), op, left, right)
}

fn equal(left: Term, right: Term) -> Term {
    relates(BinaryOp::Eq, left, right)
}

fn not(operand: Term) -> Term {
    unary(bool_sort(), UnaryOp::Not, operand)
}

fn and(left: Term, right: Term) -> Term {
    term(bool_sort(), ExprValue::And(vec![left, right]))
}

fn int2bv(operand: Term, width: u32) -> Term {
    unary(bitvec_sort(width), UnaryOp::Int2Bv(width), operand)
}

fn bv2int(operand: Term) -> Term {
    unary(int_sort(), UnaryOp::Bv2Int, operand)
}

fn bvsub(left: Term, right: Term, width: u32) -> Term {
    binary(bitvec_sort(width), BinaryOp::BvSub, left, right)
}

fn bvadd(left: Term, right: Term, width: u32) -> Term {
    binary(bitvec_sort(width), BinaryOp::BvAdd, left, right)
}

fn extract(operand: Term, high: u32, low: u32) -> Term {
    unary(bitvec_sort(high - low + 1), UnaryOp::BvExtract(high, low), operand)
}

fn ite(sort: Sort, cond: Term, then_expr: Term, else_expr: Term) -> Term {
    term(sort, ExprValue::Ite { cond, then_expr, else_expr })
}

fn nullary(name: &str) -> RelationApp {
    RelationApp { name: name.to_owned(), args: vec![] }
}

fn rule(relation: Option<RelationApp>, constraints: Vec<Term>, head: RelationApp) -> Rule {
    let texts = RuleTexts { head_args: vec![], relation_args: vec![], constraints: vec![] };
    Rule { body: RuleBody { relation, constraints }, head, texts }
}

fn error_vc(conjuncts: Vec<Term>) -> ChcVc {
    ChcVc {
        relations: vec![RelationDecl { name: "error".to_owned(), arg_sorts: vec![] }],
        rules: vec![rule(None, conjuncts, nullary("error"))],
        query_target: "error".to_owned(),
    }
}

fn lowered_problem(conjuncts: Vec<Term>) -> ChcProblem {
    let (problem, accounting) =
        lower_obligation_with_accounting(&error_vc(conjuncts)).expect("fixture must lower");
    assert!(accounting.is_exact());
    problem
}

fn lowered_constraint(conjuncts: Vec<Term>) -> Arc<ChcExpr> {
    let problem = lowered_problem(conjuncts);
    let constraint = problem.clauses[0].body.constraint.as_ref();
    Arc::clone(constraint.expect("lowered clause carries a constraint"))
}

/// The conjunction of the lowered conjuncts, before any rewriting.
fn unrewritten_constraint(conjuncts: &[Term]) -> Arc<ChcExpr> {
    ChcExpr::and_vec(
        conjuncts.iter().map(|conjunct| lower_expr(conjunct).expect("conjunct lowers")).collect(),
    )
}

fn children(expr: &ChcExpr) -> &[Arc<ChcExpr>] {
    match expr {
        ChcExpr::Op(_, args) | ChcExpr::FuncApp(_, _, args) | ChcExpr::PredicateApp(_, _, args) => {
            args.as_slice()
        }
        ChcExpr::ConstArray(_, inner) => std::slice::from_ref(inner),
        _ => &[],
    }
}

fn mentions_int_or_bridge(expr: &ChcExpr) -> bool {
    match expr {
        ChcExpr::Int(_) => true,
        ChcExpr::Var(var) => var.sort == ChcSort::Int,
        ChcExpr::Op(
            ChcOp::Int2Bv(_)
            | ChcOp::Bv2Nat
            | ChcOp::Add
            | ChcOp::Sub
            | ChcOp::Mul
            | ChcOp::Div
            | ChcOp::Mod
            | ChcOp::Neg
            | ChcOp::Lt
            | ChcOp::Le
            | ChcOp::Gt
            | ChcOp::Ge,
            _,
        ) => true,
        _ => children(expr).iter().any(|child| mentions_int_or_bridge(child)),
    }
}

/// Value of a term in which each variable has the given value.
#[derive(Debug, Clone, Copy, PartialEq, Eq)]
enum Val {
    Truth(bool),
    Number(i128),
    Bits(u128, u32),
}

fn mask(width: u32) -> u128 {
    if width == 128 {
        u128::MAX
    } else {
        (1u128 << width) - 1
    }
}

fn signed(pattern: u128, width: u32) -> i128 {
    if pattern >> (width - 1) & 1 == 1 {
        pattern as i128 - (1i128 << width)
    } else {
        pattern as i128
    }
}

fn eval(expr: &ChcExpr, env: &dyn Fn(&str, &ChcSort) -> Val) -> Val {
    match expr {
        ChcExpr::Bool(value) => Val::Truth(*value),
        ChcExpr::Int(value) => Val::Number(*value),
        ChcExpr::BitVec(value, width) => Val::Bits(*value, *width),
        ChcExpr::Var(var) => env(&var.name, &var.sort),
        ChcExpr::Op(op, args) => {
            let vals: Vec<Val> = args.iter().map(|arg| eval(arg, env)).collect();
            match (op, vals.as_slice()) {
                (ChcOp::Not, [Val::Truth(a)]) => Val::Truth(!a),
                (ChcOp::And, all) => Val::Truth(all.iter().all(|a| *a == Val::Truth(true))),
                (ChcOp::Or, all) => Val::Truth(all.iter().any(|a| *a == Val::Truth(true))),
                (ChcOp::Ite, [cond, left, right]) => {
                    if *cond == Val::Truth(true) {
                        *left
                    } else {
                        *right
                    }
                }
                (ChcOp::Eq, [a, b]) => Val::Truth(a == b),
                (ChcOp::Ne, [a, b]) => Val::Truth(a != b),
                (ChcOp::Lt, [Val::Number(a), Val::Number(b)]) => Val::Truth(a < b),
                (ChcOp::Le, [Val::Number(a), Val::Number(b)]) => Val::Truth(a <= b),
                (ChcOp::Gt, [Val::Number(a), Val::Number(b)]) => Val::Truth(a > b),
                (ChcOp::Ge, [Val::Number(a), Val::Number(b)]) => Val::Truth(a >= b),
                (ChcOp::Sub, [Val::Number(a), Val::Number(b)]) => Val::Number(a - b),
                (ChcOp::Add, [Val::Number(a), Val::Number(b)]) => Val::Number(a + b),
                (ChcOp::Bv2Nat, [Val::Bits(a, _)]) => Val::Number(*a as i128),
                (ChcOp::Int2Bv(width), [Val::Number(a)]) => {
                    Val::Bits(a.rem_euclid(1i128 << width) as u128, *width)
                }
                (ChcOp::BvSub, [Val::Bits(a, w), Val::Bits(b, _)]) => {
                    Val::Bits(a.wrapping_sub(*b) & mask(*w), *w)
                }
                (ChcOp::BvAdd, [Val::Bits(a, w), Val::Bits(b, _)]) => {
                    Val::Bits(a.wrapping_add(*b) & mask(*w), *w)
                }
                (ChcOp::BvNot, [Val::Bits(a, w)]) => Val::Bits(!a & mask(*w), *w),
                (ChcOp::BvExtract(high, low), [Val::Bits(a, _)]) => {
                    let width = high - low + 1;
                    Val::Bits(a >> low & mask(width), width)
                }
                (ChcOp::BvULt, [Val::Bits(a, _), Val::Bits(b, _)]) => Val::Truth(a < b),
                (ChcOp::BvULe, [Val::Bits(a, _), Val::Bits(b, _)]) => Val::Truth(a <= b),
                (ChcOp::BvSLt, [Val::Bits(a, w), Val::Bits(b, _)]) => {
                    Val::Truth(signed(*a, *w) < signed(*b, *w))
                }
                (ChcOp::BvSLe, [Val::Bits(a, w), Val::Bits(b, _)]) => {
                    Val::Truth(signed(*a, *w) <= signed(*b, *w))
                }
                (ChcOp::BvSGt, [Val::Bits(a, w), Val::Bits(b, _)]) => {
                    Val::Truth(signed(*a, *w) > signed(*b, *w))
                }
                (ChcOp::BvSGe, [Val::Bits(a, w), Val::Bits(b, _)]) => {
                    Val::Truth(signed(*a, *w) >= signed(*b, *w))
                }
                (ChcOp::BvZeroExtend(by), [Val::Bits(a, w)]) => Val::Bits(*a, w + by),
                (ChcOp::BvSignExtend(by), [Val::Bits(a, w)]) => {
                    Val::Bits(signed(*a, *w) as u128 & mask(w + by), w + by)
                }
                (ChcOp::BvMul, [Val::Bits(a, w), Val::Bits(b, _)]) => {
                    Val::Bits(a.wrapping_mul(*b) & mask(*w), *w)
                }
                other => panic!("unexpected operation {other:?}"),
            }
        }
        other => panic!("unexpected term {other:?}"),
    }
}

/// The value of a variable with a given integer value, as its sort has it.
fn value_of(value: i128, sort: &ChcSort) -> Val {
    match sort {
        ChcSort::Bool => Val::Truth(value != 0),
        ChcSort::Int => Val::Number(value),
        ChcSort::BitVec(width) => Val::Bits(value.rem_euclid(1i128 << width) as u128, *width),
        other => panic!("unexpected sort {other:?}"),
    }
}

/// The postcondition row of a negating branch, at a width.
fn abs_neg_branch_conjuncts(width: u32, min: i128, max: i128) -> Vec<Term> {
    let x = || var("x", int_sort());
    let r = || var("_0#s4_0", int_sort());
    let b2 = || var("_2", bool_sort());
    let b3 = || var("_3", bool_sort());
    let b4 = || var("_4", bool_sort());
    let w_term = || bvsub(int2bv(number(0), width), int2bv(x(), width), width);
    let wrap = 1i128 << width;
    vec![
        equal(equal(number(min), x()), b2()),
        equal(equal(number(min), x()), b2()),
        equal(equal(number(min), x()), b4()),
        equal(equal(number(min), x()), b4()),
        equal(relates(BinaryOp::IntLt, x(), number(0)), b3()),
        equal(relates(BinaryOp::IntLt, x(), number(0)), b3()),
        relates(BinaryOp::IntGe, x(), number(min)),
        ite(
            bool_sort(),
            equal(bits(1, 1), extract(w_term(), width - 1, width - 1)),
            equal(
                binary(int_sort(), BinaryOp::IntSub, bv2int(w_term()), number(wrap)),
                r(),
            ),
            equal(bv2int(w_term()), r()),
        ),
        relates(BinaryOp::IntLe, x(), number(max)),
        relates(BinaryOp::IntLt, x(), number(0)),
        not(equal(number(min), x())),
        not(relates(BinaryOp::IntGe, r(), number(0))),
        not(b4()),
    ]
}

fn abs_neg_branch_conjuncts_32() -> Vec<Term> {
    abs_neg_branch_conjuncts(32, I32_MIN, I32_MAX)
}

/// Whether a constraint over `x`, `_0#s4_0` and the guards has a solution among
/// the given values of `x`. The other variables follow from `x`.
fn satisfied_by(constraint: &ChcExpr, min: i128, candidates: &[i128]) -> bool {
    candidates.iter().any(|x| {
        let env = |name: &str, sort: &ChcSort| match name {
            "x" => value_of(*x, sort),
            "_0#s4_0" => value_of(if *x == min { *x } else { -*x }, sort),
            "_2" | "_4" => value_of(i128::from(*x == min), sort),
            "_3" => value_of(i128::from(*x < 0), sort),
            other => panic!("unexpected variable {other}"),
        };
        eval(constraint, &env) == Val::Truth(true)
    })
}

fn sample(min: i128, max: i128) -> Vec<i128> {
    vec![min, min + 1, min + 2, -70_000, -129, -128, -2, -1, 0, 1, 127, 128, max - 1, max]
        .into_iter()
        .filter(|x| *x >= min && *x <= max)
        .collect()
}

fn distinct_nodes(expr: &ChcExpr, seen: &mut HashSet<usize>) -> usize {
    let mut total = 1;
    for child in children(expr) {
        if seen.insert(Arc::as_ptr(child) as usize) {
            total += distinct_nodes(child, seen);
        }
    }
    total
}

#[test]
fn self_doubling_expr_lowers_to_linear_node_count() {
    let mut expr = var("v", bitvec_sort(64));
    for _ in 0..18 {
        expr = bvadd(Arc::clone(&expr), expr, 64);
    }

    let lowered = lower_expr(&expr).expect("self-doubling bitvector expr must lower");

    let mut seen = HashSet::new();
    let nodes = distinct_nodes(&lowered, &mut seen);
    assert!(nodes < 1000, "lowering of a shared term must stay linear; got {nodes} nodes");
}

#[test]
fn u64_max_lowers_to_exact_constant() {
    let expr = lower_int_constant(&"18446744073709551615".to_owned()).expect("must lower");
    assert_eq!(*expr, ChcExpr::Int(18_446_744_073_709_551_615_i128));
}

#[test]
fn i64_range_constants_stay_plain_int() {
    let lowered = |text: &str| lower_int_constant(&text.to_owned()).expect("must lower");
    assert_eq!(*lowered("42"), ChcExpr::Int(42));
    assert_eq!(*lowered("-5"), ChcExpr::Int(-5));
    assert_eq!(*lowered(&i64::MAX.to_string()), ChcExpr::Int(i64::MAX as i128));
}

#[test]
fn negative_wide_constant_lowers_exactly() {
    let expr = lower_int_constant(&"-18446744073709551615".to_owned()).expect("must lower");
    assert_eq!(*expr, ChcExpr::Int(-18_446_744_073_709_551_615_i128));
}

#[test]
fn beyond_i128_fails_closed() {
    // 2^127 does not fit i128 (the largest is 2^127 - 1).
    assert!(lower_int_constant(&"170141183460469231731687303715884105728".to_owned()).is_err());
}

#[test]
fn abs_neg_bridge_row_rewrites_to_pure_qf_bv_and_proves() {
    let constraint = lowered_constraint(abs_neg_branch_conjuncts_32());
    assert!(!mentions_int_or_bridge(&constraint), "must be pure QF_BV, got: {constraint:?}");
    // No value of the sample satisfies the row, as before the rewriting.
    assert!(!satisfied_by(&constraint, I32_MIN, &sample(I32_MIN, I32_MAX)));
    let plain = unrewritten_constraint(&abs_neg_branch_conjuncts_32());
    assert!(!satisfied_by(&plain, I32_MIN, &sample(I32_MIN, I32_MAX)));
    // At width 8 every value is tried.
    let small = lowered_constraint(abs_neg_branch_conjuncts(8, -128, 127));
    assert!(!mentions_int_or_bridge(&small));
    let all: Vec<i128> = (-128..=127).collect();
    assert!(!satisfied_by(&small, -128, &all));
}

#[test]
fn abs_neg_bridge_row_width64_rewrites_and_proves() {
    let min = -(1i128 << 63);
    let max = (1i128 << 63) - 1;
    let constraint = lowered_constraint(abs_neg_branch_conjuncts(64, min, max));
    assert!(!mentions_int_or_bridge(&constraint), "must be pure QF_BV, got: {constraint:?}");
    assert!(!satisfied_by(&constraint, min, &sample(min, max)));
}

#[test]
fn unbounded_int_var_is_not_rewritten() {
    let mut conjuncts = abs_neg_branch_conjuncts_32();
    conjuncts.remove(8); // x <= i32::MAX
    conjuncts.remove(6); // x >= i32::MIN
    let lowered = lowered_constraint(conjuncts.clone());
    assert_eq!(lowered, unrewritten_constraint(&conjuncts));
}

#[test]
fn pure_bv_inc_row_is_untouched() {
    let bv64 = |value: u64| bits(u128::from(value), 64);
    let bvvar64 = |name: &str| var(name, bitvec_sort(64));
    let inc = || bvadd(bv64(1), bvvar64("x"), 64);
    let ule = |left: Term, right: Term| relates(BinaryOp::BvULe, left, right);
    let ult = |left: Term, right: Term| relates(BinaryOp::BvULt, left, right);
    let conjuncts = vec![
        ule(bv64(0), inc()),
        ule(bv64(0), bvvar64("x")),
        ule(bv64(0), bvvar64("x")),
        ule(inc(), bv64(u64::MAX)),
        ule(bvvar64("x"), bv64(u64::MAX)),
        ule(bvvar64("x"), bv64(u64::MAX)),
        ult(bvvar64("x"), bv64(u64::MAX)),
        equal(inc(), bvvar64("_2.0")),
        equal(bvvar64("_0"), bvvar64("_2.0")),
        not(equal(inc(), bvvar64("_0"))),
        term(
            bool_sort(),
            ExprValue::Or(vec![ult(bv64(u64::MAX), inc()), equal(inc(), bvvar64("_0"))]),
        ),
    ];
    let lowered = lowered_constraint(conjuncts.clone());
    assert_eq!(lowered, unrewritten_constraint(&conjuncts));
}

#[test]
fn mixed_bridge_widths_fail_closed() {
    let mut conjuncts = abs_neg_branch_conjuncts_32();
    conjuncts.push(equal(int2bv(var("x", int_sort()), 64), var("wide_probe", bitvec_sort(64))));
    let lowered = lowered_constraint(conjuncts.clone());
    assert_eq!(lowered, unrewritten_constraint(&conjuncts));
}

#[test]
fn rewritten_name_colliding_with_bv_var_fails_closed() {
    let x_int = || var("x", int_sort());
    let x_bv = || var("x", bitvec_sort(32));
    let y_bv = || var("y", bitvec_sort(32));
    let conjuncts = vec![
        relates(BinaryOp::IntGe, x_int(), number(I32_MIN)),
        relates(BinaryOp::IntLe, x_int(), number(I32_MAX)),
        equal(int2bv(x_int(), 32), y_bv()),
        equal(x_bv(), y_bv()),
    ];
    let lowered = lowered_constraint(conjuncts.clone());
    assert_eq!(lowered, unrewritten_constraint(&conjuncts));
}

#[test]
fn satisfiable_bridge_variant_still_refutes_after_rewrite() {
    let mut conjuncts = abs_neg_branch_conjuncts_32();
    conjuncts[11] = relates(BinaryOp::IntGe, var("_0#s4_0", int_sort()), number(0));
    let constraint = lowered_constraint(conjuncts);
    assert!(!mentions_int_or_bridge(&constraint), "the variant must still rewrite");
    // x = -1 gives the result 1.
    assert!(satisfied_by(&constraint, I32_MIN, &[-1]));
}

/// The signed value of `0 - x`, as a term.
fn signed_neg_decode() -> Term {
    let wrapped = || bvsub(int2bv(number(0), 32), int2bv(var("x", int_sort()), 32), 32);
    ite(
        int_sort(),
        equal(extract(wrapped(), 31, 31), bits(1, 1)),
        binary(int_sort(), BinaryOp::IntSub, bv2int(wrapped()), number(1i128 << 32)),
        bv2int(wrapped()),
    )
}

fn production_neg_row(negated_postcondition: bool) -> Term {
    let x = || var("x", int_sort());
    let r = || var("_0#s4_0", int_sort());
    let b2 = || var("_2", bool_sort());
    let b3 = || var("_3", bool_sort());
    let b4 = || var("_4", bool_sort());
    let is_min = || equal(x(), number(I32_MIN));
    let is_neg = || relates(BinaryOp::IntLt, x(), number(0));
    let holds = relates(BinaryOp::IntGe, r(), number(0));
    let post = if negated_postcondition { not(holds) } else { holds };
    let guards = and(
        and(and(truth(true), equal(b2(), is_min())), equal(b3(), is_neg())),
        equal(b4(), is_min()),
    );
    let path = and(
        and(and(not(is_min()), is_neg()), not(b4())),
        // The window facts stand several conjunctions down.
        and(
            relates(BinaryOp::IntGe, x(), number(I32_MIN)),
            relates(BinaryOp::IntLe, x(), number(I32_MAX)),
        ),
    );
    let body = and(
        and(and(equal(b2(), is_min()), equal(b3(), is_neg())), equal(b4(), is_min())),
        and(equal(r(), signed_neg_decode()), post),
    );
    and(guards, and(path, body))
}

#[test]
fn production_neg_row_rewrites_and_is_unsat() {
    let constraint = lowered_constraint(vec![production_neg_row(true)]);
    assert!(!mentions_int_or_bridge(&constraint), "must be pure QF_BV, got: {constraint:?}");
    assert!(!satisfied_by(&constraint, I32_MIN, &sample(I32_MIN, I32_MAX)));
}

#[test]
fn production_neg_row_sat_direction_still_refutes() {
    let constraint = lowered_constraint(vec![production_neg_row(false)]);
    assert!(!mentions_int_or_bridge(&constraint), "the direction must also rewrite");
    assert!(satisfied_by(&constraint, I32_MIN, &[-1]));
}

#[test]
fn production_shape_without_window_facts_fails_closed() {
    let x = || var("x", int_sort());
    let r = || var("_0#s4_0", int_sort());
    let conjunct = and(
        relates(BinaryOp::IntLt, x(), number(0)),
        and(
            equal(r(), signed_neg_decode()),
            not(relates(BinaryOp::IntGe, r(), number(0))),
        ),
    );

    let raw = lower_expr(&conjunct).expect("conjunct lowers");
    assert!(rewrite_bridged_constraint(&raw, &vec![], &vec![]).is_none());

    let constraint = lowered_constraint(vec![conjunct]);
    assert!(mentions_int_or_bridge(&constraint), "got: {constraint:?}");
}

#[test]
fn nested_and_tree_is_flattened_for_fact_discovery() {
    let constraint = lower_expr(&production_neg_row(true)).expect("row lowers");
    let root_children = match &*constraint {
        ChcExpr::Op(ChcOp::And, args) => args.len(),
        _ => 1,
    };
    let flattened = top_level_conjuncts(&constraint);
    assert_eq!(root_children, 2);
    assert!(flattened.len() > root_children);
    let mut bounds: Vec<VarBounds> = Vec::new();
    for conjunct in &flattened {
        record_conjunct_bound(conjunct, &mut bounds);
    }
    let x = bounds.iter().find(|entry| entry.name == "x").expect("x must gain window bounds");
    assert_eq!((x.lo, x.hi), (Some(I32_MIN), Some(-1)));
}

#[test]
fn a_lowered_obligation_has_a_query_for_its_target() {
    let vc = ChcVc {
        relations: vec![
            RelationDecl { name: "entry".to_owned(), arg_sorts: vec![int_sort()] },
            RelationDecl { name: "error".to_owned(), arg_sorts: vec![] },
        ],
        rules: vec![
            rule(
                None,
                vec![],
                RelationApp { name: "entry".to_owned(), args: vec![number(0)] },
            ),
            rule(
                Some(RelationApp { name: "entry".to_owned(), args: vec![var("x", int_sort())] }),
                vec![relates(BinaryOp::IntLt, var("x", int_sort()), number(0))],
                nullary("error"),
            ),
        ],
        query_target: "error".to_owned(),
    };
    let (problem, accounting) = lower_obligation_with_accounting(&vc).expect("lowers");
    assert_eq!(accounting, TypedChcLoweringAccounting::default());
    assert_eq!(problem.predicates.len(), 2);
    assert_eq!(problem.clauses.len(), 3);
    assert_eq!(problem.clauses[2].head, ClauseHead::False);
    assert_eq!(problem.clauses[2].body.predicates[0].predicate.index, 1);
    assert!(!problem.has_cycles());
}

fn refusal_of(vc: &ChcVc) -> String {
    match lower_obligation_with_accounting(vc) {
        Err(NativeSolveError::InvalidInput { field, detail }) => format!("{field}: {detail}"),
        other => panic!("expected a refusal, got {other:?}"),
    }
}

#[test]
fn undeclared_names_and_bad_targets_are_refused() {
    let mut unknown = error_vc(vec![]);
    unknown.rules.push(rule(Some(nullary("missing")), vec![], nullary("error")));
    assert!(refusal_of(&unknown).contains("missing"));

    let mut target = error_vc(vec![]);
    target.query_target = "elsewhere".to_owned();
    assert!(refusal_of(&target).contains("elsewhere"));

    let mut arity = error_vc(vec![]);
    arity.relations[0].arg_sorts.push(int_sort());
    assert!(lower_obligation_with_accounting(&arity).is_err());
}

#[test]
fn sorts_are_lowered_or_refused() {
    assert_eq!(lower_sort(&bool_sort()).expect("lowers"), ChcSort::Bool);
    assert_eq!(lower_sort(&bitvec_sort(8)).expect("lowers"), ChcSort::BitVec(8));
    let pair = Sort {
        kind: SortKind::Datatype {
            name: "Pair".to_owned(),
            constructors: vec![DtConstructor {
                name: "mk".to_owned(),
                fields: vec![DtField { name: "first".to_owned(), sort: int_sort() }],
            }],
        },
        rendering: "Pair".to_owned(),
    };
    match lower_sort(&pair).expect("lowers") {
        ChcSort::Datatype { name, constructors } => {
            assert_eq!(name, "Pair");
            assert_eq!(constructors[0].selectors[0].sort, ChcSort::Int);
        }
        other => panic!("unexpected sort {other:?}"),
    }
    let odd = Sort { kind: SortKind::Unsupported, rendering: "(Seq Int)".to_owned() };
    assert!(lower_sort(&odd).is_err());
}

#[test]
fn overflow_constants_are_the_extreme_patterns() {
    assert_eq!(bv_all_ones(8), 255);
    assert_eq!(bv_all_ones(128), u128::MAX);
    assert_eq!(bv_signed_min(8), 128);
    assert_eq!(bv_signed_min(128), 1u128 << 127);
}

#[test]
fn overflow_checks_hold_exactly_where_nothing_overflows() {
    let width = 4u32;
    let checks = [
        OverflowCheck::SignedDiv,
        OverflowCheck::UnsignedSub,
        OverflowCheck::UnsignedAdd,
        OverflowCheck::SignedAdd,
        OverflowCheck::SignedSub,
        OverflowCheck::UnsignedMul,
        OverflowCheck::SignedMul,
    ];
    for check in checks {
        let a = var("a", bitvec_sort(width));
        let b = var("b", bitvec_sort(width));
        let lowered = lower_expr(&term(bool_sort(), ExprValue::NoOverflow(check, a, b)))
            .expect("check lowers");
        for p in 0..16i128 {
            for q in 0..16i128 {
                let env = |name: &str, sort: &ChcSort| {
                    value_of(if name == "a" { p } else { q }, sort)
                };
                let (sp, sq) = (signed(p as u128, width), signed(q as u128, width));
                let fits = |value: i128| (-8..8).contains(&value);
                let expected = match check {
                    OverflowCheck::SignedDiv => !(sp == -8 && sq == -1),
                    OverflowCheck::UnsignedSub => q <= p,
                    OverflowCheck::UnsignedAdd => p + q < 16,
                    OverflowCheck::SignedAdd => fits(sp + sq),
                    OverflowCheck::SignedSub => fits(sp - sq),
                    OverflowCheck::UnsignedMul => p * q < 16,
                    OverflowCheck::SignedMul => fits(sp * sq),
                };
                assert_eq!(eval(&lowered, &env), Val::Truth(expected), "{check:?} {p} {q}");
            }
        }
    }
    let lowered = lower_expr(&term(
        bool_sort(),
        ExprValue::NegNoOverflow(var("a", bitvec_sort(width))),
    ))
    .expect("check lowers");
    for p in 0..16i128 {
        let env = |_: &str, sort: &ChcSort| value_of(p, sort);
        assert_eq!(eval(&lowered, &env), Val::Truth(p != 8));
    }
}

#[test]
fn rewriting_keeps_and_adds_no_solutions() {
    // Over every value of x at width 8, the row and its rewriting agree.
    for negated in [true, false] {
        let mut conjuncts = abs_neg_branch_conjuncts(8, -128, 127);
        if !negated {
            conjuncts[11] = relates(BinaryOp::IntGe, var("_0#s4_0", int_sort()), number(0));
        }
        let plain = unrewritten_constraint(&conjuncts);
        let rewritten = lowered_constraint(conjuncts);
        for x in -128..=127i128 {
            assert_eq!(
                satisfied_by(&plain, -128, &[x]),
                satisfied_by(&rewritten, -128, &[x]),
                "{negated} {x}"
            );
        }
    }
}
