//! Sorts and values of Horn-clause terms.
use vstd::arithmetic::power2;
use vstd::prelude::*;

use crate::chc;
use crate::chc::{
    ChcExpr, ChcOp, ChcSort, ExprModel, PredicateId, SortModel, VarModel,
};

verus! {

/// Whether an operator yields a truth value whatever its operands are.
pub open spec fn yields_bool(op: ChcOp) -> bool {
    op is Not || op is And || op is Or || op is Implies || op is Iff || op is Eq || op is Ne
        || op is Lt || op is Le || op is Gt || op is Ge || is_bv_relation(op)
}

/// Whether an operator compares two bit-vectors.
pub open spec fn is_bv_relation(op: ChcOp) -> bool {
    op is BvULt || op is BvULe || op is BvUGt || op is BvUGe || op is BvSLt || op is BvSLe
        || op is BvSGt || op is BvSGe
}

/// Whether an operator takes two bit-vectors of one width to that width.
pub open spec fn is_bv_binary(op: ChcOp) -> bool {
    op is BvAdd || op is BvSub || op is BvMul || op is BvUDiv || op is BvURem || op is BvSDiv
        || op is BvSRem || op is BvSMod || op is BvAnd || op is BvOr || op is BvXor
        || op is BvNand || op is BvNor || op is BvXnor || op is BvShl || op is BvLShr
        || op is BvAShr
}

/// Whether an operator takes one bit-vector to its own width.
pub open spec fn is_bv_unary(op: ChcOp) -> bool {
    op is BvNot || op is BvNeg || op is BvRotateLeft || op is BvRotateRight
}

/// Whether an operator computes on integers, or on reals.
pub open spec fn is_arithmetic(op: ChcOp) -> bool {
    op is Add || op is Sub || op is Mul || op is Div || op is Mod || op is Neg
}

/// The sort of a bit-vector `width` bits wide, where a machine width can say so.
pub open spec fn bitvec_sort(width: int) -> Option<SortModel> {
    if 0 <= width <= u32::MAX {
        Some(SortModel::BitVec(width as u32))
    } else {
        None
    }
}

/// The sort of a term, read off its outermost symbol; `None` where that symbol
/// determines none.
pub open spec fn term_sort(expr: ExprModel) -> Option<SortModel>
    decreases expr,
{
    match expr {
        ExprModel::Bool(_) => Some(SortModel::Bool),
        ExprModel::Int(_) => Some(SortModel::Int),
        ExprModel::Real(_, _) => Some(SortModel::Real),
        ExprModel::BitVec(_, width) => Some(SortModel::BitVec(width)),
        ExprModel::Var(var) => Some(var.sort),
        ExprModel::PredicateApp(_, _, _) => Some(SortModel::Bool),
        ExprModel::FuncApp(_, sort, _) => Some(sort),
        ExprModel::ConstArray(index, value) => match term_sort(*value) {
            Some(element) => Some(SortModel::Array(Box::new(index), Box::new(element))),
            None => None,
        },
        ExprModel::ConstArrayMarker(sort) => Some(sort),
        ExprModel::IsTesterMarker(_) => Some(SortModel::Bool),
        ExprModel::Op(op, args) => {
            if yields_bool(op) {
                Some(SortModel::Bool)
            } else if op is Bv2Nat {
                Some(SortModel::Int)
            } else if op is BvComp {
                Some(SortModel::BitVec(1))
            } else if op is Int2Bv {
                Some(SortModel::BitVec(op->Int2Bv_0))
            } else if op is BvExtract {
                if op->BvExtract_1 <= op->BvExtract_0 {
                    bitvec_sort(op->BvExtract_0 - op->BvExtract_1 + 1)
                } else {
                    None
                }
            } else if op is Ite {
                if args.len() == 3 {
                    term_sort(args[1])
                } else {
                    None
                }
            } else if args.len() == 0 {
                None
            } else {
                let first = term_sort(args[0]);
                if op is Select {
                    match first {
                        Some(SortModel::Array(_, element)) => Some(*element),
                        _ => None,
                    }
                } else if op is BvConcat {
                    if args.len() == 2 {
                        match (first, term_sort(args[1])) {
                            (
                                Some(SortModel::BitVec(high)),
                                Some(SortModel::BitVec(low)),
                            ) => bitvec_sort(high + low),
                            _ => None,
                        }
                    } else {
                        None
                    }
                } else if op is BvZeroExtend || op is BvSignExtend || op is BvRepeat {
                    match first {
                        Some(SortModel::BitVec(width)) => bitvec_sort(widened(op, width as int)),
                        _ => None,
                    }
                } else {
                    first
                }
            }
        },
    }
}

/// The width that an extension or repetition gives an operand `width` bits wide.
pub open spec fn widened(op: ChcOp, width: int) -> int {
    match op {
        ChcOp::BvZeroExtend(extra) => width + extra,
        ChcOp::BvSignExtend(extra) => width + extra,
        ChcOp::BvRepeat(times) => width * times,
        _ => width,
    }
}

/// The sort, where there is one, as its model.
pub open spec fn option_sort_model(sort: Option<ChcSort>) -> Option<SortModel> {
    match sort {
        Some(sort) => Some(chc::sort_model(sort)),
        None => None,
    }
}

impl ChcExpr {
    /// The sort of this term, read off its outermost symbol.
    pub fn sort(&self) -> (sort: Option<ChcSort>)
        ensures
            option_sort_model(sort) == term_sort(self@),
        decreases *self,
    {
        match self {
            ChcExpr::Bool(_) => Some(ChcSort::Bool),
            ChcExpr::Int(_) => Some(ChcSort::Int),
            ChcExpr::Real(_, _) => Some(ChcSort::Real),
            ChcExpr::BitVec(_, width) => Some(ChcSort::BitVec(*width)),
            ChcExpr::Var(var) => Some(var.sort.duplicate()),
            ChcExpr::PredicateApp(_, _, _) => Some(ChcSort::Bool),
            ChcExpr::FuncApp(_, sort, _) => Some(sort.duplicate()),
            ChcExpr::ConstArray(index, value) => match value.sort() {
                Some(element) => Some(
                    ChcSort::Array(Box::new(index.duplicate()), Box::new(element)),
                ),
                None => None,
            },
            ChcExpr::ConstArrayMarker(sort) => Some(sort.duplicate()),
            ChcExpr::IsTesterMarker(_) => Some(ChcSort::Bool),
            ChcExpr::Op(op, args) => {
                match op {
                    ChcOp::Not | ChcOp::And | ChcOp::Or | ChcOp::Implies | ChcOp::Iff | ChcOp::Eq
                    | ChcOp::Ne | ChcOp::Lt | ChcOp::Le | ChcOp::Gt | ChcOp::Ge | ChcOp::BvULt
                    | ChcOp::BvULe | ChcOp::BvUGt | ChcOp::BvUGe | ChcOp::BvSLt | ChcOp::BvSLe
                    | ChcOp::BvSGt | ChcOp::BvSGe => {
                        return Some(ChcSort::Bool);
                    },
                    ChcOp::Bv2Nat => {
                        return Some(ChcSort::Int);
                    },
                    ChcOp::BvComp => {
                        return Some(ChcSort::BitVec(1));
                    },
                    ChcOp::Int2Bv(width) => {
                        return Some(ChcSort::BitVec(*width));
                    },
                    ChcOp::BvExtract(high, low) => {
                        if *low <= *high && *high - *low < u32::MAX {
                            return Some(ChcSort::BitVec(*high - *low + 1));
                        }
                        return None;
                    },
                    ChcOp::Ite => {
                        if args.len() == 3 {
                            assert(chc::terms_model(args@)[1] == chc::expr_model(*args@[1]));
                            return args[1].sort();
                        }
                        return None;
                    },
                    _ => {},
                }
                if args.len() == 0 {
                    return None;
                }
                assert(chc::terms_model(args@)[0] == chc::expr_model(*args@[0]));
                let first = args[0].sort();
                match op {
                    ChcOp::Select => match first {
                        Some(ChcSort::Array(_, element)) => Some(*element),
                        _ => None,
                    },
                    ChcOp::BvConcat => {
                        if args.len() != 2 {
                            return None;
                        }
                        assert(chc::terms_model(args@)[1] == chc::expr_model(*args@[1]));
                        match (first, args[1].sort()) {
                            (Some(ChcSort::BitVec(high)), Some(ChcSort::BitVec(low))) => {
                                match high.checked_add(low) {
                                    Some(width) => Some(ChcSort::BitVec(width)),
                                    None => None,
                                }
                            },
                            _ => None,
                        }
                    },
                    ChcOp::BvZeroExtend(extra) | ChcOp::BvSignExtend(extra) => match first {
                        Some(ChcSort::BitVec(width)) => match width.checked_add(*extra) {
                            Some(wide) => Some(ChcSort::BitVec(wide)),
                            None => None,
                        },
                        _ => None,
                    },
                    ChcOp::BvRepeat(times) => match first {
                        Some(ChcSort::BitVec(width)) => match width.checked_mul(*times) {
                            Some(wide) => Some(ChcSort::BitVec(wide)),
                            None => None,
                        },
                        _ => None,
                    },
                    _ => first,
                }
            },
        }
    }
}

/// Whether every operand has the given sort.
pub open spec fn all_of_sort(args: Seq<ExprModel>, sort: SortModel) -> bool {
    forall|i: int| 0 <= i < args.len() ==> #[trigger] term_sort(args[i]) == Some(sort)
}

/// Whether there are `count` operands, all bit-vectors of the first one's width.
pub open spec fn all_bitvecs(args: Seq<ExprModel>, count: nat) -> bool {
    &&& args.len() == count
    &&& term_sort(args[0]) matches Some(SortModel::BitVec(width)) && all_of_sort(
        args,
        SortModel::BitVec(width),
    )
}

/// Whether an operator is applied to operands of the sorts it takes.
pub open spec fn operands_fit(op: ChcOp, args: Seq<ExprModel>) -> bool {
    if op is Not {
        args.len() == 1 && all_of_sort(args, SortModel::Bool)
    } else if op is And || op is Or {
        all_of_sort(args, SortModel::Bool)
    } else if op is Implies || op is Iff {
        args.len() == 2 && all_of_sort(args, SortModel::Bool)
    } else if op is Ite {
        &&& args.len() == 3
        &&& term_sort(args[0]) == Some(SortModel::Bool)
        &&& term_sort(args[1]) is Some
        &&& term_sort(args[1]) == term_sort(args[2])
    } else if op is Eq || op is Ne {
        args.len() == 2 && term_sort(args[0]) is Some && term_sort(args[0]) == term_sort(args[1])
    } else if op is Lt || op is Le || op is Gt || op is Ge {
        args.len() == 2 && (all_of_sort(args, SortModel::Int) || all_of_sort(args, SortModel::Real))
    } else if is_arithmetic(op) {
        args.len() > 0 && (all_of_sort(args, SortModel::Int) || all_of_sort(args, SortModel::Real))
    } else if op is Select || op is Store {
        args.len() > 0 && term_sort(args[0]) matches Some(SortModel::Array(_, _))
    } else if is_bv_relation(op) || is_bv_binary(op) || op is BvComp {
        all_bitvecs(args, 2)
    } else if is_bv_unary(op) || op is BvZeroExtend || op is BvSignExtend || op is BvRepeat
        || op is Bv2Nat {
        all_bitvecs(args, 1)
    } else if op is BvExtract {
        &&& all_bitvecs(args, 1)
        &&& op->BvExtract_1 <= op->BvExtract_0
        &&& op->BvExtract_0 < term_sort(args[0])->0->BitVec_0
    } else if op is BvConcat {
        &&& args.len() == 2
        &&& term_sort(args[0]) matches Some(SortModel::BitVec(_))
        &&& term_sort(args[1]) matches Some(SortModel::BitVec(_))
    } else {
        op is Int2Bv && args.len() == 1 && all_of_sort(args, SortModel::Int)
    }
}

/// Whether a term and all its subterms apply each symbol to operands of the
/// sorts it takes, and every bit-vector literal fits its width.
pub open spec fn well_sorted(expr: ExprModel) -> bool
    decreases expr,
{
    &&& term_sort(expr) is Some
    &&& match expr {
        ExprModel::BitVec(pattern, width) => pattern < power2::pow2(width as nat),
        ExprModel::PredicateApp(_, _, args) => forall|i: int|
            0 <= i < args.len() ==> well_sorted(#[trigger] args[i]),
        ExprModel::FuncApp(_, _, args) => forall|i: int|
            0 <= i < args.len() ==> well_sorted(#[trigger] args[i]),
        ExprModel::ConstArray(_, value) => well_sorted(*value),
        ExprModel::Op(op, args) => operands_fit(op, args) && forall|i: int|
            0 <= i < args.len() ==> well_sorted(#[trigger] args[i]),
        _ => true,
    }
}

/// Value of a term. Sorts other than truth values, integers and bit-vectors
/// have opaque values.
pub enum TermValue {
    Bool(bool),
    Int(int),
    /// Pattern and width.
    BitVec(nat, u32),
    Opaque(int),
}

/// Symbol whose meaning an interpretation chooses.
pub enum Symbol {
    Op(ChcOp),
    Real(int, int),
    Predicate(Seq<char>, PredicateId),
    Func(Seq<char>, SortModel),
    ConstArray(SortModel),
    Tester(Seq<char>),
}

/// Value of every variable.
pub type Env = spec_fn(VarModel) -> TermValue;

/// Value of every symbol without a fixed meaning, on given operands.
pub type Interpretation = spec_fn(Symbol, Seq<TermValue>) -> TermValue;

/// Whether a value belongs to a sort. Opaque sorts hold every value.
pub open spec fn has_sort(value: TermValue, sort: SortModel) -> bool {
    match sort {
        SortModel::Bool => value is Bool,
        SortModel::Int => value is Int,
        SortModel::BitVec(width) => value matches TermValue::BitVec(pattern, actual) && actual == width
            && pattern < power2::pow2(width as nat),
        _ => true,
    }
}

/// Whether every variable has a value of its sort.
pub open spec fn env_fits(env: Env) -> bool {
    forall|var: VarModel| has_sort(#[trigger] env(var), var.sort)
}

pub open spec fn truth(value: TermValue) -> bool {
    value == TermValue::Bool(true)
}

pub open spec fn integer(value: TermValue) -> int {
    match value {
        TermValue::Int(number) => number,
        _ => 0,
    }
}

pub open spec fn pattern(value: TermValue) -> nat {
    match value {
        TermValue::BitVec(bits, _) => bits,
        _ => 0,
    }
}

pub open spec fn width(value: TermValue) -> u32 {
    match value {
        TermValue::BitVec(_, bits) => bits,
        _ => 0,
    }
}

/// Two's-complement reading of a pattern.
pub open spec fn signed(bits: nat, width: nat) -> int {
    if 2 * bits < power2::pow2(width) {
        bits as int
    } else {
        bits - power2::pow2(width)
    }
}

/// The bit-vector value `width` bits wide that is congruent to `number`.
pub open spec fn residue(number: int, width: u32) -> TermValue {
    TermValue::BitVec((number % (power2::pow2(width as nat) as int)) as nat, width)
}

/// A value of the given sort: `value` itself where it belongs there.
pub open spec fn coerce(value: TermValue, sort: Option<SortModel>) -> TermValue {
    match sort {
        Some(SortModel::Bool) => TermValue::Bool(truth(value)),
        Some(SortModel::Int) => TermValue::Int(integer(value)),
        Some(SortModel::BitVec(bits)) => residue(pattern(value) as int, bits),
        _ => value,
    }
}

/// Value of an operator on given operands, for the operators with a fixed
/// meaning; `None` for the others.
pub open spec fn fixed_meaning(op: ChcOp, vals: Seq<TermValue>) -> Option<TermValue> {
    let a = vals[0];
    let b = vals[1];
    match op {
        ChcOp::Not => Some(TermValue::Bool(!truth(a))),
        ChcOp::And => Some(
            TermValue::Bool(forall|i: int| 0 <= i < vals.len() ==> truth(#[trigger] vals[i])),
        ),
        ChcOp::Or => Some(
            TermValue::Bool(exists|i: int| 0 <= i < vals.len() && truth(#[trigger] vals[i])),
        ),
        ChcOp::Implies => Some(TermValue::Bool(truth(a) ==> truth(b))),
        ChcOp::Iff => Some(TermValue::Bool(truth(a) == truth(b))),
        ChcOp::Ite => Some(
            if truth(a) {
                b
            } else {
                vals[2]
            },
        ),
        ChcOp::Eq => Some(TermValue::Bool(a == b)),
        ChcOp::Ne => Some(TermValue::Bool(a != b)),
        ChcOp::Lt if a is Int && b is Int => Some(TermValue::Bool(integer(a) < integer(b))),
        ChcOp::Le if a is Int && b is Int => Some(TermValue::Bool(integer(a) <= integer(b))),
        ChcOp::Gt if a is Int && b is Int => Some(TermValue::Bool(integer(a) > integer(b))),
        ChcOp::Ge if a is Int && b is Int => Some(TermValue::Bool(integer(a) >= integer(b))),
        ChcOp::Sub if vals.len() == 2 && a is Int && b is Int => Some(
            TermValue::Int(integer(a) - integer(b)),
        ),
        ChcOp::BvAdd => Some(residue((pattern(a) + pattern(b)) as int, width(a))),
        ChcOp::BvSub => Some(residue(pattern(a) - pattern(b), width(a))),
        ChcOp::BvMul => Some(residue((pattern(a) * pattern(b)) as int, width(a))),
        ChcOp::BvNot => Some(residue(-1 - pattern(a), width(a))),
        ChcOp::BvNeg => Some(residue(-pattern(a), width(a))),
        ChcOp::BvULt => Some(TermValue::Bool(pattern(a) < pattern(b))),
        ChcOp::BvULe => Some(TermValue::Bool(pattern(a) <= pattern(b))),
        ChcOp::BvUGt => Some(TermValue::Bool(pattern(a) > pattern(b))),
        ChcOp::BvUGe => Some(TermValue::Bool(pattern(a) >= pattern(b))),
        ChcOp::BvSLt => Some(TermValue::Bool(signed_value(a) < signed_value(b))),
        ChcOp::BvSLe => Some(TermValue::Bool(signed_value(a) <= signed_value(b))),
        ChcOp::BvSGt => Some(TermValue::Bool(signed_value(a) > signed_value(b))),
        ChcOp::BvSGe => Some(TermValue::Bool(signed_value(a) >= signed_value(b))),
        ChcOp::BvZeroExtend(extra) => Some(
            residue(pattern(a) as int, (width(a) + extra) as u32),
        ),
        ChcOp::BvSignExtend(extra) => Some(residue(signed_value(a), (width(a) + extra) as u32)),
        ChcOp::BvExtract(high, low) => Some(
            residue(
                (pattern(a) / power2::pow2(low as nat)) as int,
                (high - low + 1) as u32,
            ),
        ),
        ChcOp::Bv2Nat => Some(TermValue::Int(pattern(a) as int)),
        ChcOp::Int2Bv(bits) => Some(residue(integer(a), bits)),
        _ => None,
    }
}

/// Two's-complement reading of a bit-vector value.
pub open spec fn signed_value(value: TermValue) -> int {
    signed(pattern(value), width(value) as nat)
}

/// Value of a term.
pub open spec fn eval(expr: ExprModel, env: Env, interp: Interpretation) -> TermValue
    decreases expr,
{
    match expr {
        ExprModel::Bool(value) => TermValue::Bool(value),
        ExprModel::Int(value) => TermValue::Int(value),
        ExprModel::BitVec(bits, size) => TermValue::BitVec(bits, size),
        ExprModel::Var(var) => env(var),
        ExprModel::Op(op, args) => {
            let vals = eval_all(args, env, interp);
            match fixed_meaning(op, vals) {
                Some(value) => value,
                None => coerce(interp(Symbol::Op(op), vals), term_sort(expr)),
            }
        },
        ExprModel::Real(numerator, denominator) => interp(
            Symbol::Real(numerator, denominator),
            Seq::empty(),
        ),
        ExprModel::PredicateApp(name, id, args) => coerce(
            interp(Symbol::Predicate(name, id), eval_all(args, env, interp)),
            Some(SortModel::Bool),
        ),
        ExprModel::FuncApp(name, sort, args) => coerce(
            interp(Symbol::Func(name, sort), eval_all(args, env, interp)),
            Some(sort),
        ),
        ExprModel::ConstArray(sort, value) => interp(
            Symbol::ConstArray(sort),
            seq![eval(*value, env, interp)],
        ),
        ExprModel::ConstArrayMarker(sort) => coerce(
            interp(Symbol::ConstArray(sort), Seq::empty()),
            Some(sort),
        ),
        ExprModel::IsTesterMarker(name) => coerce(
            interp(Symbol::Tester(name), Seq::empty()),
            Some(SortModel::Bool),
        ),
    }
}

/// Values of a list of terms.
pub open spec fn eval_all(exprs: Seq<ExprModel>, env: Env, interp: Interpretation) -> Seq<TermValue>
    decreases exprs,
{
    Seq::new(
        exprs.len(),
        |i: int|
            if 0 <= i < exprs.len() {
                eval(exprs[i], env, interp)
            } else {
                arbitrary()
            },
    )
}

/// Whether an environment satisfies a constraint; no constraint is always
/// satisfied.
pub open spec fn satisfies(constraint: Option<ExprModel>, env: Env, interp: Interpretation) -> bool {
    match constraint {
        Some(expr) => truth(eval(expr, env, interp)),
        None => true,
    }
}

pub proof fn lemma_residue_fits(number: int, bits: u32)
    ensures
        has_sort(residue(number, bits), SortModel::BitVec(bits)),
        pattern(residue(number, bits)) < power2::pow2(bits as nat),
        pattern(residue(number, bits)) == number % (power2::pow2(bits as nat) as int),
        width(residue(number, bits)) == bits,
{
    power2::lemma_pow2_pos(bits as nat);
    vstd::arithmetic::div_mod::lemma_mod_bound(number, power2::pow2(bits as nat) as int);
}

pub proof fn lemma_coerce_fits(value: TermValue, sort: SortModel)
    ensures
        has_sort(coerce(value, Some(sort)), sort),
{
    if let SortModel::BitVec(bits) = sort {
        lemma_residue_fits(pattern(value) as int, bits);
    }
}

/// A well-sorted term has a value of its sort wherever the variables do.
pub proof fn lemma_eval_has_sort(expr: ExprModel, env: Env, interp: Interpretation)
    requires
        well_sorted(expr),
        env_fits(env),
    ensures
        has_sort(eval(expr, env, interp), term_sort(expr)->0),
    decreases expr,
{
    match expr {
        ExprModel::Op(op, args) => {
            let vals = eval_all(args, env, interp);
            assert forall|i: int| 0 <= i < args.len() implies has_sort(
                #[trigger] vals[i],
                term_sort(args[i])->0,
            ) by {
                lemma_eval_has_sort(args[i], env, interp);
            }
            if args.len() > 0 {
                assert(has_sort(vals[0], term_sort(args[0])->0));
                assert(well_sorted(args[0]));
            }
            if args.len() > 1 {
                assert(has_sort(vals[1], term_sort(args[1])->0));
                assert(well_sorted(args[1]));
            }
            if args.len() > 2 {
                assert(has_sort(vals[2], term_sort(args[2])->0));
            }
            let value = fixed_meaning(op, vals);
            if value is None {
                lemma_coerce_fits(interp(Symbol::Op(op), vals), term_sort(expr)->0);
            } else {
                if let TermValue::BitVec(bits, size) = vals[0] {
                    lemma_fixed_bitvec_fits(op, vals);
                }
                if let ChcOp::Int2Bv(bits) = op {
                    lemma_residue_fits(integer(vals[0]), bits);
                }
            }
        },
        ExprModel::PredicateApp(name, id, args) => {
            lemma_coerce_fits(
                interp(Symbol::Predicate(name, id), eval_all(args, env, interp)),
                SortModel::Bool,
            );
        },
        ExprModel::FuncApp(name, sort, args) => {
            lemma_coerce_fits(
                interp(Symbol::Func(name, sort), eval_all(args, env, interp)),
                sort,
            );
        },
        ExprModel::ConstArrayMarker(sort) => {
            lemma_coerce_fits(interp(Symbol::ConstArray(sort), Seq::empty()), sort);
        },
        _ => {},
    }
}

/// The operators with a fixed bit-vector value give a pattern of their width.
proof fn lemma_fixed_bitvec_fits(op: ChcOp, vals: Seq<TermValue>)
    ensures
        op is BvAdd || op is BvSub || op is BvMul || op is BvNot || op is BvNeg ==> has_sort(
            fixed_meaning(op, vals)->0,
            SortModel::BitVec(width(vals[0])),
        ),
        op is BvZeroExtend || op is BvSignExtend ==> has_sort(
            fixed_meaning(op, vals)->0,
            SortModel::BitVec(widened(op, width(vals[0]) as int) as u32),
        ),
        op is BvExtract ==> has_sort(
            fixed_meaning(op, vals)->0,
            SortModel::BitVec((op->BvExtract_0 - op->BvExtract_1 + 1) as u32),
        ),
{
    let a = vals[0];
    let b = vals[1];
    match op {
        ChcOp::BvAdd => lemma_residue_fits((pattern(a) + pattern(b)) as int, width(a)),
        ChcOp::BvSub => lemma_residue_fits(pattern(a) - pattern(b), width(a)),
        ChcOp::BvMul => lemma_residue_fits((pattern(a) * pattern(b)) as int, width(a)),
        ChcOp::BvNot => lemma_residue_fits(-1 - pattern(a), width(a)),
        ChcOp::BvNeg => lemma_residue_fits(-pattern(a), width(a)),
        ChcOp::BvZeroExtend(extra) => lemma_residue_fits(
            pattern(a) as int,
            (width(a) + extra) as u32,
        ),
        ChcOp::BvSignExtend(extra) => lemma_residue_fits(
            signed_value(a),
            (width(a) + extra) as u32,
        ),
        ChcOp::BvExtract(high, low) => lemma_residue_fits(
            (pattern(a) / power2::pow2(low as nat)) as int,
            (high - low + 1) as u32,
        ),
        _ => {},
    }
}

} // verus!
