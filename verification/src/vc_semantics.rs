//! Values of submitted terms.
//!
//! The meaning of every submitted operator is given on numbers, without a look at
//! the Horn-clause operators that the lowering chooses for them.
use std::sync::Arc;

use vstd::arithmetic::power;
use vstd::arithmetic::power2;
use vstd::prelude::*;

use crate::bridge;
use crate::chc::{ChcOp, ConstructorModel, SelectorModel, SortModel, VarModel};
use crate::overflow;
use crate::semantics;
use crate::semantics::{Env, Interpretation, Symbol, TermValue};
use crate::vc::{
    BinaryOp, DtConstructor, DtField, Expr, ExprValue, OverflowCheck, Sort, SortKind, UnaryOp,
};

verus! {

/// What a submitted sort is, part by part.
pub open spec fn shape(sort: Sort) -> SortModel
    decreases sort,
{
    match sort.kind {
        SortKind::Bool => SortModel::Bool,
        SortKind::Int => SortModel::Int,
        SortKind::Real => SortModel::Real,
        SortKind::BitVec(width) => SortModel::BitVec(width.bits()),
        SortKind::Array(index, element) => SortModel::Array(
            Box::new(shape(*index)),
            Box::new(shape(*element)),
        ),
        SortKind::Datatype { name, constructors } => SortModel::Datatype {
            name: name@,
            constructors: constructor_shapes(constructors@),
        },
        SortKind::Uninterpreted(name) => SortModel::Uninterpreted(name@),
        SortKind::Unsupported => arbitrary(),
    }
}

/// What submitted constructors are.
pub open spec fn constructor_shapes(constructors: Seq<DtConstructor>) -> Seq<ConstructorModel>
    decreases constructors,
{
    Seq::new(
        constructors.len(),
        |i: int|
            if 0 <= i < constructors.len() {
                ConstructorModel {
                    name: constructors[i].name@,
                    selectors: field_shapes(constructors[i].fields@),
                }
            } else {
                arbitrary()
            },
    )
}

/// What submitted fields are.
pub open spec fn field_shapes(fields: Seq<DtField>) -> Seq<SelectorModel>
    decreases fields,
{
    Seq::new(
        fields.len(),
        |i: int|
            if 0 <= i < fields.len() {
                SelectorModel { name: fields[i].name@, sort: shape(fields[i].sort) }
            } else {
                arbitrary()
            },
    )
}

/// Whether Horn-clause problems have a sort: no part of it is of another kind.
pub open spec fn supported(sort: Sort) -> bool
    decreases sort,
{
    match sort.kind {
        SortKind::Unsupported => false,
        SortKind::Array(index, element) => supported(*index) && supported(*element),
        SortKind::Datatype { constructors, .. } => constructors_supported(constructors@),
        _ => true,
    }
}

/// Whether Horn-clause problems have the sorts of all fields of constructors.
pub open spec fn constructors_supported(constructors: Seq<DtConstructor>) -> bool
    decreases constructors,
{
    forall|i: int|
        0 <= i < constructors.len() ==> fields_supported((#[trigger] constructors[i]).fields@)
}

/// Whether Horn-clause problems have the sorts of all fields.
pub open spec fn fields_supported(fields: Seq<DtField>) -> bool
    decreases fields,
{
    forall|i: int| 0 <= i < fields.len() ==> supported((#[trigger] fields[i]).sort)
}

/// The number that decimal digits denote by their places.
pub open spec fn positional(digits: Seq<char>) -> int
    decreases digits.len(),
{
    if digits.len() == 0 {
        0
    } else {
        (digits[0] as int - '0' as int) * power::pow(10, (digits.len() - 1) as nat) + positional(
            digits.skip(1),
        )
    }
}

/// The number that a numeral with an optional sign denotes.
pub open spec fn numeral(text: Seq<char>) -> int {
    if text[0] == '-' {
        -positional(text.skip(1))
    } else if text[0] == '+' {
        positional(text.skip(1))
    } else {
        positional(text)
    }
}

/// Whether a pattern has a bit at a place.
pub open spec fn has_bit(bits: nat, place: nat) -> bool {
    (bits / power2::pow2(place)) % 2 == 1
}

/// The pattern of a number of bits.
pub open spec fn gather(bits: spec_fn(nat) -> bool, count: nat) -> nat
    decreases count,
{
    if count == 0 {
        0
    } else {
        let low = (count - 1) as nat;
        gather(bits, low) + if bits(low) {
            power2::pow2(low)
        } else {
            0
        }
    }
}

/// Whether all values are true.
pub open spec fn all_true(vals: Seq<TermValue>) -> bool {
    forall|i: int| 0 <= i < vals.len() ==> semantics::truth(#[trigger] vals[i])
}

/// Whether some value is true.
pub open spec fn some_true(vals: Seq<TermValue>) -> bool {
    exists|i: int| 0 <= i < vals.len() && semantics::truth(#[trigger] vals[i])
}

/// Whether no value occurs twice.
pub open spec fn all_differ(vals: Seq<TermValue>) -> bool {
    forall|i: int, j: int| 0 <= i < j < vals.len() ==> #[trigger] vals[i] != #[trigger] vals[j]
}

/// Number that stands for a value of a sort without arithmetic of its own.
pub open spec fn code(value: TermValue) -> int {
    match value {
        TermValue::Opaque(code) => code,
        _ => 0,
    }
}

/// Values of variables and of symbols without a fixed meaning, with the reals and
/// the arrays that they are read in.
pub struct World {
    pub env: Env,
    pub interp: Interpretation,
    /// The values of each sort.
    pub carrier: spec_fn(SortModel, TermValue) -> bool,
    pub real_of: spec_fn(int) -> int,
    pub real_neg: spec_fn(int) -> int,
    pub real_add: spec_fn(int, int) -> int,
    pub real_sub: spec_fn(int, int) -> int,
    pub real_mul: spec_fn(int, int) -> int,
    pub real_div: spec_fn(int, int) -> int,
    pub real_lt: spec_fn(int, int) -> bool,
    pub real_le: spec_fn(int, int) -> bool,
    /// Quotient of an integer by zero.
    pub div_zero: spec_fn(int) -> int,
    /// Remainder of an integer by zero.
    pub mod_zero: spec_fn(int) -> int,
    /// Element of an array at an index.
    pub select: spec_fn(TermValue, TermValue) -> TermValue,
    /// Array with an element put at an index.
    pub store: spec_fn(TermValue, TermValue, TermValue) -> TermValue,
    /// Array with one element everywhere.
    pub filled: spec_fn(SortModel, TermValue) -> TermValue,
}

/// Quotient of signed numbers, rounded towards zero; by zero, minus one or one away
/// from the dividend's sign.
pub open spec fn signed_quotient(x: int, y: int) -> int {
    if y != 0 {
        overflow::truncated_quotient(x, y)
    } else if x < 0 {
        1
    } else {
        -1
    }
}

/// Remainder of signed numbers with the sign of the dividend; by zero, the dividend.
pub open spec fn signed_remainder(x: int, y: int) -> int {
    if y != 0 {
        x - y * overflow::truncated_quotient(x, y)
    } else {
        x
    }
}

impl World {
    /// Whether a value is one of a sort.
    pub open spec fn holds(self, sort: SortModel, value: TermValue) -> bool {
        (self.carrier)(sort, value)
    }

    /// Whether the carriers are those of the sorts: truth values, integers, patterns
    /// and reals have theirs, and variables, functions and arrays give values of the
    /// sorts that they have.
    #[verifier::opaque]
    pub open spec fn carries(self) -> bool {
        &&& forall|value: TermValue| #[trigger] self.holds(SortModel::Bool, value) <==> value is Bool
        &&& forall|value: TermValue| #[trigger] self.holds(SortModel::Int, value) <==> value is Int
        &&& forall|value: TermValue| #[trigger]
            self.holds(SortModel::Real, value) <==> value is Opaque
        &&& forall|width: u32, value: TermValue| #[trigger]
            self.holds(SortModel::BitVec(width), value) <==> semantics::has_sort(
                value,
                SortModel::BitVec(width),
            )
        &&& forall|var: VarModel| self.holds(var.sort, #[trigger] (self.env)(var))
        &&& forall|name: Seq<char>, sort: SortModel, vals: Seq<TermValue>|
            self.holds(sort, #[trigger] (self.interp)(Symbol::Func(name, sort), vals))
        &&& forall|index: SortModel, element: SortModel, array: TermValue, at: TermValue|
            #![trigger self.holds(SortModel::Array(Box::new(index), Box::new(element)), array), (self.select)(array, at)]
            self.holds(SortModel::Array(Box::new(index), Box::new(element)), array)
                ==> self.holds(element, (self.select)(array, at))
        &&& forall|
            index: SortModel,
            element: SortModel,
            array: TermValue,
            at: TermValue,
            value: TermValue,
        |
            #![trigger self.holds(SortModel::Array(Box::new(index), Box::new(element)), array), (self.store)(array, at, value)]
            self.holds(SortModel::Array(Box::new(index), Box::new(element)), array)
                && self.holds(index, at) && self.holds(element, value) ==> self.holds(
                SortModel::Array(Box::new(index), Box::new(element)),
                (self.store)(array, at, value),
            )
        &&& forall|index: SortModel, element: SortModel, value: TermValue|
            #![trigger self.holds(element, value), (self.filled)(index, value)]
            self.holds(element, value) ==> self.holds(
                SortModel::Array(Box::new(index), Box::new(element)),
                (self.filled)(index, value),
            )
    }

    /// The usual value of a Horn-clause operator on one value, where an interpretation
    /// gives it one.
    pub open spec fn usual_of_one(self, op: ChcOp, a: TermValue) -> Option<TermValue> {
        match (op, a) {
            (ChcOp::Neg, TermValue::Int(x)) => Some(TermValue::Int(-x)),
            (ChcOp::Neg, TermValue::Opaque(x)) => Some(TermValue::Opaque((self.real_neg)(x))),
            _ => None,
        }
    }

    /// The usual value of a Horn-clause operator on two values, where an
    /// interpretation gives it one.
    pub open spec fn usual_of_two(self, op: ChcOp, a: TermValue, b: TermValue) -> Option<
        TermValue,
    > {
        match (op, a, b) {
            (ChcOp::Add, TermValue::Int(x), TermValue::Int(y)) => Some(TermValue::Int(x + y)),
            (ChcOp::Mul, TermValue::Int(x), TermValue::Int(y)) => Some(TermValue::Int(x * y)),
            (ChcOp::Div, TermValue::Int(x), TermValue::Int(y)) => Some(
                TermValue::Int(
                    if y == 0 {
                        (self.div_zero)(x)
                    } else {
                        x / y
                    },
                ),
            ),
            (ChcOp::Mod, TermValue::Int(x), TermValue::Int(y)) => Some(
                TermValue::Int(
                    if y == 0 {
                        (self.mod_zero)(x)
                    } else {
                        x % y
                    },
                ),
            ),
            (ChcOp::Add, TermValue::Opaque(x), TermValue::Opaque(y)) => Some(
                TermValue::Opaque((self.real_add)(x, y)),
            ),
            (ChcOp::Sub, TermValue::Opaque(x), TermValue::Opaque(y)) => Some(
                TermValue::Opaque((self.real_sub)(x, y)),
            ),
            (ChcOp::Mul, TermValue::Opaque(x), TermValue::Opaque(y)) => Some(
                TermValue::Opaque((self.real_mul)(x, y)),
            ),
            (ChcOp::Div, TermValue::Opaque(x), TermValue::Opaque(y)) => Some(
                TermValue::Opaque((self.real_div)(x, y)),
            ),
            (ChcOp::Lt, TermValue::Opaque(x), TermValue::Opaque(y)) => Some(
                TermValue::Bool((self.real_lt)(x, y)),
            ),
            (ChcOp::Le, TermValue::Opaque(x), TermValue::Opaque(y)) => Some(
                TermValue::Bool((self.real_le)(x, y)),
            ),
            (ChcOp::Gt, TermValue::Opaque(x), TermValue::Opaque(y)) => Some(
                TermValue::Bool((self.real_lt)(y, x)),
            ),
            (ChcOp::Ge, TermValue::Opaque(x), TermValue::Opaque(y)) => Some(
                TermValue::Bool((self.real_le)(y, x)),
            ),
            (ChcOp::Select, array, at) => Some((self.select)(array, at)),
            (ChcOp::BvConcat, TermValue::BitVec(p, high), TermValue::BitVec(q, low)) => Some(
                semantics::residue(
                    (p * power2::pow2(low as nat) + q) as int,
                    (high + low) as u32,
                ),
            ),
            (_, TermValue::BitVec(p, w), TermValue::BitVec(q, _)) => {
                let x = semantics::signed(p, w as nat);
                let y = semantics::signed(q, w as nat);
                match op {
                    ChcOp::BvUDiv => Some(
                        semantics::residue(
                            if q == 0 {
                                -1
                            } else {
                                (p / q) as int
                            },
                            w,
                        ),
                    ),
                    ChcOp::BvURem => Some(
                        semantics::residue(
                            if q == 0 {
                                p as int
                            } else {
                                (p % q) as int
                            },
                            w,
                        ),
                    ),
                    ChcOp::BvSDiv => Some(semantics::residue(signed_quotient(x, y), w)),
                    ChcOp::BvSRem => Some(semantics::residue(signed_remainder(x, y), w)),
                    ChcOp::BvAnd => Some(
                        semantics::residue(
                            gather(|i: nat| has_bit(p, i) && has_bit(q, i), w as nat) as int,
                            w,
                        ),
                    ),
                    ChcOp::BvOr => Some(
                        semantics::residue(
                            gather(|i: nat| has_bit(p, i) || has_bit(q, i), w as nat) as int,
                            w,
                        ),
                    ),
                    ChcOp::BvXor => Some(
                        semantics::residue(
                            gather(|i: nat| has_bit(p, i) != has_bit(q, i), w as nat) as int,
                            w,
                        ),
                    ),
                    ChcOp::BvShl => Some(
                        semantics::residue((p * power2::pow2(q)) as int, w),
                    ),
                    ChcOp::BvLShr => Some(
                        semantics::residue((p / power2::pow2(q)) as int, w),
                    ),
                    ChcOp::BvAShr => Some(
                        semantics::residue(x / (power2::pow2(q) as int), w),
                    ),
                    _ => None,
                }
            },
            _ => None,
        }
    }

    /// Whether the interpretation gives every operator, and every real and array, its
    /// usual value.
    #[verifier::opaque]
    pub open spec fn is_usual(self) -> bool {
        &&& forall|op: ChcOp, vals: Seq<TermValue>|
            #![trigger (self.interp)(Symbol::Op(op), vals)]
            vals.len() == 1 && self.usual_of_one(op, vals[0]) is Some ==> (self.interp)(
                Symbol::Op(op),
                vals,
            ) == self.usual_of_one(op, vals[0])->0
        &&& forall|op: ChcOp, vals: Seq<TermValue>|
            #![trigger (self.interp)(Symbol::Op(op), vals)]
            vals.len() == 2 && self.usual_of_two(op, vals[0], vals[1]) is Some ==> (self.interp)(
                Symbol::Op(op),
                vals,
            ) == self.usual_of_two(op, vals[0], vals[1])->0
        &&& forall|vals: Seq<TermValue>|
            #![trigger (self.interp)(Symbol::Op(ChcOp::Store), vals)]
            vals.len() == 3 ==> (self.interp)(Symbol::Op(ChcOp::Store), vals) == (self.store)(
                vals[0],
                vals[1],
                vals[2],
            )
        &&& forall|number: int, vals: Seq<TermValue>|
            #![trigger (self.interp)(Symbol::Real(number, 1), vals)]
            vals.len() == 0 ==> (self.interp)(Symbol::Real(number, 1), vals) == TermValue::Opaque(
                (self.real_of)(number),
            )
        &&& forall|index: SortModel, vals: Seq<TermValue>|
            #![trigger (self.interp)(Symbol::ConstArray(index), vals)]
            vals.len() == 1 ==> (self.interp)(Symbol::ConstArray(index), vals) == (self.filled)(
                index,
                vals[0],
            )
    }

    /// Value of a submitted operator on one value.
    pub open spec fn of_one(self, op: UnaryOp, a: TermValue) -> TermValue {
        let p = semantics::pattern(a) as int;
        let w = semantics::width(a);
        match op {
            UnaryOp::Not => TermValue::Bool(!semantics::truth(a)),
            UnaryOp::BvNeg => semantics::residue(-p, w),
            UnaryOp::BvNot => semantics::residue(-p - 1, w),
            UnaryOp::BvZeroExtend(extra) => semantics::residue(p, (w + extra) as u32),
            UnaryOp::BvSignExtend(extra) => semantics::residue(
                semantics::signed_value(a),
                (w + extra) as u32,
            ),
            UnaryOp::BvExtract(high, low) => semantics::residue(
                p / (power2::pow2(low as nat) as int),
                (high + 1 - low) as u32,
            ),
            UnaryOp::IntNeg => TermValue::Int(-semantics::integer(a)),
            UnaryOp::RealNeg => TermValue::Opaque((self.real_neg)(code(a))),
            UnaryOp::Bv2Int => TermValue::Int(p),
            UnaryOp::Int2Bv(width) => semantics::residue(semantics::integer(a), width),
        }
    }

    /// Value of a submitted operator on two values.
    pub open spec fn of_two(self, op: BinaryOp, a: TermValue, b: TermValue) -> TermValue {
        let p = semantics::pattern(a) as int;
        let q = semantics::pattern(b) as int;
        let w = semantics::width(a);
        let x = semantics::signed_value(a);
        let y = semantics::signed_value(b);
        let m = semantics::integer(a);
        let n = semantics::integer(b);
        match op {
            BinaryOp::Xor => TermValue::Bool(semantics::truth(a) != semantics::truth(b)),
            BinaryOp::Implies => TermValue::Bool(!semantics::truth(a) || semantics::truth(b)),
            BinaryOp::Eq => TermValue::Bool(a == b),
            BinaryOp::BvAdd => semantics::residue(p + q, w),
            BinaryOp::BvSub => semantics::residue(p - q, w),
            BinaryOp::BvMul => semantics::residue(p * q, w),
            BinaryOp::BvUDiv => semantics::residue(
                if q == 0 {
                    -1
                } else {
                    p / q
                },
                w,
            ),
            BinaryOp::BvSDiv => semantics::residue(signed_quotient(x, y), w),
            BinaryOp::BvURem => semantics::residue(
                if q == 0 {
                    p
                } else {
                    p % q
                },
                w,
            ),
            BinaryOp::BvSRem => semantics::residue(signed_remainder(x, y), w),
            BinaryOp::BvAnd => semantics::residue(
                gather(|i: nat| has_bit(p as nat, i) && has_bit(q as nat, i), w as nat) as int,
                w,
            ),
            BinaryOp::BvOr => semantics::residue(
                gather(|i: nat| has_bit(p as nat, i) || has_bit(q as nat, i), w as nat) as int,
                w,
            ),
            BinaryOp::BvXor => semantics::residue(
                gather(|i: nat| has_bit(p as nat, i) != has_bit(q as nat, i), w as nat) as int,
                w,
            ),
            BinaryOp::BvShl => semantics::residue(p * power2::pow2(q as nat), w),
            BinaryOp::BvLShr => semantics::residue(p / (power2::pow2(q as nat) as int), w),
            BinaryOp::BvAShr => semantics::residue(x / (power2::pow2(q as nat) as int), w),
            BinaryOp::BvULt => TermValue::Bool(p < q),
            BinaryOp::BvULe => TermValue::Bool(p <= q),
            BinaryOp::BvUGt => TermValue::Bool(q < p),
            BinaryOp::BvUGe => TermValue::Bool(q <= p),
            BinaryOp::BvSLt => TermValue::Bool(x < y),
            BinaryOp::BvSLe => TermValue::Bool(x <= y),
            BinaryOp::BvSGt => TermValue::Bool(y < x),
            BinaryOp::BvSGe => TermValue::Bool(y <= x),
            BinaryOp::BvConcat => semantics::residue(
                p * power2::pow2(semantics::width(b) as nat) + q,
                (w + semantics::width(b)) as u32,
            ),
            BinaryOp::IntAdd => TermValue::Int(m + n),
            BinaryOp::IntSub => TermValue::Int(m - n),
            BinaryOp::IntMul => TermValue::Int(m * n),
            BinaryOp::IntDiv => TermValue::Int(
                if n == 0 {
                    (self.div_zero)(m)
                } else {
                    m / n
                },
            ),
            BinaryOp::IntMod => TermValue::Int(
                if n == 0 {
                    (self.mod_zero)(m)
                } else {
                    m % n
                },
            ),
            BinaryOp::IntLt => TermValue::Bool(m < n),
            BinaryOp::IntLe => TermValue::Bool(m <= n),
            BinaryOp::IntGt => TermValue::Bool(n < m),
            BinaryOp::IntGe => TermValue::Bool(n <= m),
            BinaryOp::RealAdd => TermValue::Opaque((self.real_add)(code(a), code(b))),
            BinaryOp::RealSub => TermValue::Opaque((self.real_sub)(code(a), code(b))),
            BinaryOp::RealMul => TermValue::Opaque((self.real_mul)(code(a), code(b))),
            BinaryOp::RealDiv => TermValue::Opaque((self.real_div)(code(a), code(b))),
            BinaryOp::RealLt => TermValue::Bool((self.real_lt)(code(a), code(b))),
            BinaryOp::RealLe => TermValue::Bool((self.real_le)(code(a), code(b))),
            BinaryOp::RealGt => TermValue::Bool((self.real_lt)(code(b), code(a))),
            BinaryOp::RealGe => TermValue::Bool((self.real_le)(code(b), code(a))),
            BinaryOp::Select => (self.select)(a, b),
        }
    }

    /// Whether an exact result fits the width of its operands. A quotient by zero is
    /// none that could exceed it.
    pub open spec fn fits(self, check: OverflowCheck, a: TermValue, b: TermValue) -> bool {
        let p = semantics::pattern(a);
        let q = semantics::pattern(b);
        let w = semantics::width(a);
        let x = semantics::signed_value(a);
        let y = semantics::signed_value(b);
        match check {
            OverflowCheck::UnsignedAdd => p + q < power2::pow2(w as nat),
            OverflowCheck::UnsignedSub => p - q >= 0,
            OverflowCheck::UnsignedMul => p * q < power2::pow2(w as nat),
            OverflowCheck::SignedAdd => bridge::in_window(x + y, w),
            OverflowCheck::SignedSub => bridge::in_window(x - y, w),
            OverflowCheck::SignedMul => bridge::in_window(x * y, w),
            OverflowCheck::SignedDiv => y == 0 || bridge::in_window(
                overflow::truncated_quotient(x, y),
                w,
            ),
        }
    }

    /// Value of a submitted term.
    pub open spec fn meaning(self, expr: Expr) -> TermValue
        decreases expr,
    {
        match expr.value {
            ExprValue::BoolConst(value) => TermValue::Bool(value),
            ExprValue::BitVecConst { value, width } => semantics::residue(numeral(value@), width),
            ExprValue::IntConst(value) => TermValue::Int(numeral(value@)),
            ExprValue::RealConst(value) => TermValue::Opaque((self.real_of)(numeral(value@))),
            ExprValue::Var { name } => (self.env)(
                VarModel { name: name@, sort: shape(expr.sort) },
            ),
            ExprValue::Unary(op, inner) => self.of_one(op, self.meaning(*inner)),
            ExprValue::Binary(op, left, right) => self.of_two(
                op,
                self.meaning(*left),
                self.meaning(*right),
            ),
            ExprValue::And(args) => TermValue::Bool(all_true(self.meanings(args@))),
            ExprValue::Or(args) => TermValue::Bool(some_true(self.meanings(args@))),
            ExprValue::Distinct(args) => TermValue::Bool(all_differ(self.meanings(args@))),
            ExprValue::Ite { cond, then_expr, else_expr } => if semantics::truth(
                self.meaning(*cond),
            ) {
                self.meaning(*then_expr)
            } else {
                self.meaning(*else_expr)
            },
            ExprValue::Store { array, index, value } => (self.store)(
                self.meaning(*array),
                self.meaning(*index),
                self.meaning(*value),
            ),
            ExprValue::ConstArray { index_sort, value } => (self.filled)(
                shape(index_sort),
                self.meaning(*value),
            ),
            ExprValue::FuncApp { name, args } => (self.interp)(
                Symbol::Func(name@, shape(expr.sort)),
                self.meanings(args@),
            ),
            ExprValue::DatatypeConstructor { constructor_name, args } => (self.interp)(
                Symbol::Func(constructor_name@, shape(expr.sort)),
                self.meanings(args@),
            ),
            ExprValue::DatatypeSelector { selector_name, operand } => (self.interp)(
                Symbol::Func(selector_name@, shape(expr.sort)),
                seq![self.meaning(*operand)],
            ),
            ExprValue::NoOverflow(check, left, right) => TermValue::Bool(
                self.fits(check, self.meaning(*left), self.meaning(*right)),
            ),
            ExprValue::NegNoOverflow(inner) => TermValue::Bool(
                bridge::in_window(
                    -semantics::signed_value(self.meaning(*inner)),
                    semantics::width(self.meaning(*inner)),
                ),
            ),
            ExprValue::Unsupported(_) => arbitrary(),
        }
    }

    /// Values of submitted terms.
    pub open spec fn meanings(self, exprs: Seq<Arc<Expr>>) -> Seq<TermValue>
        decreases exprs,
    {
        Seq::new(
            exprs.len(),
            |i: int|
                if 0 <= i < exprs.len() {
                    self.meaning(*exprs[i])
                } else {
                    arbitrary()
                },
        )
    }
}

/// Whether an operator on one term takes a sort to another.
pub open spec fn takes_one(op: UnaryOp, a: SortModel, result: SortModel) -> bool {
    match op {
        UnaryOp::Not => a is Bool && result is Bool,
        UnaryOp::BvNeg | UnaryOp::BvNot => a is BitVec && result == a,
        UnaryOp::BvZeroExtend(extra) => a is BitVec && result is BitVec && result->BitVec_0
            == a->BitVec_0 + extra,
        UnaryOp::BvSignExtend(extra) => a is BitVec && result is BitVec && result->BitVec_0
            == a->BitVec_0 + extra,
        UnaryOp::BvExtract(high, low) => a is BitVec && low <= high < a->BitVec_0
            && result is BitVec && result->BitVec_0 == high - low + 1,
        UnaryOp::IntNeg => a is Int && result is Int,
        UnaryOp::RealNeg => a is Real && result is Real,
        UnaryOp::Bv2Int => a is BitVec && result is Int,
        UnaryOp::Int2Bv(width) => a is Int && result == SortModel::BitVec(width),
    }
}

/// Whether an operator on two terms takes two sorts to another.
pub open spec fn takes_two(op: BinaryOp, a: SortModel, b: SortModel, result: SortModel) -> bool {
    match op {
        BinaryOp::Xor | BinaryOp::Implies => a is Bool && b is Bool && result is Bool,
        BinaryOp::Eq => a == b && result is Bool,
        BinaryOp::BvULt
        | BinaryOp::BvULe
        | BinaryOp::BvUGt
        | BinaryOp::BvUGe
        | BinaryOp::BvSLt
        | BinaryOp::BvSLe
        | BinaryOp::BvSGt
        | BinaryOp::BvSGe => a is BitVec && b == a && result is Bool,
        BinaryOp::BvConcat => a is BitVec && b is BitVec && result is BitVec && result->BitVec_0
            == a->BitVec_0 + b->BitVec_0,
        BinaryOp::IntAdd
        | BinaryOp::IntSub
        | BinaryOp::IntMul
        | BinaryOp::IntDiv
        | BinaryOp::IntMod => a is Int && b is Int && result is Int,
        BinaryOp::IntLt | BinaryOp::IntLe | BinaryOp::IntGt | BinaryOp::IntGe => a is Int
            && b is Int && result is Bool,
        BinaryOp::RealAdd | BinaryOp::RealSub | BinaryOp::RealMul | BinaryOp::RealDiv => a is Real
            && b is Real && result is Real,
        BinaryOp::RealLt | BinaryOp::RealLe | BinaryOp::RealGt | BinaryOp::RealGe => a is Real
            && b is Real && result is Bool,
        BinaryOp::Select => a == SortModel::Array(Box::new(b), Box::new(result)),
        _ => a is BitVec && b == a && result == a,
    }
}

/// Whether every operator of a term is applied to terms of the sorts that it takes,
/// and the sort of each subterm is the one that it says.
pub open spec fn typed(expr: Expr) -> bool
    decreases expr,
{
    let sort = shape(expr.sort);
    match expr.value {
        ExprValue::BoolConst(_) => sort is Bool,
        ExprValue::BitVecConst { value, width } => sort == SortModel::BitVec(width) && 0 <= numeral(
            value@,
        ) < power2::pow2(width as nat),
        ExprValue::IntConst(_) => sort is Int,
        ExprValue::RealConst(_) => sort is Real,
        ExprValue::Var { .. } => true,
        ExprValue::Unary(op, inner) => typed(*inner) && takes_one(op, shape(inner.sort), sort),
        ExprValue::Binary(op, left, right) => typed(*left) && typed(*right) && takes_two(
            op,
            shape(left.sort),
            shape(right.sort),
            sort,
        ),
        ExprValue::And(args) => all_typed(args@) && all_of(args@, SortModel::Bool) && sort is Bool,
        ExprValue::Or(args) => all_typed(args@) && all_of(args@, SortModel::Bool) && sort is Bool,
        ExprValue::Distinct(args) => all_typed(args@) && sort is Bool && forall|i: int, j: int|
            0 <= i < args@.len() && 0 <= j < args@.len() ==> shape((#[trigger] args@[i]).sort)
                == shape((#[trigger] args@[j]).sort),
        ExprValue::Ite { cond, then_expr, else_expr } => typed(*cond) && typed(*then_expr) && typed(
            *else_expr,
        ) && shape(cond.sort) is Bool && shape(then_expr.sort) == sort && shape(else_expr.sort)
            == sort,
        ExprValue::Store { array, index, value } => typed(*array) && typed(*index) && typed(*value)
            && shape(array.sort) == sort && sort == SortModel::Array(
            Box::new(shape(index.sort)),
            Box::new(shape(value.sort)),
        ),
        ExprValue::ConstArray { index_sort, value } => typed(*value) && sort == SortModel::Array(
            Box::new(shape(index_sort)),
            Box::new(shape(value.sort)),
        ),
        ExprValue::FuncApp { args, .. } => all_typed(args@),
        ExprValue::DatatypeConstructor { args, .. } => all_typed(args@),
        ExprValue::DatatypeSelector { operand, .. } => typed(*operand),
        ExprValue::NoOverflow(_, left, right) => typed(*left) && typed(*right) && shape(
            left.sort,
        ) is BitVec && shape(left.sort)->BitVec_0 >= 1 && shape(right.sort) == shape(left.sort)
            && sort is Bool,
        ExprValue::NegNoOverflow(inner) => typed(*inner) && shape(inner.sort) is BitVec && shape(
            inner.sort,
        )->BitVec_0 >= 1 && sort is Bool,
        ExprValue::Unsupported(_) => true,
    }
}

/// Whether all of several terms are typed.
pub open spec fn all_typed(exprs: Seq<Arc<Expr>>) -> bool
    decreases exprs,
{
    forall|i: int| 0 <= i < exprs.len() ==> typed(*#[trigger] exprs[i])
}

/// Whether all of several terms are of one sort.
pub open spec fn all_of(exprs: Seq<Arc<Expr>>, sort: SortModel) -> bool {
    forall|i: int| 0 <= i < exprs.len() ==> shape((#[trigger] exprs[i]).sort) == sort
}

} // verus!
