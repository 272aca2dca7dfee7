//! Laws of the lowering: a lowered term has the sort and the value of the submitted
//! one, and a lowered rule says what the submitted one says.
use std::sync::Arc;

use vstd::arithmetic::div_mod;
use vstd::arithmetic::power;
use vstd::arithmetic::power2;
use vstd::prelude::*;

use crate::bridge_laws;
use crate::chc;
use crate::chc::{ChcOp, ConstructorModel, ExprModel, SelectorModel, SortModel, VarModel};
use crate::error::ErrorModel;
use crate::lowering;
use crate::overflow;
use crate::semantics;
use crate::semantics::{Symbol, TermValue};
use crate::terms;
use crate::text;
use crate::vc::{
    BinaryOp, DtConstructor, DtField, Expr, ExprValue, OverflowCheck, Sort, SortKind, UnaryOp,
};
use crate::vc_semantics;
use crate::vc_semantics::{numeral, positional, shape, supported, typed, World};

verus! {

/// A sort is lowered exactly where Horn-clause problems have all its parts, and part
/// by part.
pub proof fn law_sorts_are_kept(sort: Sort)
    ensures
        lowering::lowered_sort(sort) is Ok <==> supported(sort),
        lowering::lowered_sort(sort) matches Ok(lowered) ==> lowered == shape(sort),
    decreases sort, 0nat,
{
    match sort.kind {
        SortKind::Array(index, element) => {
            law_sorts_are_kept(*index);
            law_sorts_are_kept(*element);
        },
        SortKind::Datatype { name, constructors } => {
            lemma_constructors_kept(constructors@);
        },
        _ => {},
    }
}

proof fn lemma_constructors_kept(constructors: Seq<DtConstructor>)
    ensures
        lowering::lowered_constructors(constructors) is Ok
            <==> vc_semantics::constructors_supported(constructors),
        lowering::lowered_constructors(constructors) matches Ok(lowered) ==> lowered
            == vc_semantics::constructor_shapes(constructors),
    decreases constructors, 0nat,
{
    if constructors.len() > 0 {
        let front = constructors.drop_last();
        let last = constructors[constructors.len() - 1];
        lemma_constructors_kept(front);
        lemma_fields_kept(last.fields@);
        if vc_semantics::constructors_supported(constructors) {
            assert forall|i: int| 0 <= i < front.len() implies vc_semantics::fields_supported(
                (#[trigger] front[i]).fields@,
            ) by {
                assert(vc_semantics::fields_supported(constructors[i].fields@));
            }
            assert(vc_semantics::fields_supported(constructors[constructors.len() - 1].fields@));
        }
        if vc_semantics::constructors_supported(front) && vc_semantics::fields_supported(
            last.fields@,
        ) {
            assert forall|i: int|
                0 <= i < constructors.len() implies vc_semantics::fields_supported(
                (#[trigger] constructors[i]).fields@,
            ) by {
                if i < front.len() {
                    assert(vc_semantics::fields_supported(front[i].fields@));
                }
            }
        }
        if lowering::lowered_constructors(constructors) is Ok {
            assert(lowering::lowered_constructors(constructors)->Ok_0
                =~= vc_semantics::constructor_shapes(constructors));
        }
    } else {
        assert(Seq::<ConstructorModel>::empty() =~= vc_semantics::constructor_shapes(constructors));
    }
}

proof fn lemma_fields_kept(fields: Seq<DtField>)
    ensures
        lowering::lowered_fields(fields) is Ok <==> vc_semantics::fields_supported(fields),
        lowering::lowered_fields(fields) matches Ok(lowered) ==> lowered
            == vc_semantics::field_shapes(fields),
    decreases fields, 0nat,
{
    if fields.len() > 0 {
        let front = fields.drop_last();
        let last = fields[fields.len() - 1];
        lemma_fields_kept(front);
        law_sorts_are_kept(last.sort);
        if vc_semantics::fields_supported(fields) {
            assert forall|i: int| 0 <= i < front.len() implies supported(
                (#[trigger] front[i]).sort,
            ) by {
                assert(supported(fields[i].sort));
            }
            assert(supported(fields[fields.len() - 1].sort));
        }
        if vc_semantics::fields_supported(front) && supported(last.sort) {
            assert forall|i: int| 0 <= i < fields.len() implies supported(
                (#[trigger] fields[i]).sort,
            ) by {
                if i < front.len() {
                    assert(supported(front[i].sort));
                }
            }
        }
        if lowering::lowered_fields(fields) is Ok {
            assert(lowering::lowered_fields(fields)->Ok_0 =~= vc_semantics::field_shapes(fields));
        }
    } else {
        assert(Seq::<SelectorModel>::empty() =~= vc_semantics::field_shapes(fields));
    }
}

proof fn lemma_next_digit(digits: Seq<char>)
    requires
        digits.len() > 0,
    ensures
        positional(digits) == 10 * positional(digits.drop_last()) + (digits.last() as int
            - '0' as int),
    decreases digits.len(),
{
    if digits.len() == 1 {
        assert(digits.skip(1) =~= Seq::empty());
        assert(digits.drop_last() =~= Seq::empty());
        assert(positional(digits.skip(1)) == 0);
        assert(positional(digits.drop_last()) == 0);
        power::lemma_pow0(10);
        assert(positional(digits) == (digits[0] as int - '0' as int) * 1);
    } else {
        let rest = digits.skip(1);
        let front = digits.drop_last();
        lemma_next_digit(rest);
        assert(rest.drop_last() =~= front.skip(1));
        assert(rest.last() == digits.last());
        let d = digits[0] as int - '0' as int;
        let e = (digits.len() - 2) as nat;
        assert(front[0] == digits[0]);
        assert(power::pow(10, e + 1) == 10 * power::pow(10, e)) by {
            reveal(power::pow);
        }
        let unit = power::pow(10, e);
        assert(d * (10 * unit) == 10 * (d * unit)) by (nonlinear_arith);
        assert(positional(front) == d * unit + positional(front.skip(1)));
        assert(positional(digits) == d * power::pow(10, e + 1) + positional(rest));
    }
}

proof fn lemma_digits_by_place(digits: Seq<char>)
    requires
        text::digits_value(digits) is Some,
    ensures
        text::digits_value(digits)->0 == positional(digits),
    decreases digits.len(),
{
    lemma_next_digit(digits);
    if digits.len() > 1 {
        lemma_digits_by_place(digits.drop_last());
    } else {
        assert(digits.drop_last() =~= Seq::empty());
        assert(positional(digits.drop_last()) == 0);
    }
}

/// A numeral denotes the number of its digits by their places, with its sign.
pub proof fn law_numerals_are_read_by_place(numeral_text: Seq<char>)
    ensures
        text::integer_value(numeral_text) matches Some(value) ==> value == numeral(numeral_text),
        text::natural_value(numeral_text) matches Some(value) ==> value == numeral(numeral_text),
{
    let rest = numeral_text.skip(1);
    if text::digits_value(numeral_text) is Some {
        lemma_digits_by_place(numeral_text);
        lemma_first_is_digit(numeral_text);
    }
    if text::digits_value(rest) is Some {
        lemma_digits_by_place(rest);
    }
}

proof fn lemma_first_is_digit(digits: Seq<char>)
    requires
        text::digits_value(digits) is Some,
    ensures
        digits.len() > 0,
        '0' <= digits[0] <= '9',
    decreases digits.len(),
{
    if digits.len() > 1 {
        lemma_first_is_digit(digits.drop_last());
    }
}

proof fn lemma_coerced(world: World, value: TermValue, sort: SortModel)
    requires
        world.carries(),
        world.holds(sort, value),
    ensures
        semantics::coerce(value, Some(sort)) == value,
{
    reveal(World::carries);
    match sort {
        SortModel::Bool => {
            assert(value is Bool);
        },
        SortModel::Int => {
            assert(value is Int);
        },
        SortModel::BitVec(width) => {
            assert(semantics::has_sort(value, SortModel::BitVec(width)));
            div_mod::lemma_small_mod(
                semantics::pattern(value),
                power2::pow2(width as nat),
            );
        },
        _ => {},
    }
}

/// The term that is shared.
spec fn own(expr: Arc<Expr>) -> Expr {
    *expr
}

/// Whether a lowered term has the sort and the value of a submitted one.
pub open spec fn stands_for(world: World, lowered: ExprModel, expr: Expr) -> bool {
    &&& semantics::term_sort(lowered) == Some(shape(expr.sort))
    &&& semantics::eval(lowered, world.env, world.interp) == world.meaning(expr)
    &&& world.holds(shape(expr.sort), world.meaning(expr))
}

proof fn lemma_unary_kept(world: World, op: UnaryOp, inner: Expr, t: ExprModel, sort: SortModel)
    requires
        world.carries(),
        world.is_usual(),
        stands_for(world, t, inner),
        vc_semantics::takes_one(op, shape(inner.sort), sort),
    ensures
        ({
            let lowered = chc::unary(lowering::unary_target(op), t);
            &&& semantics::term_sort(lowered) == Some(sort)
            &&& semantics::eval(lowered, world.env, world.interp) == world.of_one(
                op,
                world.meaning(inner),
            )
            &&& world.holds(sort, world.of_one(op, world.meaning(inner)))
        }),
{
    reveal(World::carries);
    reveal(World::is_usual);
    let a = world.meaning(inner);
    let target = lowering::unary_target(op);
    let lowered = chc::unary(target, t);
    bridge_laws::lemma_eval_unary(t, world.env, world.interp);
    assert(world.holds(shape(inner.sort), a));
    if let SortModel::BitVec(width) = shape(inner.sort) {
        assert(semantics::has_sort(a, SortModel::BitVec(width)));
    }
    assert(seq![t][0] == t);
    assert(semantics::term_sort(lowered) == Some(sort));
    let value = world.of_one(op, a);
    if let SortModel::BitVec(width) = sort {
        assert(exists|number: int| value == semantics::residue(number, width)) by {
            let p = semantics::pattern(a) as int;
            match op {
                UnaryOp::BvNeg => assert(value == semantics::residue(-p, width)),
                UnaryOp::BvNot => assert(value == semantics::residue(-p - 1, width)),
                UnaryOp::BvZeroExtend(extra) => assert(value == semantics::residue(p, width)),
                UnaryOp::BvSignExtend(extra) => assert(value == semantics::residue(
                    semantics::signed_value(a),
                    width,
                )),
                UnaryOp::BvExtract(high, low) => assert(value == semantics::residue(
                    p / (power2::pow2(low as nat) as int),
                    width,
                )),
                _ => assert(value == semantics::residue(semantics::integer(a), width)),
            }
        }
        let number = choose|number: int| value == semantics::residue(number, width);
        semantics::lemma_residue_fits(number, width);
    }
    assert(world.holds(sort, value));
    lemma_coerced(world, value, sort);
    let vals = seq![a];
    if semantics::fixed_meaning(target, vals) is None {
        assert((world.interp)(Symbol::Op(target), vals) == value);
    }
}

#[verifier::rlimit(40)]
proof fn lemma_binary_kept(
    world: World,
    op: BinaryOp,
    left: Expr,
    right: Expr,
    l: ExprModel,
    r: ExprModel,
    sort: SortModel,
)
    requires
        world.carries(),
        world.is_usual(),
        stands_for(world, l, left),
        stands_for(world, r, right),
        vc_semantics::takes_two(op, shape(left.sort), shape(right.sort), sort),
    ensures
        ({
            let lowered = chc::binary(lowering::binary_target(op), l, r);
            let value = world.of_two(op, world.meaning(left), world.meaning(right));
            &&& semantics::term_sort(lowered) == Some(sort)
            &&& semantics::eval(lowered, world.env, world.interp) == value
            &&& world.holds(sort, value)
        }),
{
    reveal(World::carries);
    reveal(World::is_usual);
    let a = world.meaning(left);
    let b = world.meaning(right);
    let target = lowering::binary_target(op);
    let lowered = chc::binary(target, l, r);
    let vals = seq![a, b];
    bridge_laws::lemma_eval_binary(l, r, world.env, world.interp);
    assert(world.holds(shape(left.sort), a));
    assert(world.holds(shape(right.sort), b));
    if let SortModel::BitVec(width) = shape(left.sort) {
        assert(semantics::has_sort(a, SortModel::BitVec(width)));
    }
    if let SortModel::BitVec(width) = shape(right.sort) {
        assert(semantics::has_sort(b, SortModel::BitVec(width)));
    }
    lemma_binary_sort(op, l, r, shape(left.sort), shape(right.sort), sort);
    let value = world.of_two(op, a, b);
    lemma_two_held(world, op, a, b, shape(left.sort), shape(right.sort), sort);
    lemma_coerced(world, value, sort);
    if semantics::fixed_meaning(target, vals) is None {
        lemma_usual_of_two(world, op, a, b);
        assert((world.interp)(Symbol::Op(target), vals) == value);
    } else {
        lemma_fixed_of_two(world, op, a, b);
    }
}

proof fn lemma_binary_sort(
    op: BinaryOp,
    l: ExprModel,
    r: ExprModel,
    a: SortModel,
    b: SortModel,
    sort: SortModel,
)
    requires
        semantics::term_sort(l) == Some(a),
        semantics::term_sort(r) == Some(b),
        vc_semantics::takes_two(op, a, b, sort),
    ensures
        semantics::term_sort(chc::binary(lowering::binary_target(op), l, r)) == Some(sort),
{
    assert(seq![l, r][0] == l && seq![l, r][1] == r);
}

proof fn lemma_two_held(
    world: World,
    op: BinaryOp,
    a: TermValue,
    b: TermValue,
    one: SortModel,
    two: SortModel,
    sort: SortModel,
)
    requires
        world.carries(),
        world.holds(one, a),
        world.holds(two, b),
        vc_semantics::takes_two(op, one, two, sort),
    ensures
        world.holds(sort, world.of_two(op, a, b)),
{
    reveal(World::carries);
    let value = world.of_two(op, a, b);
    if op == BinaryOp::Select {
        assert(world.holds(SortModel::Array(Box::new(two), Box::new(sort)), a));
    } else if let SortModel::BitVec(width) = sort {
        assert(one is BitVec && two is BitVec);
        assert(semantics::has_sort(a, SortModel::BitVec(one->BitVec_0)));
        assert(semantics::has_sort(b, SortModel::BitVec(two->BitVec_0)));
        lemma_two_fit(world, op, a, b, width);
    }
}

/// Where the lowered operator has a fixed value, that is the value of the submitted
/// one.
proof fn lemma_fixed_of_two(world: World, op: BinaryOp, a: TermValue, b: TermValue)
    requires
        semantics::fixed_meaning(lowering::binary_target(op), seq![a, b]) is Some,
        match op {
            BinaryOp::Xor | BinaryOp::Implies => a is Bool && b is Bool,
            BinaryOp::Select | BinaryOp::Eq => true,
            BinaryOp::IntAdd
            | BinaryOp::IntSub
            | BinaryOp::IntMul
            | BinaryOp::IntDiv
            | BinaryOp::IntMod
            | BinaryOp::IntLt
            | BinaryOp::IntLe
            | BinaryOp::IntGt
            | BinaryOp::IntGe => a is Int && b is Int,
            BinaryOp::RealAdd
            | BinaryOp::RealSub
            | BinaryOp::RealMul
            | BinaryOp::RealDiv
            | BinaryOp::RealLt
            | BinaryOp::RealLe
            | BinaryOp::RealGt
            | BinaryOp::RealGe => a is Opaque && b is Opaque,
            _ => a is BitVec && b is BitVec,
        },
    ensures
        semantics::fixed_meaning(lowering::binary_target(op), seq![a, b]) == Some(
            world.of_two(op, a, b),
        ),
{
}

/// The value of an operator that gives a bit-vector is a pattern of the width.
proof fn lemma_two_fit(world: World, op: BinaryOp, a: TermValue, b: TermValue, width: u32)
    requires
        a is BitVec,
        b is BitVec,
        op == BinaryOp::BvConcat ==> width == semantics::width(a) + semantics::width(b),
        op != BinaryOp::BvConcat ==> width == semantics::width(a),
        vc_semantics::takes_two(
            op,
            SortModel::BitVec(semantics::width(a)),
            SortModel::BitVec(semantics::width(b)),
            SortModel::BitVec(width),
        ),
    ensures
        semantics::has_sort(world.of_two(op, a, b), SortModel::BitVec(width)),
{
    let value = world.of_two(op, a, b);
    assert(exists|number: int| value == semantics::residue(number, width)) by {
        let p = semantics::pattern(a) as int;
        let q = semantics::pattern(b) as int;
        let w = semantics::width(a);
        let x = semantics::signed_value(a);
        let y = semantics::signed_value(b);
        match op {
            BinaryOp::BvAdd => assert(value == semantics::residue(p + q, w)),
            BinaryOp::BvSub => assert(value == semantics::residue(p - q, w)),
            BinaryOp::BvMul => assert(value == semantics::residue(p * q, w)),
            BinaryOp::BvUDiv => assert(value == semantics::residue(
                if q == 0 {
                    -1
                } else {
                    p / q
                },
                w,
            )),
            BinaryOp::BvSDiv => assert(value == semantics::residue(
                vc_semantics::signed_quotient(x, y),
                w,
            )),
            BinaryOp::BvURem => assert(value == semantics::residue(
                if q == 0 {
                    p
                } else {
                    p % q
                },
                w,
            )),
            BinaryOp::BvSRem => assert(value == semantics::residue(
                vc_semantics::signed_remainder(x, y),
                w,
            )),
            BinaryOp::BvShl => assert(value == semantics::residue(
                p * power2::pow2(q as nat),
                w,
            )),
            BinaryOp::BvLShr => assert(value == semantics::residue(
                p / (power2::pow2(q as nat) as int),
                w,
            )),
            BinaryOp::BvAShr => assert(value == semantics::residue(
                x / (power2::pow2(q as nat) as int),
                w,
            )),
            BinaryOp::BvConcat => assert(value == semantics::residue(
                p * power2::pow2(semantics::width(b) as nat) + q,
                width,
            )),
            BinaryOp::BvAnd => assert(value == semantics::residue(
                vc_semantics::gather(
                    |i: nat|
                        vc_semantics::has_bit(p as nat, i) && vc_semantics::has_bit(q as nat, i),
                    w as nat,
                ) as int,
                w,
            )),
            BinaryOp::BvOr => assert(value == semantics::residue(
                vc_semantics::gather(
                    |i: nat|
                        vc_semantics::has_bit(p as nat, i) || vc_semantics::has_bit(q as nat, i),
                    w as nat,
                ) as int,
                w,
            )),
            BinaryOp::BvXor => assert(value == semantics::residue(
                vc_semantics::gather(
                    |i: nat|
                        vc_semantics::has_bit(p as nat, i) != vc_semantics::has_bit(q as nat, i),
                    w as nat,
                ) as int,
                w,
            )),
            _ => {},
        }
    }
    let number = choose|number: int| value == semantics::residue(number, width);
    semantics::lemma_residue_fits(number, width);
}

/// Where an interpretation gives the lowered operator its value, that is the value of
/// the submitted one.
proof fn lemma_usual_of_two(world: World, op: BinaryOp, a: TermValue, b: TermValue)
    requires
        semantics::fixed_meaning(lowering::binary_target(op), seq![a, b]) is None,
        match op {
            BinaryOp::Select => true,
            BinaryOp::IntAdd
            | BinaryOp::IntSub
            | BinaryOp::IntMul
            | BinaryOp::IntDiv
            | BinaryOp::IntMod
            | BinaryOp::IntLt
            | BinaryOp::IntLe
            | BinaryOp::IntGt
            | BinaryOp::IntGe => a is Int && b is Int,
            BinaryOp::RealAdd
            | BinaryOp::RealSub
            | BinaryOp::RealMul
            | BinaryOp::RealDiv
            | BinaryOp::RealLt
            | BinaryOp::RealLe
            | BinaryOp::RealGt
            | BinaryOp::RealGe => a is Opaque && b is Opaque,
            BinaryOp::BvConcat => a is BitVec && b is BitVec,
            _ => a is BitVec && b is BitVec && semantics::width(a) == semantics::width(b),
        },
    ensures
        world.usual_of_two(lowering::binary_target(op), a, b) == Some(world.of_two(op, a, b)),
{
}

/// The expansion of an overflow predicate is true exactly where the exact result fits.
proof fn lemma_overflow_kept(
    world: World,
    check: OverflowCheck,
    left: Expr,
    right: Expr,
    l: ExprModel,
    r: ExprModel,
    width: u32,
)
    requires
        world.carries(),
        stands_for(world, l, left),
        stands_for(world, r, right),
        shape(left.sort) is BitVec,
        shape(left.sort)->BitVec_0 >= 1,
        shape(right.sort) == shape(left.sort),
        lowering::needs_width(check) ==> width == shape(left.sort)->BitVec_0 && width
            <= overflow::MAX_OVERFLOW_WIDTH,
    ensures
        ({
            let lowered = lowering::expansion(check, l, r, width);
            &&& semantics::term_sort(lowered) == Some(SortModel::Bool)
            &&& semantics::eval(lowered, world.env, world.interp) == TermValue::Bool(
                world.fits(check, world.meaning(left), world.meaning(right)),
            )
        }),
{
    reveal(World::carries);
    let w = shape(left.sort)->BitVec_0;
    let a = world.meaning(left);
    let b = world.meaning(right);
    let (env, interp) = (world.env, world.interp);
    assert(semantics::has_sort(a, SortModel::BitVec(w)));
    assert(semantics::has_sort(b, SortModel::BitVec(w)));
    let p = semantics::pattern(a);
    let q = semantics::pattern(b);
    assert(overflow::has_pattern(l, p, w, env, interp));
    assert(overflow::has_pattern(r, q, w, env, interp));
    match check {
        OverflowCheck::UnsignedAdd => {
            overflow::law_unsigned_add_fits(l, r, p, q, w, env, interp);
        },
        OverflowCheck::UnsignedSub => {
            overflow::law_unsigned_sub_fits(l, r, p, q, w, env, interp);
        },
        OverflowCheck::UnsignedMul => {
            overflow::law_unsigned_mul_fits(l, r, p, q, w, env, interp);
        },
        OverflowCheck::SignedAdd => {
            overflow::law_signed_step_fits(false, l, r, p, q, w, env, interp);
        },
        OverflowCheck::SignedSub => {
            overflow::law_signed_step_fits(true, l, r, p, q, w, env, interp);
        },
        OverflowCheck::SignedMul => {
            overflow::law_signed_mul_fits(l, r, p, q, w, env, interp);
        },
        OverflowCheck::SignedDiv => {
            bridge_laws::lemma_halves(w);
            if q != 0 {
                overflow::law_sdiv_fits(l, r, p, q, w, env, interp);
            } else {
                lemma_divided_by_zero(l, r, w, env, interp);
            }
            assert(semantics::signed(q, w as nat) == 0 <==> q == 0);
        },
    }
}

proof fn lemma_divided_by_zero(
    l: ExprModel,
    r: ExprModel,
    width: u32,
    env: semantics::Env,
    interp: semantics::Interpretation,
)
    requires
        1 <= width <= overflow::MAX_OVERFLOW_WIDTH,
        semantics::eval(r, env, interp) == TermValue::BitVec(0, width),
    ensures
        terms::truth_of(overflow::sdiv_fits(l, r, width), env, interp),
{
    let least = ExprModel::BitVec(power2::pow2((width - 1) as nat), width);
    let ones = ExprModel::BitVec(overflow::all_ones(width), width);
    let one = chc::binary(ChcOp::Eq, l, least);
    let two = chc::binary(ChcOp::Eq, r, ones);
    let both = chc::binary(ChcOp::And, one, two);
    bridge_laws::lemma_eval_binary(l, least, env, interp);
    bridge_laws::lemma_eval_binary(r, ones, env, interp);
    bridge_laws::lemma_eval_binary(one, two, env, interp);
    bridge_laws::lemma_eval_unary(both, env, interp);
    power2::lemma2_to64();
    if width < 128 && width > 1 {
        power2::lemma_pow2_strictly_increases(1, width as nat);
    }
    assert(overflow::all_ones(width) != 0);
    let vals = semantics::eval_all(seq![one, two], env, interp);
    assert(!semantics::truth(vals[1]));
}

proof fn lemma_list_at(exprs: Seq<Arc<Expr>>, i: int)
    requires
        lowering::lowered_exprs(exprs) is Ok,
        0 <= i < exprs.len(),
    ensures
        lowering::lowered_exprs(exprs)->Ok_0.len() == exprs.len(),
        lowering::lowered_expr(*exprs[i]) == Ok::<ExprModel, ErrorModel>(
            lowering::lowered_exprs(exprs)->Ok_0[i],
        ),
    decreases exprs.len(),
{
    let front = exprs.drop_last();
    if i < front.len() {
        lemma_list_at(front, i);
        assert(front[i] == exprs[i]);
    } else {
        lemma_list_len(front);
    }
}

proof fn lemma_list_len(exprs: Seq<Arc<Expr>>)
    requires
        lowering::lowered_exprs(exprs) is Ok,
    ensures
        lowering::lowered_exprs(exprs)->Ok_0.len() == exprs.len(),
    decreases exprs.len(),
{
    if exprs.len() > 0 {
        lemma_list_len(exprs.drop_last());
    }
}

/// Whether lowered terms have the sorts and the values of submitted ones.
pub open spec fn all_stand_for(
    world: World,
    lowered: Seq<ExprModel>,
    exprs: Seq<Arc<Expr>>,
) -> bool {
    &&& lowered.len() == exprs.len()
    &&& forall|i: int| 0 <= i < exprs.len() ==> stands_for(world, #[trigger] lowered[i], *exprs[i])
}

/// Whether a lowered term stands for the submitted one.
spec fn kept(world: World, expr: Expr) -> bool {
    lowering::lowered_expr(expr) is Ok && stands_for(
        world,
        lowering::lowered_expr(expr)->Ok_0,
        expr,
    )
}

proof fn lemma_literal_kept(world: World, expr: Expr)
    requires
        world.carries(),
        world.is_usual(),
        typed(expr),
        lowering::lowered_expr(expr) is Ok,
        expr.value is BoolConst || expr.value is BitVecConst || expr.value is IntConst
            || expr.value is RealConst || expr.value is Var,
    ensures
        kept(world, expr),
{
    reveal(World::carries);
    reveal(World::is_usual);
    let sort = shape(expr.sort);
    match expr.value {
        ExprValue::BitVecConst { value, width } => {
            law_numerals_are_read_by_place(value@);
            div_mod::lemma_small_mod(numeral(value@) as nat, power2::pow2(width as nat));
        },
        ExprValue::IntConst(value) => {
            law_numerals_are_read_by_place(value@);
        },
        ExprValue::RealConst(value) => {
            law_numerals_are_read_by_place(value@);
            assert((world.interp)(Symbol::Real(numeral(value@), 1), Seq::empty())
                == TermValue::Opaque((world.real_of)(numeral(value@))));
        },
        ExprValue::Var { name } => {
            law_sorts_are_kept(expr.sort);
            let var = VarModel { name: name@, sort };
            assert(world.holds(var.sort, (world.env)(var)));
        },
        _ => {},
    }
}

proof fn lemma_choice_kept(
    world: World,
    expr: Expr,
    cond: Expr,
    then_expr: Expr,
    else_expr: Expr,
)
    requires
        world.carries(),
        typed(expr),
        expr.value matches ExprValue::Ite { cond: c, then_expr: t, else_expr: e } && own(c) == cond
            && own(t) == then_expr && own(e) == else_expr,
        kept(world, cond),
        kept(world, then_expr),
        kept(world, else_expr),
    ensures
        kept(world, expr),
{
    let c = lowering::lowered_expr(cond)->Ok_0;
    let t = lowering::lowered_expr(then_expr)->Ok_0;
    let e = lowering::lowered_expr(else_expr)->Ok_0;
    let args = seq![c, t, e];
    assert(lowering::lowered_expr(expr) == Ok::<ExprModel, ErrorModel>(
        ExprModel::Op(ChcOp::Ite, args),
    ));
    lemma_eval_three(world, args);
    assert(args[1] == t);
}

proof fn lemma_store_kept(world: World, expr: Expr, array: Expr, index: Expr, value: Expr)
    requires
        world.carries(),
        world.is_usual(),
        typed(expr),
        expr.value matches ExprValue::Store { array: a, index: i, value: v } && own(a) == array
            && own(i) == index && own(v) == value,
        kept(world, array),
        kept(world, index),
        kept(world, value),
    ensures
        kept(world, expr),
{
    reveal(World::carries);
    reveal(World::is_usual);
    let sort = shape(expr.sort);
    let a = lowering::lowered_expr(array)->Ok_0;
    let i = lowering::lowered_expr(index)->Ok_0;
    let v = lowering::lowered_expr(value)->Ok_0;
    let args = seq![a, i, v];
    assert(lowering::lowered_expr(expr) == Ok::<ExprModel, ErrorModel>(
        ExprModel::Op(ChcOp::Store, args),
    ));
    lemma_eval_three(world, args);
    let vals = semantics::eval_all(args, world.env, world.interp);
    assert(args[0] == a);
    assert(world.holds(
        SortModel::Array(Box::new(shape(index.sort)), Box::new(shape(value.sort))),
        world.meaning(array),
    ));
    assert(semantics::fixed_meaning(ChcOp::Store, vals) is None);
    assert((world.interp)(Symbol::Op(ChcOp::Store), vals) == (world.store)(
        vals[0],
        vals[1],
        vals[2],
    ));
    assert(world.meaning(expr) == (world.store)(vals[0], vals[1], vals[2]));
    assert(world.holds(sort, world.meaning(expr)));
    lemma_coerced(world, world.meaning(expr), sort);
}

proof fn lemma_filled_kept(world: World, expr: Expr, index_sort: Sort, value: Expr)
    requires
        world.carries(),
        world.is_usual(),
        typed(expr),
        lowering::lowered_expr(expr) is Ok,
        expr.value matches ExprValue::ConstArray { index_sort: s, value: v } && s == index_sort
            && own(v) == value,
        kept(world, value),
    ensures
        kept(world, expr),
{
    reveal(World::carries);
    reveal(World::is_usual);
    law_sorts_are_kept(index_sort);
    let v = world.meaning(value);
    assert(world.holds(shape(value.sort), v));
    assert((world.interp)(Symbol::ConstArray(shape(index_sort)), seq![v]) == (world.filled)(
        shape(index_sort),
        v,
    ));
}

/// A function applied to values has a value of its sort.
proof fn lemma_applied_kept(
    world: World,
    name: Seq<char>,
    sort: SortModel,
    lowered: Seq<ExprModel>,
    vals: Seq<TermValue>,
)
    requires
        world.carries(),
        semantics::eval_all(lowered, world.env, world.interp) == vals,
    ensures
        semantics::eval(ExprModel::FuncApp(name, sort, lowered), world.env, world.interp) == (
        world.interp)(Symbol::Func(name, sort), vals),
        world.holds(sort, (world.interp)(Symbol::Func(name, sort), vals)),
{
    reveal(World::carries);
    let value = (world.interp)(Symbol::Func(name, sort), vals);
    assert(world.holds(sort, value));
    lemma_coerced(world, value, sort);
}

proof fn lemma_negation_kept(world: World, expr: Expr, inner: Expr)
    requires
        world.carries(),
        typed(expr),
        lowering::lowered_expr(expr) is Ok,
        expr.value matches ExprValue::NegNoOverflow(i) && own(i) == inner,
        kept(world, inner),
    ensures
        kept(world, expr),
{
    reveal(World::carries);
    let a = world.meaning(inner);
    let w = shape(inner.sort)->BitVec_0;
    let t = lowering::lowered_expr(inner)->Ok_0;
    assert(semantics::has_sort(a, SortModel::BitVec(w)));
    law_sorts_are_kept(inner.sort);
    assert(lowering::lowered_expr(expr) == Ok::<ExprModel, ErrorModel>(
        overflow::neg_fits(t, w),
    ));
    overflow::law_neg_fits(t, semantics::pattern(a), w, world.env, world.interp);
}

proof fn lemma_checked_kept(world: World, expr: Expr, check: OverflowCheck, left: Expr, right: Expr)
    requires
        world.carries(),
        typed(expr),
        lowering::lowered_expr(expr) is Ok,
        expr.value matches ExprValue::NoOverflow(c, l, r) && c == check && own(l) == left && own(r)
            == right,
        kept(world, left),
        kept(world, right),
    ensures
        kept(world, expr),
{
    reveal(World::carries);
    let width = lowering::overflow_width(left)->Ok_0;
    lemma_overflow_kept(
        world,
        check,
        left,
        right,
        lowering::lowered_expr(left)->Ok_0,
        lowering::lowered_expr(right)->Ok_0,
        width,
    );
}

/// Lowering keeps meaning: where every operator of a submitted term is applied to
/// terms of the sorts that it takes, the lowered term has its sort and, whatever the
/// variables, functions, reals and arrays are, its value.
#[verifier::rlimit(30)]
pub proof fn law_lowering_keeps_meaning(world: World, expr: Expr)
    requires
        world.carries(),
        world.is_usual(),
        typed(expr),
        lowering::lowered_expr(expr) is Ok,
    ensures
        stands_for(world, lowering::lowered_expr(expr)->Ok_0, expr),
    decreases expr, 1nat,
{
    match expr.value {
        ExprValue::Unary(op, inner) => {
            law_lowering_keeps_meaning(world, own(inner));
            lemma_unary_kept(
                world,
                op,
                own(inner),
                lowering::lowered_expr(own(inner))->Ok_0,
                shape(expr.sort),
            );
        },
        ExprValue::Binary(op, left, right) => {
            law_lowering_keeps_meaning(world, own(left));
            law_lowering_keeps_meaning(world, own(right));
            lemma_binary_kept(
                world,
                op,
                own(left),
                own(right),
                lowering::lowered_expr(own(left))->Ok_0,
                lowering::lowered_expr(own(right))->Ok_0,
                shape(expr.sort),
            );
        },
        ExprValue::And(args) => {
            lemma_lists_keep_meaning(world, args@);
            lemma_connective_kept(world, expr, args@);
        },
        ExprValue::Or(args) => {
            lemma_lists_keep_meaning(world, args@);
            lemma_connective_kept(world, expr, args@);
        },
        ExprValue::Distinct(args) => {
            if args@.len() >= 2 {
                lemma_lists_keep_meaning(world, args@);
            }
            lemma_connective_kept(world, expr, args@);
        },
        ExprValue::Ite { cond, then_expr, else_expr } => {
            law_lowering_keeps_meaning(world, own(cond));
            law_lowering_keeps_meaning(world, own(then_expr));
            law_lowering_keeps_meaning(world, own(else_expr));
            lemma_choice_kept(world, expr, own(cond), own(then_expr), own(else_expr));
        },
        ExprValue::Store { array, index, value } => {
            law_lowering_keeps_meaning(world, own(array));
            law_lowering_keeps_meaning(world, own(index));
            law_lowering_keeps_meaning(world, own(value));
            lemma_store_kept(world, expr, own(array), own(index), own(value));
        },
        ExprValue::ConstArray { index_sort, value } => {
            law_lowering_keeps_meaning(world, own(value));
            lemma_filled_kept(world, expr, index_sort, own(value));
        },
        ExprValue::FuncApp { name, args } => {
            lemma_lists_keep_meaning(world, args@);
            lemma_application_kept(world, expr, name@, args@);
        },
        ExprValue::DatatypeConstructor { constructor_name, args } => {
            lemma_lists_keep_meaning(world, args@);
            lemma_application_kept(world, expr, constructor_name@, args@);
        },
        ExprValue::DatatypeSelector { selector_name, operand } => {
            law_sorts_are_kept(expr.sort);
            law_lowering_keeps_meaning(world, own(operand));
            let lowered = lowering::lowered_expr(own(operand))->Ok_0;
            bridge_laws::lemma_eval_unary(lowered, world.env, world.interp);
            lemma_applied_kept(
                world,
                selector_name@,
                shape(expr.sort),
                seq![lowered],
                seq![world.meaning(own(operand))],
            );
        },
        ExprValue::NoOverflow(check, left, right) => {
            law_lowering_keeps_meaning(world, own(left));
            law_lowering_keeps_meaning(world, own(right));
            lemma_checked_kept(world, expr, check, own(left), own(right));
        },
        ExprValue::NegNoOverflow(inner) => {
            law_lowering_keeps_meaning(world, own(inner));
            lemma_negation_kept(world, expr, own(inner));
        },
        ExprValue::Unsupported(_) => {},
        _ => {
            lemma_literal_kept(world, expr);
        },
    }
}

proof fn lemma_connective_kept(world: World, expr: Expr, args: Seq<Arc<Expr>>)
    requires
        world.carries(),
        typed(expr),
        lowering::lowered_expr(expr) is Ok,
        match expr.value {
            ExprValue::And(own) => own@ == args,
            ExprValue::Or(own) => own@ == args,
            ExprValue::Distinct(own) => own@ == args,
            _ => false,
        },
        args.len() >= 2 || !(expr.value is Distinct) ==> lowering::lowered_exprs(args) is Ok
            && all_stand_for(world, lowering::lowered_exprs(args)->Ok_0, args),
    ensures
        kept(world, expr),
{
    reveal(World::carries);
    let vals = world.meanings(args);
    match expr.value {
        ExprValue::And(_) => {
            lemma_conjunction_kept(world, args, lowering::lowered_exprs(args)->Ok_0);
        },
        ExprValue::Or(_) => {
            lemma_disjunction_kept(world, args, lowering::lowered_exprs(args)->Ok_0);
        },
        _ => {
            if args.len() >= 2 {
                lemma_distinct_kept(world, args, lowering::lowered_exprs(args)->Ok_0);
            } else {
                assert(vc_semantics::all_differ(vals));
            }
        },
    }
}

proof fn lemma_application_kept(world: World, expr: Expr, name: Seq<char>, args: Seq<Arc<Expr>>)
    requires
        world.carries(),
        lowering::lowered_expr(expr) is Ok,
        match expr.value {
            ExprValue::FuncApp { name: n, args: own } => n@ == name && own@ == args,
            ExprValue::DatatypeConstructor { constructor_name: n, args: own } => n@ == name && own@
                == args,
            _ => false,
        },
        lowering::lowered_exprs(args) is Ok,
        all_stand_for(world, lowering::lowered_exprs(args)->Ok_0, args),
    ensures
        kept(world, expr),
{
    law_sorts_are_kept(expr.sort);
    let lowered = lowering::lowered_exprs(args)->Ok_0;
    lemma_values_kept(world, args, lowered);
    lemma_applied_kept(world, name, shape(expr.sort), lowered, world.meanings(args));
}

pub proof fn lemma_lists_keep_meaning(world: World, exprs: Seq<Arc<Expr>>)
    requires
        world.carries(),
        world.is_usual(),
        vc_semantics::all_typed(exprs),
        lowering::lowered_exprs(exprs) is Ok,
    ensures
        all_stand_for(world, lowering::lowered_exprs(exprs)->Ok_0, exprs),
    decreases exprs, 0nat,
{
    let lowered = lowering::lowered_exprs(exprs)->Ok_0;
    lemma_list_len(exprs);
    assert forall|i: int| 0 <= i < exprs.len() implies stands_for(
        world,
        #[trigger] lowered[i],
        *exprs[i],
    ) by {
        lemma_list_at(exprs, i);
        assert(typed(*exprs[i]));
        law_lowering_keeps_meaning(world, own(exprs[i]));
    }
}

pub proof fn lemma_values_kept(world: World, exprs: Seq<Arc<Expr>>, lowered: Seq<ExprModel>)
    requires
        all_stand_for(world, lowered, exprs),
    ensures
        semantics::eval_all(lowered, world.env, world.interp) == world.meanings(exprs),
{
    assert forall|i: int| 0 <= i < exprs.len() implies semantics::eval_all(
        lowered,
        world.env,
        world.interp,
    )[i] == #[trigger] world.meanings(exprs)[i] by {
        assert(stands_for(world, lowered[i], *exprs[i]));
    }
    assert(semantics::eval_all(lowered, world.env, world.interp) =~= world.meanings(exprs));
}

proof fn lemma_eval_three(world: World, args: Seq<ExprModel>)
    requires
        args.len() == 3,
    ensures
        semantics::eval_all(args, world.env, world.interp) == seq![
            semantics::eval(args[0], world.env, world.interp),
            semantics::eval(args[1], world.env, world.interp),
            semantics::eval(args[2], world.env, world.interp),
        ],
{
    assert(semantics::eval_all(args, world.env, world.interp) =~= seq![
        semantics::eval(args[0], world.env, world.interp),
        semantics::eval(args[1], world.env, world.interp),
        semantics::eval(args[2], world.env, world.interp),
    ]);
}

pub proof fn lemma_conjunction_kept(world: World, exprs: Seq<Arc<Expr>>, lowered: Seq<ExprModel>)
    requires
        world.carries(),
        all_stand_for(world, lowered, exprs),
        vc_semantics::all_of(exprs, SortModel::Bool),
    ensures
        semantics::term_sort(chc::conjunction(lowered)) == Some(SortModel::Bool),
        semantics::eval(chc::conjunction(lowered), world.env, world.interp) == TermValue::Bool(
            vc_semantics::all_true(world.meanings(exprs)),
        ),
{
    reveal(World::carries);
    let vals = world.meanings(exprs);
    lemma_values_kept(world, exprs, lowered);
    if exprs.len() == 0 {
        assert(vc_semantics::all_true(vals));
    } else if exprs.len() == 1 {
        assert(stands_for(world, lowered[0], *exprs[0]));
        assert(shape(exprs[0].sort) == SortModel::Bool);
        assert(vals[0] == world.meaning(*exprs[0]));
        assert(vals[0] is Bool);
        assert(semantics::truth(vals[0]) <==> vc_semantics::all_true(vals));
    } else {
        assert(semantics::fixed_meaning(ChcOp::And, vals) == Some(
            TermValue::Bool(vc_semantics::all_true(vals)),
        ));
    }
}

proof fn lemma_disjunction_kept(world: World, exprs: Seq<Arc<Expr>>, lowered: Seq<ExprModel>)
    requires
        world.carries(),
        all_stand_for(world, lowered, exprs),
        vc_semantics::all_of(exprs, SortModel::Bool),
    ensures
        semantics::term_sort(chc::disjunction(lowered)) == Some(SortModel::Bool),
        semantics::eval(chc::disjunction(lowered), world.env, world.interp) == TermValue::Bool(
            vc_semantics::some_true(world.meanings(exprs)),
        ),
{
    reveal(World::carries);
    let vals = world.meanings(exprs);
    lemma_values_kept(world, exprs, lowered);
    if exprs.len() == 0 {
        assert(!vc_semantics::some_true(vals));
    } else if exprs.len() == 1 {
        assert(stands_for(world, lowered[0], *exprs[0]));
        assert(shape(exprs[0].sort) == SortModel::Bool);
        assert(vals[0] == world.meaning(*exprs[0]));
        assert(vals[0] is Bool);
        assert(semantics::truth(vals[0]) <==> vc_semantics::some_true(vals));
    } else {
        assert(semantics::fixed_meaning(ChcOp::Or, vals) == Some(
            TermValue::Bool(vc_semantics::some_true(vals)),
        ));
    }
}

proof fn lemma_differences_at(terms: Seq<ExprModel>, at: int) -> (pair: (int, int))
    requires
        0 <= at < lowering::all_differences(terms).len(),
    ensures
        0 <= pair.0 < pair.1 < terms.len(),
        lowering::all_differences(terms)[at] == chc::binary(
            ChcOp::Ne,
            terms[pair.0],
            terms[pair.1],
        ),
    decreases terms.len(),
{
    let rest = terms.skip(1);
    let own = lowering::differences(terms[0], rest);
    if at < own.len() {
        (0, at + 1)
    } else {
        let pair = lemma_differences_at(rest, at - own.len());
        (pair.0 + 1, pair.1 + 1)
    }
}

proof fn lemma_difference_found(terms: Seq<ExprModel>, i: int, j: int) -> (at: int)
    requires
        0 <= i < j < terms.len(),
    ensures
        0 <= at < lowering::all_differences(terms).len(),
        lowering::all_differences(terms)[at] == chc::binary(ChcOp::Ne, terms[i], terms[j]),
    decreases terms.len(),
{
    let rest = terms.skip(1);
    let own = lowering::differences(terms[0], rest);
    if i == 0 {
        assert(own[j - 1] == chc::binary(ChcOp::Ne, terms[0], rest[j - 1]));
        j - 1
    } else {
        let at = lemma_difference_found(rest, i - 1, j - 1);
        own.len() + at
    }
}

proof fn lemma_distinct_kept(world: World, exprs: Seq<Arc<Expr>>, lowered: Seq<ExprModel>)
    requires
        all_stand_for(world, lowered, exprs),
        exprs.len() >= 2,
    ensures
        ({
            let term = chc::conjunction(lowering::all_differences(lowered));
            &&& semantics::term_sort(term) == Some(SortModel::Bool)
            &&& semantics::eval(term, world.env, world.interp) == TermValue::Bool(
                vc_semantics::all_differ(world.meanings(exprs)),
            )
        }),
{
    let vals = world.meanings(exprs);
    let (env, interp) = (world.env, world.interp);
    let parts = lowering::all_differences(lowered);
    lemma_values_kept(world, exprs, lowered);
    assert forall|i: int| 0 <= i < exprs.len() implies #[trigger] vals[i] == semantics::eval(
        lowered[i],
        env,
        interp,
    ) by {
        assert(semantics::eval_all(lowered, env, interp)[i] == vals[i]);
    }
    let first = lemma_difference_found(lowered, 0, 1);
    let part_vals = semantics::eval_all(parts, env, interp);
    assert forall|at: int| 0 <= at < parts.len() implies {
        &&& semantics::term_sort(#[trigger] parts[at]) == Some(SortModel::Bool)
        &&& part_vals[at] == semantics::eval(parts[at], env, interp)
        &&& part_vals[at] is Bool
    } by {
        let pair = lemma_differences_at(lowered, at);
        bridge_laws::lemma_eval_binary(lowered[pair.0], lowered[pair.1], env, interp);
    }
    let all_differ = vc_semantics::all_differ(vals);
    let all_true = vc_semantics::all_true(part_vals);
    if all_differ {
        assert forall|at: int| 0 <= at < parts.len() implies semantics::truth(
            #[trigger] part_vals[at],
        ) by {
            let pair = lemma_differences_at(lowered, at);
            assert(semantics::term_sort(parts[at]) == Some(SortModel::Bool));
            bridge_laws::lemma_eval_binary(lowered[pair.0], lowered[pair.1], env, interp);
            assert(vals[pair.0] != vals[pair.1]);
        }
    }
    if all_true {
        assert forall|i: int, j: int| 0 <= i < j < vals.len() implies #[trigger] vals[i]
            != #[trigger] vals[j] by {
            let at = lemma_difference_found(lowered, i, j);
            assert(semantics::truth(part_vals[at]));
            assert(semantics::term_sort(parts[at]) == Some(SortModel::Bool));
            bridge_laws::lemma_eval_binary(lowered[i], lowered[j], env, interp);
        }
    }
    assert(all_differ == all_true);
    if parts.len() == 1 {
        assert(semantics::term_sort(parts[0]) == Some(SortModel::Bool));
        assert(part_vals[0] is Bool);
        assert(semantics::eval(parts[0], env, interp) == TermValue::Bool(all_true));
    }
}

proof fn lemma_unary_sorted(op: UnaryOp, t: ExprModel, a: SortModel, sort: SortModel)
    requires
        semantics::well_sorted(t),
        semantics::term_sort(t) == Some(a),
        vc_semantics::takes_one(op, a, sort),
    ensures
        semantics::well_sorted(chc::unary(lowering::unary_target(op), t)),
        semantics::term_sort(chc::unary(lowering::unary_target(op), t)) == Some(sort),
{
    let args = seq![t];
    assert(args[0] == t);
    assert(semantics::all_of_sort(args, a));
}

proof fn lemma_binary_sorted(
    op: BinaryOp,
    l: ExprModel,
    r: ExprModel,
    a: SortModel,
    b: SortModel,
    sort: SortModel,
)
    requires
        semantics::well_sorted(l),
        semantics::well_sorted(r),
        semantics::term_sort(l) == Some(a),
        semantics::term_sort(r) == Some(b),
        vc_semantics::takes_two(op, a, b, sort),
    ensures
        semantics::well_sorted(chc::binary(lowering::binary_target(op), l, r)),
        semantics::term_sort(chc::binary(lowering::binary_target(op), l, r)) == Some(sort),
{
    let args = seq![l, r];
    assert(args[0] == l && args[1] == r);
    assert(a == b ==> semantics::all_of_sort(args, a));
}

/// A bit-vector operator on one term of the given width.
proof fn lemma_bits_of_one(op: ChcOp, t: ExprModel, width: u32, result: u32)
    requires
        semantics::well_sorted(t),
        semantics::term_sort(t) == Some(SortModel::BitVec(width)),
        match op {
            ChcOp::BvNot => result == width,
            ChcOp::BvZeroExtend(extra) => result == width + extra,
            ChcOp::BvSignExtend(extra) => result == width + extra,
            ChcOp::BvExtract(high, low) => low <= high < width && result == high - low + 1,
            _ => false,
        },
    ensures
        semantics::well_sorted(chc::unary(op, t)),
        semantics::term_sort(chc::unary(op, t)) == Some(SortModel::BitVec(result)),
{
    let args = seq![t];
    assert(args[0] == t);
    assert(semantics::all_of_sort(args, SortModel::BitVec(width)));
}

/// A bit-vector operator, or a relation, on two terms of the given width.
proof fn lemma_bits_of_two(op: ChcOp, l: ExprModel, r: ExprModel, width: u32)
    requires
        semantics::well_sorted(l),
        semantics::well_sorted(r),
        semantics::term_sort(l) == Some(SortModel::BitVec(width)),
        semantics::term_sort(r) == Some(SortModel::BitVec(width)),
        op is BvAdd || op is BvSub || op is BvMul || op is BvULe || op is Eq || op is Ne,
    ensures
        semantics::well_sorted(chc::binary(op, l, r)),
        semantics::term_sort(chc::binary(op, l, r)) == Some(
            if op is BvAdd || op is BvSub || op is BvMul {
                SortModel::BitVec(width)
            } else {
                SortModel::Bool
            },
        ),
{
    let args = seq![l, r];
    assert(args[0] == l && args[1] == r);
    assert(semantics::all_of_sort(args, SortModel::BitVec(width)));
}

proof fn lemma_overflow_sorted(
    check: OverflowCheck,
    l: ExprModel,
    r: ExprModel,
    own_width: u32,
    width: u32,
)
    requires
        semantics::well_sorted(l),
        semantics::well_sorted(r),
        semantics::term_sort(l) == Some(SortModel::BitVec(own_width)),
        semantics::term_sort(r) == Some(SortModel::BitVec(own_width)),
        own_width >= 1,
        lowering::needs_width(check) ==> width == own_width && width
            <= overflow::MAX_OVERFLOW_WIDTH,
    ensures
        semantics::well_sorted(lowering::expansion(check, l, r, width)),
        semantics::term_sort(lowering::expansion(check, l, r, width)) == Some(SortModel::Bool),
{
    match check {
        OverflowCheck::UnsignedSub => {
            lemma_bits_of_two(ChcOp::BvULe, r, l, own_width);
        },
        OverflowCheck::UnsignedAdd => {
            lemma_bits_of_one(ChcOp::BvNot, l, own_width, own_width);
            lemma_bits_of_two(ChcOp::BvULe, r, chc::unary(ChcOp::BvNot, l), own_width);
        },
        OverflowCheck::SignedDiv => {
            lemma_literals_fit(width);
            let least = ExprModel::BitVec(power2::pow2((width - 1) as nat), width);
            let ones = ExprModel::BitVec(overflow::all_ones(width), width);
            lemma_bits_of_two(ChcOp::Eq, l, least, width);
            lemma_bits_of_two(ChcOp::Eq, r, ones, width);
            let one = chc::binary(ChcOp::Eq, l, least);
            let two = chc::binary(ChcOp::Eq, r, ones);
            let both = seq![one, two];
            assert(both[0] == one && both[1] == two);
            assert(semantics::all_of_sort(both, SortModel::Bool));
            assert(semantics::well_sorted(chc::binary(ChcOp::And, one, two)));
            let whole = seq![chc::binary(ChcOp::And, one, two)];
            assert(whole[0] == chc::binary(ChcOp::And, one, two));
            assert(semantics::all_of_sort(whole, SortModel::Bool));
        },
        OverflowCheck::SignedAdd => {
            lemma_step_sorted(ChcOp::BvAdd, l, r, width);
        },
        OverflowCheck::SignedSub => {
            lemma_step_sorted(ChcOp::BvSub, l, r, width);
        },
        OverflowCheck::UnsignedMul => {
            let op = ChcOp::BvZeroExtend(width);
            let double = (2 * width) as u32;
            lemma_bits_of_one(op, l, width, double);
            lemma_bits_of_one(op, r, width, double);
            lemma_bits_of_two(ChcOp::BvMul, chc::unary(op, l), chc::unary(op, r), double);
            let product = chc::binary(ChcOp::BvMul, chc::unary(op, l), chc::unary(op, r));
            let top = ChcOp::BvExtract((2 * width - 1) as u32, width);
            lemma_bits_of_one(top, product, double, width);
            power2::lemma_pow2_pos(width as nat);
            lemma_bits_of_two(
                ChcOp::Eq,
                chc::unary(top, product),
                ExprModel::BitVec(0, width),
                width,
            );
        },
        OverflowCheck::SignedMul => {
            let op = ChcOp::BvSignExtend(width);
            let double = (2 * width) as u32;
            lemma_bits_of_one(op, l, width, double);
            lemma_bits_of_one(op, r, width, double);
            lemma_bits_of_two(ChcOp::BvMul, chc::unary(op, l), chc::unary(op, r), double);
            let product = chc::binary(ChcOp::BvMul, chc::unary(op, l), chc::unary(op, r));
            let low = ChcOp::BvExtract((width - 1) as u32, 0);
            lemma_bits_of_one(low, product, double, width);
            lemma_bits_of_one(op, chc::unary(low, product), width, double);
            lemma_bits_of_two(
                ChcOp::Eq,
                product,
                chc::unary(op, chc::unary(low, product)),
                double,
            );
        },
    }
}

proof fn lemma_step_sorted(op: ChcOp, l: ExprModel, r: ExprModel, width: u32)
    requires
        semantics::well_sorted(l),
        semantics::well_sorted(r),
        semantics::term_sort(l) == Some(SortModel::BitVec(width)),
        semantics::term_sort(r) == Some(SortModel::BitVec(width)),
        1 <= width <= overflow::MAX_OVERFLOW_WIDTH,
        op is BvAdd || op is BvSub,
    ensures
        semantics::well_sorted(overflow::signed_step_fits(op, l, r, width)),
        semantics::term_sort(overflow::signed_step_fits(op, l, r, width)) == Some(SortModel::Bool),
{
    let extend = ChcOp::BvSignExtend(1);
    let wider = (width + 1) as u32;
    let below = (width - 1) as u32;
    lemma_bits_of_one(extend, l, width, wider);
    lemma_bits_of_one(extend, r, width, wider);
    lemma_bits_of_two(op, chc::unary(extend, l), chc::unary(extend, r), wider);
    let wide = chc::binary(op, chc::unary(extend, l), chc::unary(extend, r));
    lemma_bits_of_one(ChcOp::BvExtract(width, width), wide, wider, 1);
    lemma_bits_of_one(ChcOp::BvExtract(below, below), wide, wider, 1);
    lemma_bits_of_two(
        ChcOp::Eq,
        chc::unary(ChcOp::BvExtract(width, width), wide),
        chc::unary(ChcOp::BvExtract(below, below), wide),
        1,
    );
}

proof fn lemma_literals_fit(width: u32)
    requires
        1 <= width <= overflow::MAX_OVERFLOW_WIDTH,
    ensures
        semantics::well_sorted(ExprModel::BitVec(power2::pow2((width - 1) as nat), width)),
        semantics::well_sorted(ExprModel::BitVec(overflow::all_ones(width), width)),
{
    power2::lemma_pow2_strictly_increases((width - 1) as nat, width as nat);
    power2::lemma_pow2_pos(width as nat);
    if width == 128 {
        power2::lemma2_to64();
        power2::lemma2_to64_rest();
        power2::lemma_pow2_adds(64, 64);
    }
}

/// Whether a lowered term is well sorted, of the sort of the submitted one.
pub open spec fn sorted(lowered: ExprModel, expr: Expr) -> bool {
    semantics::well_sorted(lowered) && semantics::term_sort(lowered) == Some(shape(expr.sort))
}

pub open spec fn all_sorted(lowered: Seq<ExprModel>, exprs: Seq<Arc<Expr>>) -> bool {
    &&& lowered.len() == exprs.len()
    &&& forall|i: int| 0 <= i < exprs.len() ==> sorted(#[trigger] lowered[i], *exprs[i])
}

/// A lowered term applies each operator to terms of the sorts that it takes, and has
/// the sort of the submitted term.
#[verifier::rlimit(30)]
pub proof fn law_lowered_terms_are_well_sorted(expr: Expr)
    requires
        typed(expr),
        lowering::lowered_expr(expr) is Ok,
    ensures
        semantics::well_sorted(lowering::lowered_expr(expr)->Ok_0),
        semantics::term_sort(lowering::lowered_expr(expr)->Ok_0) == Some(shape(expr.sort)),
    decreases expr, 1nat,
{
    let t = lowering::lowered_expr(expr)->Ok_0;
    match expr.value {
        ExprValue::BoolConst(_) => {},
        ExprValue::IntConst(_) => {},
        ExprValue::RealConst(_) => {},
        ExprValue::BitVecConst { value, width } => {
            law_numerals_are_read_by_place(value@);
        },
        ExprValue::Var { name } => {
            law_sorts_are_kept(expr.sort);
        },
        ExprValue::Unary(op, inner) => {
            law_lowered_terms_are_well_sorted(own(inner));
            lemma_unary_sorted(
                op,
                lowering::lowered_expr(own(inner))->Ok_0,
                shape(own(inner).sort),
                shape(expr.sort),
            );
        },
        ExprValue::Binary(op, left, right) => {
            law_lowered_terms_are_well_sorted(own(left));
            law_lowered_terms_are_well_sorted(own(right));
            lemma_binary_sorted(
                op,
                lowering::lowered_expr(own(left))->Ok_0,
                lowering::lowered_expr(own(right))->Ok_0,
                shape(own(left).sort),
                shape(own(right).sort),
                shape(expr.sort),
            );
        },
        ExprValue::And(args) => {
            lemma_lists_sorted(args@);
            lemma_connective_sorted(args@, lowering::lowered_exprs(args@)->Ok_0);
        },
        ExprValue::Or(args) => {
            lemma_lists_sorted(args@);
            lemma_connective_sorted(args@, lowering::lowered_exprs(args@)->Ok_0);
        },
        ExprValue::Distinct(args) => {
            if args@.len() >= 2 {
                lemma_lists_sorted(args@);
                lemma_distinct_sorted(args@, lowering::lowered_exprs(args@)->Ok_0);
            }
        },
        ExprValue::Ite { cond, then_expr, else_expr } => {
            law_lowered_terms_are_well_sorted(own(cond));
            law_lowered_terms_are_well_sorted(own(then_expr));
            law_lowered_terms_are_well_sorted(own(else_expr));
            let args = seq![
                lowering::lowered_expr(own(cond))->Ok_0,
                lowering::lowered_expr(own(then_expr))->Ok_0,
                lowering::lowered_expr(own(else_expr))->Ok_0,
            ];
            assert(t == ExprModel::Op(ChcOp::Ite, args));
            assert(forall|i: int| 0 <= i < args.len() ==> semantics::well_sorted(#[trigger] args[i]));
        },
        ExprValue::Store { array, index, value } => {
            law_lowered_terms_are_well_sorted(own(array));
            law_lowered_terms_are_well_sorted(own(index));
            law_lowered_terms_are_well_sorted(own(value));
            let args = seq![
                lowering::lowered_expr(own(array))->Ok_0,
                lowering::lowered_expr(own(index))->Ok_0,
                lowering::lowered_expr(own(value))->Ok_0,
            ];
            assert(t == ExprModel::Op(ChcOp::Store, args));
            assert(args[0] == lowering::lowered_expr(own(array))->Ok_0);
            assert(forall|i: int| 0 <= i < args.len() ==> semantics::well_sorted(#[trigger] args[i]));
        },
        ExprValue::ConstArray { index_sort, value } => {
            law_lowered_terms_are_well_sorted(own(value));
            law_sorts_are_kept(index_sort);
        },
        ExprValue::FuncApp { name, args } => {
            law_sorts_are_kept(expr.sort);
            lemma_lists_sorted(args@);
            lemma_all_well_sorted(args@, lowering::lowered_exprs(args@)->Ok_0);
        },
        ExprValue::DatatypeConstructor { constructor_name, args } => {
            law_sorts_are_kept(expr.sort);
            lemma_lists_sorted(args@);
            lemma_all_well_sorted(args@, lowering::lowered_exprs(args@)->Ok_0);
        },
        ExprValue::DatatypeSelector { selector_name, operand } => {
            law_sorts_are_kept(expr.sort);
            law_lowered_terms_are_well_sorted(own(operand));
        },
        ExprValue::NoOverflow(check, left, right) => {
            law_lowered_terms_are_well_sorted(own(left));
            law_lowered_terms_are_well_sorted(own(right));
            lemma_overflow_sorted(
                check,
                lowering::lowered_expr(own(left))->Ok_0,
                lowering::lowered_expr(own(right))->Ok_0,
                shape(own(left).sort)->BitVec_0,
                lowering::overflow_width(own(left))->Ok_0,
            );
        },
        ExprValue::NegNoOverflow(inner) => {
            law_lowered_terms_are_well_sorted(own(inner));
            let w = shape(own(inner).sort)->BitVec_0;
            lemma_literals_fit(w);
            lemma_bits_of_two(
                ChcOp::Ne,
                lowering::lowered_expr(own(inner))->Ok_0,
                ExprModel::BitVec(power2::pow2((w - 1) as nat), w),
                w,
            );
        },
        ExprValue::Unsupported(_) => {},
    }
}

pub proof fn lemma_lists_sorted(exprs: Seq<Arc<Expr>>)
    requires
        vc_semantics::all_typed(exprs),
        lowering::lowered_exprs(exprs) is Ok,
    ensures
        all_sorted(lowering::lowered_exprs(exprs)->Ok_0, exprs),
    decreases exprs, 0nat,
{
    let lowered = lowering::lowered_exprs(exprs)->Ok_0;
    lemma_list_len(exprs);
    assert forall|i: int| 0 <= i < exprs.len() implies sorted(#[trigger] lowered[i], *exprs[i]) by {
        lemma_list_at(exprs, i);
        assert(typed(*exprs[i]));
        law_lowered_terms_are_well_sorted(own(exprs[i]));
    }
}

proof fn lemma_all_well_sorted(exprs: Seq<Arc<Expr>>, lowered: Seq<ExprModel>)
    requires
        all_sorted(lowered, exprs),
    ensures
        forall|i: int| 0 <= i < lowered.len() ==> semantics::well_sorted(#[trigger] lowered[i]),
{
    assert forall|i: int| 0 <= i < lowered.len() implies semantics::well_sorted(
        #[trigger] lowered[i],
    ) by {
        assert(sorted(lowered[i], *exprs[i]));
    }
}

pub proof fn lemma_connective_sorted(exprs: Seq<Arc<Expr>>, lowered: Seq<ExprModel>)
    requires
        all_sorted(lowered, exprs),
        vc_semantics::all_of(exprs, SortModel::Bool),
    ensures
        semantics::well_sorted(chc::conjunction(lowered)),
        semantics::term_sort(chc::conjunction(lowered)) == Some(SortModel::Bool),
        semantics::well_sorted(chc::disjunction(lowered)),
        semantics::term_sort(chc::disjunction(lowered)) == Some(SortModel::Bool),
{
    lemma_all_well_sorted(exprs, lowered);
    assert forall|i: int| 0 <= i < lowered.len() implies #[trigger] semantics::term_sort(lowered[i])
        == Some(SortModel::Bool) by {
        assert(sorted(lowered[i], *exprs[i]));
        assert(shape(exprs[i].sort) == SortModel::Bool);
    }
    assert(semantics::all_of_sort(lowered, SortModel::Bool));
}

proof fn lemma_distinct_sorted(exprs: Seq<Arc<Expr>>, lowered: Seq<ExprModel>)
    requires
        all_sorted(lowered, exprs),
        forall|i: int, j: int|
            0 <= i < exprs.len() && 0 <= j < exprs.len() ==> shape((#[trigger] exprs[i]).sort)
                == shape((#[trigger] exprs[j]).sort),
        exprs.len() >= 2,
    ensures
        semantics::well_sorted(chc::conjunction(lowering::all_differences(lowered))),
        semantics::term_sort(chc::conjunction(lowering::all_differences(lowered))) == Some(
            SortModel::Bool,
        ),
{
    let parts = lowering::all_differences(lowered);
    let first = lemma_difference_found(lowered, 0, 1);
    assert forall|at: int| 0 <= at < parts.len() implies semantics::well_sorted(
        #[trigger] parts[at],
    ) && semantics::term_sort(parts[at]) == Some(SortModel::Bool) by {
        let pair = lemma_differences_at(lowered, at);
        let args = seq![lowered[pair.0], lowered[pair.1]];
        assert(sorted(lowered[pair.0], *exprs[pair.0]));
        assert(sorted(lowered[pair.1], *exprs[pair.1]));
        assert(args[0] == lowered[pair.0] && args[1] == lowered[pair.1]);
        assert(shape(exprs[pair.0].sort) == shape(exprs[pair.1].sort));
    }
    assert(semantics::all_of_sort(parts, SortModel::Bool)) by {
        assert forall|at: int| 0 <= at < parts.len() implies #[trigger] semantics::term_sort(
            parts[at],
        ) == Some(SortModel::Bool) by {
            assert(semantics::well_sorted(parts[at]));
        }
    }
}

} // verus!
