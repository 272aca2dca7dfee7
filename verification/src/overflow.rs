//! Overflow predicates on bit-vectors, written with ordinary operators.
//!
//! Each expansion is true exactly where the operation does not overflow; the
//! laws at the end of the file state that over the integers that the operands
//! stand for.
use std::sync::Arc;

use vstd::arithmetic::div_mod;
use vstd::arithmetic::power2;
use vstd::prelude::*;

use crate::bridge;
use crate::bridge_laws;
use crate::chc;
use crate::chc::{op1, op2, ChcExpr, ChcOp, ExprModel};
use crate::semantics;
use crate::semantics::{Env, Interpretation, TermValue};
use crate::shared::share;
use crate::terms;

verus! {

/// Widest operand of an overflow predicate.
pub const MAX_OVERFLOW_WIDTH: u32 = 128;

/// The pattern of all ones, as far as the literal can hold it.
pub open spec fn all_ones(width: u32) -> nat {
    if width >= 128 {
        u128::MAX as nat
    } else {
        (power2::pow2(width as nat) - 1) as nat
    }
}

/// The pattern of all ones: minus one, or the largest unsigned number.
pub fn bv_all_ones(width: u32) -> (ones: u128)
    ensures
        ones == all_ones(width),
{
    if width >= 128 {
        u128::MAX
    } else {
        power_of_two(width) - 1
    }
}

/// The pattern with the sign bit alone: the smallest signed number.
pub fn bv_signed_min(width: u32) -> (least: u128)
    requires
        1 <= width <= MAX_OVERFLOW_WIDTH,
    ensures
        least == power2::pow2((width - 1) as nat),
{
    power_of_two(width - 1)
}

fn power_of_two(exponent: u32) -> (power: u128)
    requires
        exponent < 128,
    ensures
        power == power2::pow2(exponent as nat),
        power >= 1,
{
    let mut power: u128 = 1;
    proof {
        power2::lemma2_to64();
    }
    for i in 0..exponent
        invariant
            exponent < 128,
            power == power2::pow2(i as nat),
            power >= 1,
    {
        proof {
            power2::lemma_pow2_unfold((i + 1) as nat);
            lemma_pow2_fits((i + 1) as nat);
        }
        power = power * 2;
    }
    power
}

proof fn lemma_pow2_fits(exponent: nat)
    requires
        exponent < 128,
    ensures
        power2::pow2(exponent) <= u128::MAX,
{
    power2::lemma2_to64();
    power2::lemma2_to64_rest();
    power2::lemma_pow2_adds(63, 64);
    if exponent < 127 {
        power2::lemma_pow2_strictly_increases(exponent, 127);
    }
}

/// Signed division: the smallest number is not divided by minus one.
pub open spec fn sdiv_fits(a: ExprModel, b: ExprModel, width: u32) -> ExprModel {
    let least = ExprModel::BitVec(power2::pow2((width - 1) as nat), width);
    let ones = ExprModel::BitVec(all_ones(width), width);
    chc::unary(
        ChcOp::Not,
        chc::binary(
            ChcOp::And,
            chc::binary(ChcOp::Eq, a, least),
            chc::binary(ChcOp::Eq, b, ones),
        ),
    )
}

/// Signed negation: the operand is not the smallest number.
pub open spec fn neg_fits(a: ExprModel, width: u32) -> ExprModel {
    chc::binary(ChcOp::Ne, a, ExprModel::BitVec(power2::pow2((width - 1) as nat), width))
}

/// Unsigned subtraction: the subtrahend is not the larger.
pub open spec fn unsigned_sub_fits(a: ExprModel, b: ExprModel) -> ExprModel {
    chc::binary(ChcOp::BvULe, b, a)
}

/// Unsigned addition: one operand is at most the complement of the other.
pub open spec fn unsigned_add_fits(a: ExprModel, b: ExprModel) -> ExprModel {
    chc::binary(ChcOp::BvULe, b, chc::unary(ChcOp::BvNot, a))
}

/// Signed addition or subtraction: with one more bit, the two top bits of the
/// result agree.
pub open spec fn signed_step_fits(op: ChcOp, a: ExprModel, b: ExprModel, width: u32) -> ExprModel {
    let wide = chc::binary(
        op,
        chc::unary(ChcOp::BvSignExtend(1), a),
        chc::unary(ChcOp::BvSignExtend(1), b),
    );
    let below = (width - 1) as u32;
    chc::binary(
        ChcOp::Eq,
        chc::unary(ChcOp::BvExtract(width, width), wide),
        chc::unary(ChcOp::BvExtract(below, below), wide),
    )
}

/// Unsigned multiplication: at twice the width, the upper half of the product is
/// zero.
pub open spec fn unsigned_mul_fits(a: ExprModel, b: ExprModel, width: u32) -> ExprModel {
    let product = chc::binary(
        ChcOp::BvMul,
        chc::unary(ChcOp::BvZeroExtend(width), a),
        chc::unary(ChcOp::BvZeroExtend(width), b),
    );
    chc::binary(
        ChcOp::Eq,
        chc::unary(ChcOp::BvExtract((2 * width - 1) as u32, width), product),
        ExprModel::BitVec(0, width),
    )
}

/// Signed multiplication: at twice the width, the product is the extension of
/// its own lower half.
pub open spec fn signed_mul_fits(a: ExprModel, b: ExprModel, width: u32) -> ExprModel {
    let product = chc::binary(
        ChcOp::BvMul,
        chc::unary(ChcOp::BvSignExtend(width), a),
        chc::unary(ChcOp::BvSignExtend(width), b),
    );
    let low = chc::unary(ChcOp::BvExtract((width - 1) as u32, 0), product);
    chc::binary(ChcOp::Eq, product, chc::unary(ChcOp::BvSignExtend(width), low))
}

pub(crate) fn no_overflow_sdiv(a: Arc<ChcExpr>, b: Arc<ChcExpr>, width: u32) -> (expr: Arc<ChcExpr>)
    requires
        1 <= width <= MAX_OVERFLOW_WIDTH,
    ensures
        expr@ == sdiv_fits(a@, b@, width),
{
    let least = Arc::new(ChcExpr::BitVec(bv_signed_min(width), width));
    let ones = Arc::new(ChcExpr::BitVec(bv_all_ones(width), width));
    let a_is_min = op2(ChcOp::Eq, a, least);
    let b_is_neg_one = op2(ChcOp::Eq, b, ones);
    op1(ChcOp::Not, op2(ChcOp::And, a_is_min, b_is_neg_one))
}

pub(crate) fn no_overflow_neg(a: Arc<ChcExpr>, width: u32) -> (expr: Arc<ChcExpr>)
    requires
        1 <= width <= MAX_OVERFLOW_WIDTH,
    ensures
        expr@ == neg_fits(a@, width),
{
    op2(ChcOp::Ne, a, Arc::new(ChcExpr::BitVec(bv_signed_min(width), width)))
}

pub(crate) fn no_underflow_sub_unsigned(a: Arc<ChcExpr>, b: Arc<ChcExpr>) -> (expr: Arc<ChcExpr>)
    ensures
        expr@ == unsigned_sub_fits(a@, b@),
{
    op2(ChcOp::BvULe, b, a)
}

pub(crate) fn no_overflow_add_unsigned(a: Arc<ChcExpr>, b: Arc<ChcExpr>) -> (expr: Arc<ChcExpr>)
    ensures
        expr@ == unsigned_add_fits(a@, b@),
{
    op2(ChcOp::BvULe, b, op1(ChcOp::BvNot, a))
}

pub(crate) fn no_overflow_addsub_signed(
    op: ChcOp,
    a: Arc<ChcExpr>,
    b: Arc<ChcExpr>,
    width: u32,
) -> (expr: Arc<ChcExpr>)
    requires
        1 <= width <= MAX_OVERFLOW_WIDTH,
    ensures
        expr@ == signed_step_fits(op, a@, b@, width),
{
    let wide = op2(op, op1(ChcOp::BvSignExtend(1), a), op1(ChcOp::BvSignExtend(1), b));
    let top = op1(ChcOp::BvExtract(width, width), share(&wide));
    let next = op1(ChcOp::BvExtract(width - 1, width - 1), wide);
    op2(ChcOp::Eq, top, next)
}

pub(crate) fn no_overflow_mul_unsigned(a: Arc<ChcExpr>, b: Arc<ChcExpr>, width: u32) -> (expr: Arc<
    ChcExpr,
>)
    requires
        1 <= width <= MAX_OVERFLOW_WIDTH,
    ensures
        expr@ == unsigned_mul_fits(a@, b@, width),
{
    let product = op2(
        ChcOp::BvMul,
        op1(ChcOp::BvZeroExtend(width), a),
        op1(ChcOp::BvZeroExtend(width), b),
    );
    let high = op1(ChcOp::BvExtract(2 * width - 1, width), product);
    op2(ChcOp::Eq, high, Arc::new(ChcExpr::BitVec(0, width)))
}

pub(crate) fn no_overflow_mul_signed(a: Arc<ChcExpr>, b: Arc<ChcExpr>, width: u32) -> (expr: Arc<
    ChcExpr,
>)
    requires
        1 <= width <= MAX_OVERFLOW_WIDTH,
    ensures
        expr@ == signed_mul_fits(a@, b@, width),
{
    let product = op2(
        ChcOp::BvMul,
        op1(ChcOp::BvSignExtend(width), a),
        op1(ChcOp::BvSignExtend(width), b),
    );
    let low = op1(ChcOp::BvExtract(width - 1, 0), share(&product));
    op2(ChcOp::Eq, product, op1(ChcOp::BvSignExtend(width), low))
}

/// Whether a term has the given pattern at the given width.
pub open spec fn has_pattern(
    expr: ExprModel,
    bits: nat,
    width: u32,
    env: Env,
    interp: Interpretation,
) -> bool {
    &&& bits < power2::pow2(width as nat)
    &&& semantics::eval(expr, env, interp) == TermValue::BitVec(bits, width)
}

/// Negation does not overflow exactly where the predicate is true.
pub proof fn law_neg_fits(a: ExprModel, p: nat, width: u32, env: Env, interp: Interpretation)
    requires
        1 <= width <= MAX_OVERFLOW_WIDTH,
        has_pattern(a, p, width, env, interp),
    ensures
        terms::truth_of(neg_fits(a, width), env, interp) <==> bridge::in_window(
            -semantics::signed(p, width as nat),
            width,
        ),
{
    bridge_laws::lemma_halves(width);
    let least = ExprModel::BitVec(power2::pow2((width - 1) as nat), width);
    bridge_laws::lemma_eval_binary(a, least, env, interp);
}

/// Subtraction of unsigned numbers stays natural exactly where the predicate is
/// true.
pub proof fn law_unsigned_sub_fits(
    a: ExprModel,
    b: ExprModel,
    p: nat,
    q: nat,
    width: u32,
    env: Env,
    interp: Interpretation,
)
    requires
        has_pattern(a, p, width, env, interp),
        has_pattern(b, q, width, env, interp),
    ensures
        terms::truth_of(unsigned_sub_fits(a, b), env, interp) <==> p - q >= 0,
{
    bridge_laws::lemma_eval_binary(b, a, env, interp);
}

/// Addition of unsigned numbers fits the width exactly where the predicate is
/// true.
pub proof fn law_unsigned_add_fits(
    a: ExprModel,
    b: ExprModel,
    p: nat,
    q: nat,
    width: u32,
    env: Env,
    interp: Interpretation,
)
    requires
        has_pattern(a, p, width, env, interp),
        has_pattern(b, q, width, env, interp),
    ensures
        terms::truth_of(unsigned_add_fits(a, b), env, interp) <==> p + q < power2::pow2(
            width as nat,
        ),
{
    let modulus = power2::pow2(width as nat) as int;
    let complement = chc::unary(ChcOp::BvNot, a);
    bridge_laws::lemma_eval_unary(a, env, interp);
    bridge_laws::lemma_eval_binary(b, complement, env, interp);
    div_mod::lemma_small_mod((modulus - 1 - p) as nat, modulus as nat);
    div_mod::lemma_mod_add_multiples_vanish(-1 - p, modulus);
}

/// Division does not overflow exactly where the predicate is true: no other
/// pair of numbers has a quotient outside the window.
pub proof fn law_sdiv_fits(
    a: ExprModel,
    b: ExprModel,
    p: nat,
    q: nat,
    width: u32,
    env: Env,
    interp: Interpretation,
)
    requires
        1 <= width <= MAX_OVERFLOW_WIDTH,
        has_pattern(a, p, width, env, interp),
        has_pattern(b, q, width, env, interp),
        q != 0,
    ensures
        terms::truth_of(sdiv_fits(a, b, width), env, interp) <==> bridge::in_window(
            truncated_quotient(
                semantics::signed(p, width as nat),
                semantics::signed(q, width as nat),
            ),
            width,
        ),
{
    bridge_laws::lemma_halves(width);
    lemma_all_ones(width);
    lemma_sdiv_value(a, b, p, q, width, env, interp);
    let half = power2::pow2((width - 1) as nat) as int;
    lemma_quotient_range(
        semantics::signed(p, width as nat),
        semantics::signed(q, width as nat),
        half,
    );
}

/// The predicate on division excludes one pair of patterns.
proof fn lemma_sdiv_value(
    a: ExprModel,
    b: ExprModel,
    p: nat,
    q: nat,
    width: u32,
    env: Env,
    interp: Interpretation,
)
    requires
        has_pattern(a, p, width, env, interp),
        has_pattern(b, q, width, env, interp),
    ensures
        terms::truth_of(sdiv_fits(a, b, width), env, interp) <==> !(p == power2::pow2(
            (width - 1) as nat,
        ) && q == all_ones(width)),
{
    let least = ExprModel::BitVec(power2::pow2((width - 1) as nat), width);
    let ones = ExprModel::BitVec(all_ones(width), width);
    lemma_equality_value(a, least, env, interp);
    lemma_equality_value(b, ones, env, interp);
    lemma_not_both_value(
        chc::binary(ChcOp::Eq, a, least),
        chc::binary(ChcOp::Eq, b, ones),
        p == power2::pow2((width - 1) as nat),
        q == all_ones(width),
        env,
        interp,
    );
}

proof fn lemma_equality_value(left: ExprModel, right: ExprModel, env: Env, interp: Interpretation)
    ensures
        semantics::eval(chc::binary(ChcOp::Eq, left, right), env, interp) == TermValue::Bool(
            semantics::eval(left, env, interp) == semantics::eval(right, env, interp),
        ),
{
    bridge_laws::lemma_eval_binary(left, right, env, interp);
}

proof fn lemma_not_both_value(
    left: ExprModel,
    right: ExprModel,
    l: bool,
    r: bool,
    env: Env,
    interp: Interpretation,
)
    requires
        semantics::eval(left, env, interp) == TermValue::Bool(l),
        semantics::eval(right, env, interp) == TermValue::Bool(r),
    ensures
        terms::truth_of(
            chc::unary(ChcOp::Not, chc::binary(ChcOp::And, left, right)),
            env,
            interp,
        ) <==> !(l && r),
{
    let both = chc::binary(ChcOp::And, left, right);
    bridge_laws::lemma_eval_binary(left, right, env, interp);
    let vals = seq![TermValue::Bool(l), TermValue::Bool(r)];
    assert(vals[0] == TermValue::Bool(l) && vals[1] == TermValue::Bool(r));
    assert(semantics::eval(both, env, interp) == semantics::fixed_meaning(ChcOp::And, vals)->0);
    bridge_laws::lemma_eval_unary(both, env, interp);
}

/// The quotient rounded towards zero.
pub open spec fn truncated_quotient(dividend: int, divisor: int) -> int {
    let magnitude = magnitude(dividend) / magnitude(divisor);
    if (dividend < 0) == (divisor < 0) {
        magnitude
    } else {
        -magnitude
    }
}

pub open spec fn magnitude(number: int) -> int {
    if number < 0 {
        -number
    } else {
        number
    }
}

proof fn lemma_quotient_range(dividend: int, divisor: int, half: int)
    requires
        half >= 1,
        -half <= dividend < half,
        -half <= divisor < half,
        divisor != 0,
    ensures
        (-half <= truncated_quotient(dividend, divisor) < half) <==> !(dividend == -half && divisor
            == -1),
{
    let m = magnitude(dividend);
    let d = magnitude(divisor);
    div_mod::lemma_div_pos_is_pos(m, d);
    div_mod::lemma_div_nonincreasing(m, d);
    if d == 1 {
        div_mod::lemma_div_basics(m);
    } else if m > 0 {
        div_mod::lemma_div_decreases(m, d);
    }
}

proof fn lemma_all_ones(width: u32)
    requires
        1 <= width <= MAX_OVERFLOW_WIDTH,
    ensures
        all_ones(width) == power2::pow2(width as nat) - 1,
{
    power2::lemma_pow2_pos(width as nat);
    if width == 128 {
        power2::lemma2_to64();
        power2::lemma_pow2_adds(64, 64);
        let word = power2::pow2(64) as int;
        assert(word * word == 0x1_0000_0000_0000_0000_0000_0000_0000_0000int) by (nonlinear_arith)
            requires
                word == 0x1_0000_0000_0000_0000int,
        ;
        assert(power2::pow2(128) == word * word);
    }
}

/// What a sign extension is worth.
proof fn lemma_sign_extended(
    a: ExprModel,
    p: nat,
    width: u32,
    extra: u32,
    env: Env,
    interp: Interpretation,
)
    requires
        1 <= width <= MAX_OVERFLOW_WIDTH,
        extra <= MAX_OVERFLOW_WIDTH,
        has_pattern(a, p, width, env, interp),
    ensures
        semantics::eval(chc::unary(ChcOp::BvSignExtend(extra), a), env, interp)
            == semantics::residue(semantics::signed(p, width as nat), (width + extra) as u32),
{
    bridge_laws::lemma_eval_unary(a, env, interp);
}

/// Addition or subtraction of signed numbers fits the window exactly where the
/// predicate is true.
pub proof fn law_signed_step_fits(
    subtract: bool,
    a: ExprModel,
    b: ExprModel,
    p: nat,
    q: nat,
    width: u32,
    env: Env,
    interp: Interpretation,
)
    requires
        1 <= width <= MAX_OVERFLOW_WIDTH,
        has_pattern(a, p, width, env, interp),
        has_pattern(b, q, width, env, interp),
    ensures
        ({
            let x = semantics::signed(p, width as nat);
            let y = semantics::signed(q, width as nat);
            let op = if subtract {
                ChcOp::BvSub
            } else {
                ChcOp::BvAdd
            };
            let exact = if subtract {
                x - y
            } else {
                x + y
            };
            terms::truth_of(signed_step_fits(op, a, b, width), env, interp) <==> bridge::in_window(
                exact,
                width,
            )
        }),
{
    let x = semantics::signed(p, width as nat);
    let y = semantics::signed(q, width as nat);
    let op = if subtract {
        ChcOp::BvSub
    } else {
        ChcOp::BvAdd
    };
    let exact = if subtract {
        x - y
    } else {
        x + y
    };
    let more = (width + 1) as u32;
    let modulus = power2::pow2(more as nat) as int;
    bridge_laws::lemma_halves(width);
    bridge_laws::lemma_halves(more);
    let wide_a = chc::unary(ChcOp::BvSignExtend(1), a);
    let wide_b = chc::unary(ChcOp::BvSignExtend(1), b);
    lemma_sign_extended(a, p, width, 1, env, interp);
    lemma_sign_extended(b, q, width, 1, env, interp);
    lemma_residues_step(subtract, wide_a, wide_b, x, y, more, env, interp);
    let wide = chc::binary(op, wide_a, wide_b);
    semantics::lemma_residue_fits(exact, more);
    let r = semantics::pattern(semantics::residue(exact, more));
    assert(r as int == if exact >= 0 {
        exact
    } else {
        exact + modulus
    }) by {
        if exact >= 0 {
            div_mod::lemma_small_mod(exact as nat, modulus as nat);
        } else {
            div_mod::lemma_small_mod((exact + modulus) as nat, modulus as nat);
            div_mod::lemma_mod_add_multiples_vanish(exact, modulus);
        }
    }
    lemma_top_bits_agree(wide, r, width, env, interp);
}

/// The sum or difference of two residues is the residue of the exact one.
proof fn lemma_residues_step(
    subtract: bool,
    left: ExprModel,
    right: ExprModel,
    x: int,
    y: int,
    width: u32,
    env: Env,
    interp: Interpretation,
)
    requires
        semantics::eval(left, env, interp) == semantics::residue(x, width),
        semantics::eval(right, env, interp) == semantics::residue(y, width),
    ensures
        ({
            let op = if subtract {
                ChcOp::BvSub
            } else {
                ChcOp::BvAdd
            };
            let exact = if subtract {
                x - y
            } else {
                x + y
            };
            semantics::eval(chc::binary(op, left, right), env, interp) == semantics::residue(
                exact,
                width,
            )
        }),
{
    let modulus = power2::pow2(width as nat) as int;
    power2::lemma_pow2_pos(width as nat);
    bridge_laws::lemma_eval_binary(left, right, env, interp);
    semantics::lemma_residue_fits(x, width);
    semantics::lemma_residue_fits(y, width);
    if subtract {
        div_mod::lemma_sub_mod_noop(x, y, modulus);
    } else {
        div_mod::lemma_add_mod_noop(x, y, modulus);
    }
}

/// The product of two residues is the residue of the exact one.
proof fn lemma_residues_product(
    left: ExprModel,
    right: ExprModel,
    x: int,
    y: int,
    width: u32,
    env: Env,
    interp: Interpretation,
)
    requires
        semantics::eval(left, env, interp) == semantics::residue(x, width),
        semantics::eval(right, env, interp) == semantics::residue(y, width),
    ensures
        semantics::eval(chc::binary(ChcOp::BvMul, left, right), env, interp) == semantics::residue(
            x * y,
            width,
        ),
{
    let modulus = power2::pow2(width as nat) as int;
    power2::lemma_pow2_pos(width as nat);
    bridge_laws::lemma_eval_binary(left, right, env, interp);
    semantics::lemma_residue_fits(x, width);
    semantics::lemma_residue_fits(y, width);
    div_mod::lemma_mul_mod_noop(x, y, modulus);
}

/// What an extraction is worth.
proof fn lemma_extracted(
    expr: ExprModel,
    bits: nat,
    size: u32,
    high: u32,
    low: u32,
    env: Env,
    interp: Interpretation,
)
    requires
        semantics::eval(expr, env, interp) == TermValue::BitVec(bits, size),
    ensures
        semantics::eval(chc::unary(ChcOp::BvExtract(high, low), expr), env, interp)
            == semantics::residue(
            (bits / power2::pow2(low as nat)) as int,
            (high - low + 1) as u32,
        ),
{
    bridge_laws::lemma_eval_unary(expr, env, interp);
}

/// The two top bits of a bit-vector one bit wider than `width` agree exactly
/// where its pattern lies in the lowest or the highest quarter.
proof fn lemma_top_bits_agree(
    wide: ExprModel,
    r: nat,
    width: u32,
    env: Env,
    interp: Interpretation,
)
    requires
        1 <= width <= MAX_OVERFLOW_WIDTH,
        r < 2 * power2::pow2(width as nat),
        semantics::eval(wide, env, interp) == TermValue::BitVec(r, (width + 1) as u32),
    ensures
        ({
            let below = (width - 1) as u32;
            let half = power2::pow2((width - 1) as nat);
            terms::truth_of(
                chc::binary(
                    ChcOp::Eq,
                    chc::unary(ChcOp::BvExtract(width, width), wide),
                    chc::unary(ChcOp::BvExtract(below, below), wide),
                ),
                env,
                interp,
            ) <==> r < half || r >= 3 * half
        }),
{
    let below = (width - 1) as u32;
    let more = (width + 1) as u32;
    let half = power2::pow2((width - 1) as nat) as int;
    bridge_laws::lemma_halves(width);
    lemma_extracted(wide, r, more, width, width, env, interp);
    lemma_extracted(wide, r, more, below, below, env, interp);
    lemma_equality_value(
        chc::unary(ChcOp::BvExtract(width, width), wide),
        chc::unary(ChcOp::BvExtract(below, below), wide),
        env,
        interp,
    );
    lemma_top_two_bits(r as int, half);
    power2::lemma2_to64();
    assert(power2::pow2(1) == 2);
    semantics::lemma_residue_fits((r / power2::pow2(width as nat)) as int, 1);
    semantics::lemma_residue_fits((r / power2::pow2(below as nat)) as int, 1);
}

/// The two top bits of a number below four times `half` agree exactly where it
/// lies in the lowest or the highest quarter.
proof fn lemma_top_two_bits(r: int, half: int)
    requires
        half >= 1,
        0 <= r < 4 * half,
    ensures
        ((r / (2 * half)) % 2 == (r / half) % 2) <==> (r < half || r >= 3 * half),
{
    if r < half {
        div_mod::lemma_fundamental_div_mod_converse(r, half, 0, r);
        div_mod::lemma_fundamental_div_mod_converse(r, 2 * half, 0, r);
    } else if r < 2 * half {
        div_mod::lemma_fundamental_div_mod_converse(r, half, 1, r - half);
        div_mod::lemma_fundamental_div_mod_converse(r, 2 * half, 0, r);
    } else if r < 3 * half {
        div_mod::lemma_fundamental_div_mod_converse(r, half, 2, r - 2 * half);
        div_mod::lemma_fundamental_div_mod_converse(r, 2 * half, 1, r - 2 * half);
    } else {
        div_mod::lemma_fundamental_div_mod_converse(r, half, 3, r - 3 * half);
        div_mod::lemma_fundamental_div_mod_converse(r, 2 * half, 1, r - 2 * half);
    }
}

/// Multiplication of unsigned numbers fits the width exactly where the predicate
/// is true.
pub proof fn law_unsigned_mul_fits(
    a: ExprModel,
    b: ExprModel,
    p: nat,
    q: nat,
    width: u32,
    env: Env,
    interp: Interpretation,
)
    requires
        1 <= width <= MAX_OVERFLOW_WIDTH,
        has_pattern(a, p, width, env, interp),
        has_pattern(b, q, width, env, interp),
    ensures
        terms::truth_of(unsigned_mul_fits(a, b, width), env, interp) <==> p * q < power2::pow2(
            width as nat,
        ),
{
    let full = power2::pow2(width as nat) as int;
    let double = (2 * width) as u32;
    let square = power2::pow2(double as nat) as int;
    power2::lemma_pow2_adds(width as nat, width as nat);
    assert(square == full * full);
    let wide_a = chc::unary(ChcOp::BvZeroExtend(width), a);
    let wide_b = chc::unary(ChcOp::BvZeroExtend(width), b);
    lemma_zero_extended(a, p, width, width, env, interp);
    lemma_zero_extended(b, q, width, width, env, interp);
    lemma_residues_product(wide_a, wide_b, p as int, q as int, double, env, interp);
    let r = p * q;
    assert(r < square) by (nonlinear_arith)
        requires
            0 <= p < full,
            0 <= q < full,
            square == full * full,
            r == p * q,
    ;
    div_mod::lemma_small_mod(r, square as nat);
    lemma_upper_half_zero(chc::binary(ChcOp::BvMul, wide_a, wide_b), r, width, env, interp);
}

/// What a zero extension is worth.
proof fn lemma_zero_extended(
    a: ExprModel,
    p: nat,
    width: u32,
    extra: u32,
    env: Env,
    interp: Interpretation,
)
    requires
        1 <= width <= MAX_OVERFLOW_WIDTH,
        extra <= MAX_OVERFLOW_WIDTH,
        has_pattern(a, p, width, env, interp),
    ensures
        semantics::eval(chc::unary(ChcOp::BvZeroExtend(extra), a), env, interp)
            == semantics::residue(p as int, (width + extra) as u32),
{
    bridge_laws::lemma_eval_unary(a, env, interp);
}

/// The upper half of a bit-vector of twice the width is zero exactly where its
/// pattern fits the width.
proof fn lemma_upper_half_zero(
    product: ExprModel,
    r: nat,
    width: u32,
    env: Env,
    interp: Interpretation,
)
    requires
        1 <= width <= MAX_OVERFLOW_WIDTH,
        r < power2::pow2(width as nat) * power2::pow2(width as nat),
        semantics::eval(product, env, interp) == TermValue::BitVec(r, (2 * width) as u32),
    ensures
        terms::truth_of(
            chc::binary(
                ChcOp::Eq,
                chc::unary(ChcOp::BvExtract((2 * width - 1) as u32, width), product),
                ExprModel::BitVec(0, width),
            ),
            env,
            interp,
        ) <==> r < power2::pow2(width as nat),
{
    let full = power2::pow2(width as nat) as int;
    power2::lemma_pow2_pos(width as nat);
    let last = (2 * width - 1) as u32;
    lemma_extracted(product, r, (2 * width) as u32, last, width, env, interp);
    lemma_equality_value(
        chc::unary(ChcOp::BvExtract(last, width), product),
        ExprModel::BitVec(0, width),
        env,
        interp,
    );
    let quotient = r as int / full;
    let rest = r as int % full;
    div_mod::lemma_fundamental_div_mod(r as int, full);
    div_mod::lemma_mod_bound(r as int, full);
    div_mod::lemma_div_pos_is_pos(r as int, full);
    assert(quotient < full) by (nonlinear_arith)
        requires
            r < full * full,
            r == full * quotient + rest,
            rest >= 0,
            full >= 1,
    ;
    div_mod::lemma_small_mod(quotient as nat, full as nat);
    assert((quotient == 0) <==> (r < full)) by (nonlinear_arith)
        requires
            r == full * quotient + rest,
            0 <= rest < full,
            full >= 1,
            quotient >= 0,
    ;
}

/// Multiplication of signed numbers fits the window exactly where the predicate
/// is true.
pub proof fn law_signed_mul_fits(
    a: ExprModel,
    b: ExprModel,
    p: nat,
    q: nat,
    width: u32,
    env: Env,
    interp: Interpretation,
)
    requires
        1 <= width <= MAX_OVERFLOW_WIDTH,
        has_pattern(a, p, width, env, interp),
        has_pattern(b, q, width, env, interp),
    ensures
        terms::truth_of(signed_mul_fits(a, b, width), env, interp) <==> bridge::in_window(
            semantics::signed(p, width as nat) * semantics::signed(q, width as nat),
            width,
        ),
{
    let x = semantics::signed(p, width as nat);
    let y = semantics::signed(q, width as nat);
    let exact = x * y;
    let full = power2::pow2(width as nat) as int;
    let half = power2::pow2((width - 1) as nat) as int;
    let double = (2 * width) as u32;
    let square = power2::pow2(double as nat) as int;
    bridge_laws::lemma_halves(width);
    power2::lemma_pow2_adds(width as nat, width as nat);
    assert(square == full * full);
    let wide_a = chc::unary(ChcOp::BvSignExtend(width), a);
    let wide_b = chc::unary(ChcOp::BvSignExtend(width), b);
    lemma_sign_extended(a, p, width, width, env, interp);
    lemma_sign_extended(b, q, width, width, env, interp);
    lemma_residues_product(wide_a, wide_b, x, y, double, env, interp);
    semantics::lemma_residue_fits(exact, double);
    let r = semantics::pattern(semantics::residue(exact, double));
    let l = semantics::pattern(semantics::residue(r as int, width));
    let small = semantics::signed(l, width as nat);
    semantics::lemma_residue_fits(r as int, width);
    lemma_own_extension(chc::binary(ChcOp::BvMul, wide_a, wide_b), r, width, env, interp);
    // The kept half is congruent to the exact product.
    assert(l as int == exact % full) by {
        div_mod::lemma_mod_mod(exact, full, full);
    }
    bridge_laws::lemma_pattern_round_trip(l, width);
    assert(-(half * half) <= exact <= half * half) by (nonlinear_arith)
        requires
            -half <= x < half,
            -half <= y < half,
            exact == x * y,
            half >= 1,
    ;
    assert(half * half + half < square) by (nonlinear_arith)
        requires
            square == full * full,
            full == 2 * half,
            half >= 1,
    ;
    if bridge::in_window(exact, width) {
        bridge_laws::lemma_window_round_trip(exact, width);
        assert(small == exact);
    } else {
        if semantics::residue(exact, double) == semantics::residue(small, double) {
            semantics::lemma_residue_fits(small, double);
            assert(exact % square == small % square);
            lemma_congruent_and_close(exact, small, square);
        }
    }
}

/// A bit-vector of twice the width is the extension of its lower half exactly
/// where their signed readings agree.
proof fn lemma_own_extension(
    product: ExprModel,
    r: nat,
    width: u32,
    env: Env,
    interp: Interpretation,
)
    requires
        1 <= width <= MAX_OVERFLOW_WIDTH,
        semantics::eval(product, env, interp) == TermValue::BitVec(r, (2 * width) as u32),
    ensures
        ({
            let low = chc::unary(ChcOp::BvExtract((width - 1) as u32, 0), product);
            let l = semantics::pattern(semantics::residue(r as int, width));
            terms::truth_of(
                chc::binary(ChcOp::Eq, product, chc::unary(ChcOp::BvSignExtend(width), low)),
                env,
                interp,
            ) <==> TermValue::BitVec(r, (2 * width) as u32) == semantics::residue(
                semantics::signed(l, width as nat),
                (2 * width) as u32,
            )
        }),
{
    let last = (width - 1) as u32;
    let low = chc::unary(ChcOp::BvExtract(last, 0), product);
    power2::lemma2_to64();
    assert(power2::pow2(0) == 1);
    div_mod::lemma_div_basics(r as int);
    lemma_extracted(product, r, (2 * width) as u32, last, 0, env, interp);
    semantics::lemma_residue_fits(r as int, width);
    let l = semantics::pattern(semantics::residue(r as int, width));
    lemma_sign_extended(low, l, width, width, env, interp);
    lemma_equality_value(product, chc::unary(ChcOp::BvSignExtend(width), low), env, interp);
}

/// Congruent numbers less than the modulus apart are equal.
proof fn lemma_congruent_and_close(left: int, right: int, modulus: int)
    requires
        modulus >= 1,
        left % modulus == right % modulus,
        -modulus < left - right < modulus,
    ensures
        left == right,
{
    div_mod::lemma_fundamental_div_mod(left, modulus);
    div_mod::lemma_fundamental_div_mod(right, modulus);
    let k = left / modulus - right / modulus;
    assert(left - right == modulus * k) by (nonlinear_arith)
        requires
            left == modulus * (left / modulus) + left % modulus,
            right == modulus * (right / modulus) + right % modulus,
            left % modulus == right % modulus,
            k == left / modulus - right / modulus,
    ;
    assert(k == 0) by (nonlinear_arith)
        requires
            -modulus < modulus * k < modulus,
            modulus >= 1,
    ;
}

} // verus!
