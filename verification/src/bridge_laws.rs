//! Exactness of bridge elimination.
//!
//! Integers in the signed window of a width correspond one to one to the
//! patterns of that width. The proofs here carry that correspondence through
//! the rewriting: a constraint and its image hold in corresponding environments.
use vstd::arithmetic::div_mod;
use vstd::arithmetic::power2;
use vstd::prelude::*;

use crate::bridge;
use crate::bridge::DecodeOrder;
use crate::chc;
use crate::chc::{AtomModel, ChcOp, ExprModel, SortModel, VarModel};
use crate::rewrite;
use crate::semantics;
use crate::semantics::{Env, Interpretation, TermValue};
use crate::terms;

verus! {

/// Two to the width is twice the window's half.
pub(crate) proof fn lemma_halves(width: u32)
    requires
        width >= 1,
    ensures
        power2::pow2(width as nat) == 2 * power2::pow2((width - 1) as nat),
        power2::pow2((width - 1) as nat) >= 1,
{
    power2::lemma_pow2_unfold(width as nat);
    power2::lemma_pow2_pos((width - 1) as nat);
}

/// The pattern of a window integer reads back as that integer.
pub(crate) proof fn lemma_window_round_trip(number: int, width: u32)
    requires
        width >= 1,
        bridge::in_window(number, width),
    ensures
        semantics::signed_value(semantics::residue(number, width)) == number,
        semantics::has_sort(semantics::residue(number, width), SortModel::BitVec(width)),
{
    lemma_halves(width);
    semantics::lemma_residue_fits(number, width);
    let modulus = power2::pow2(width as nat) as int;
    if number >= 0 {
        div_mod::lemma_small_mod(number as nat, modulus as nat);
    } else {
        div_mod::lemma_small_mod((number + modulus) as nat, modulus as nat);
        div_mod::lemma_mod_add_multiples_vanish(number, modulus);
    }
}

/// The signed reading of a pattern lies in the window and has that pattern.
pub(crate) proof fn lemma_pattern_round_trip(bits: nat, width: u32)
    requires
        width >= 1,
        bits < power2::pow2(width as nat),
    ensures
        bridge::in_window(semantics::signed(bits, width as nat), width),
        semantics::residue(semantics::signed(bits, width as nat), width) == TermValue::BitVec(
            bits,
            width,
        ),
{
    lemma_halves(width);
    let modulus = power2::pow2(width as nat) as int;
    let number = semantics::signed(bits, width as nat);
    if 2 * bits < modulus {
        div_mod::lemma_small_mod(bits, modulus as nat);
    } else {
        div_mod::lemma_small_mod(bits, modulus as nat);
        div_mod::lemma_mod_add_multiples_vanish(number, modulus);
    }
}

/// The top bit of a pattern is set exactly where the pattern reads negative.
proof fn lemma_sign_bit(bits: nat, width: u32)
    requires
        width >= 1,
        bits < power2::pow2(width as nat),
    ensures
        (semantics::residue((bits / power2::pow2((width - 1) as nat)) as int, 1) == TermValue::BitVec(
            1,
            1,
        )) == (2 * bits >= power2::pow2(width as nat)),
{
    lemma_halves(width);
    let half = power2::pow2((width - 1) as nat) as int;
    power2::lemma2_to64();
    assert(power2::pow2(1) == 2);
    if bits < half {
        div_mod::lemma_div_basics(bits as int);
        assert(bits as int / half == 0) by {
            div_mod::lemma_basic_div(bits as int, half);
        }
    } else {
        assert(bits as int / half == 1) by {
            div_mod::lemma_fundamental_div_mod_converse(bits as int, half, 1, bits - half);
        }
    }
}

pub(crate) proof fn lemma_eval_unary(inner: ExprModel, env: Env, interp: Interpretation)
    ensures
        semantics::eval_all(seq![inner], env, interp) == seq![semantics::eval(inner, env, interp)],
{
    assert(semantics::eval_all(seq![inner], env, interp) =~= seq![
        semantics::eval(inner, env, interp),
    ]);
}

pub(crate) proof fn lemma_eval_binary(left: ExprModel, right: ExprModel, env: Env, interp: Interpretation)
    ensures
        semantics::eval_all(seq![left, right], env, interp) == seq![
            semantics::eval(left, env, interp),
            semantics::eval(right, env, interp),
        ],
{
    assert(semantics::eval_all(seq![left, right], env, interp) =~= seq![
        semantics::eval(left, env, interp),
        semantics::eval(right, env, interp),
    ]);
}

proof fn lemma_eval_ternary(
    first: ExprModel,
    second: ExprModel,
    third: ExprModel,
    env: Env,
    interp: Interpretation,
)
    ensures
        semantics::eval_all(seq![first, second, third], env, interp) == seq![
            semantics::eval(first, env, interp),
            semantics::eval(second, env, interp),
            semantics::eval(third, env, interp),
        ],
{
    assert(semantics::eval_all(seq![first, second, third], env, interp) =~= seq![
        semantics::eval(first, env, interp),
        semantics::eval(second, env, interp),
        semantics::eval(third, env, interp),
    ]);
}

/// An equation holds exactly where its sides have the same value.
proof fn lemma_equation_value(
    left: ExprModel,
    right: ExprModel,
    in_order: bool,
    env: Env,
    interp: Interpretation,
)
    ensures
        semantics::eval(bridge::equation(left, right, in_order), env, interp) == TermValue::Bool(
            semantics::eval(left, env, interp) == semantics::eval(right, env, interp),
        ),
{
    lemma_eval_binary(left, right, env, interp);
    lemma_eval_binary(right, left, env, interp);
}

/// What the pieces of a decode are worth where the decoded bit-vector has a
/// given pattern.
proof fn lemma_decode_values(
    bits: ExprModel,
    value: nat,
    width: u32,
    first: bool,
    env: Env,
    interp: Interpretation,
)
    requires
        width >= 1,
        value < power2::pow2(width as nat),
        semantics::eval(bits, env, interp) == TermValue::BitVec(value, width),
    ensures
        semantics::eval(bridge::sign_test(bits, width, first), env, interp) == TermValue::Bool(
            2 * value >= power2::pow2(width as nat),
        ),
        semantics::eval(bridge::unsigned_decode(bits), env, interp) == TermValue::Int(value as int),
        semantics::eval(bridge::wrapped_decode(bits, width), env, interp) == TermValue::Int(
            value - power2::pow2(width as nat),
        ),
{
    let top = (width - 1) as u32;
    let extract = chc::unary(ChcOp::BvExtract(top, top), bits);
    lemma_eval_unary(bits, env, interp);
        lemma_sign_bit(value, width);
    lemma_equation_value(bridge::one_bit(), extract, first, env, interp);
    let wrap = ExprModel::Int(power2::pow2(width as nat) as int);
    lemma_eval_binary(bridge::unsigned_decode(bits), wrap, env, interp);
}

/// A signed decode term is worth the signed reading of the pattern.
proof fn lemma_decode_term_value(
    bits: ExprModel,
    value: nat,
    width: u32,
    first: bool,
    env: Env,
    interp: Interpretation,
)
    requires
        width >= 1,
        value < power2::pow2(width as nat),
        semantics::eval(bits, env, interp) == TermValue::BitVec(value, width),
    ensures
        semantics::eval(bridge::decode_term(bits, width, first), env, interp) == TermValue::Int(
            semantics::signed(value, width as nat),
        ),
{
    lemma_decode_values(bits, value, width, first, env, interp);
    lemma_eval_ternary(
        bridge::sign_test(bits, width, first),
        bridge::wrapped_decode(bits, width),
        bridge::unsigned_decode(bits),
        env,
        interp,
    );
}

/// A pinned signed decode holds exactly where the variable has the signed
/// reading of the pattern.
proof fn lemma_signed_decode_value(
    bits: ExprModel,
    value: nat,
    name: Seq<char>,
    width: u32,
    order: DecodeOrder,
    env: Env,
    interp: Interpretation,
)
    requires
        width >= 1,
        value < power2::pow2(width as nat),
        semantics::eval(bits, env, interp) == TermValue::BitVec(value, width),
    ensures
        semantics::eval(bridge::signed_decode(bits, name, width, order), env, interp)
            == TermValue::Bool(
            semantics::eval(bridge::int_var(name), env, interp) == TermValue::Int(
                semantics::signed(value, width as nat),
            ),
        ),
{
    lemma_decode_values(bits, value, width, order.cond_literal_first, env, interp);
    let var = bridge::int_var(name);
    let wrapped = bridge::wrapped_decode(bits, width);
    let plain = bridge::unsigned_decode(bits);
    lemma_equation_value(var, wrapped, order.then_var_first, env, interp);
    lemma_equation_value(var, plain, order.else_var_first, env, interp);
    lemma_eval_ternary(
        bridge::sign_test(bits, width, order.cond_literal_first),
        bridge::equation(var, wrapped, order.then_var_first),
        bridge::equation(var, plain, order.else_var_first),
        env,
        interp,
    );
}

/// The image of a pinned signed decode holds exactly where the two bit-vectors
/// are equal.
proof fn lemma_decode_image_value(
    bits: ExprModel,
    value: nat,
    name: Seq<char>,
    width: u32,
    order: DecodeOrder,
    env: Env,
    interp: Interpretation,
)
    requires
        width >= 1,
        value < power2::pow2(width as nat),
        semantics::eval(bits, env, interp) == TermValue::BitVec(value, width),
    ensures
        semantics::eval(bridge::decode_image(bits, name, width, order), env, interp) == TermValue::Bool(
            semantics::eval(bridge::image_var(name, width), env, interp) == TermValue::BitVec(
                value,
                width,
            ),
        ),
{
    lemma_decode_values(bits, value, width, order.cond_literal_first, env, interp);
    let var = bridge::image_var(name, width);
    lemma_equation_value(var, bits, order.then_var_first, env, interp);
    lemma_equation_value(var, bits, order.else_var_first, env, interp);
    lemma_eval_ternary(
        bridge::sign_test(bits, width, order.cond_literal_first),
        bridge::equation(var, bits, order.then_var_first),
        bridge::equation(var, bits, order.else_var_first),
        env,
        interp,
    );
}

/// A term has the same value in environments that agree on its variables.
pub proof fn lemma_eval_agrees(expr: ExprModel, env: Env, other: Env, interp: Interpretation)
    requires
        forall|var: VarModel| #[trigger] terms::occurs(var, expr) ==> env(var) == other(var),
    ensures
        semantics::eval(expr, env, interp) == semantics::eval(expr, other, interp),
    decreases expr, 1int,
{
    match expr {
        ExprModel::Var(var) => {
            assert(terms::occurs(var, expr));
        },
        ExprModel::Op(_, args) => {
            assert forall|var: VarModel| #[trigger] terms::occurs_in_any(var, args) implies env(var)
                == other(var) by {
                assert(terms::occurs(var, expr));
            }
            lemma_eval_all_agrees(args, env, other, interp);
        },
        ExprModel::PredicateApp(_, _, args) => {
            assert forall|var: VarModel| #[trigger] terms::occurs_in_any(var, args) implies env(var)
                == other(var) by {
                assert(terms::occurs(var, expr));
            }
            lemma_eval_all_agrees(args, env, other, interp);
        },
        ExprModel::FuncApp(_, _, args) => {
            assert forall|var: VarModel| #[trigger] terms::occurs_in_any(var, args) implies env(var)
                == other(var) by {
                assert(terms::occurs(var, expr));
            }
            lemma_eval_all_agrees(args, env, other, interp);
        },
        ExprModel::ConstArray(_, value) => {
            assert forall|var: VarModel| #[trigger] terms::occurs(var, *value) implies env(var)
                == other(var) by {
                assert(terms::occurs(var, expr));
            }
            lemma_eval_agrees(*value, env, other, interp);
        },
        _ => {},
    }
}

/// Several terms have the same values in environments that agree on their
/// variables.
pub proof fn lemma_eval_all_agrees(
    exprs: Seq<ExprModel>,
    env: Env,
    other: Env,
    interp: Interpretation,
)
    requires
        forall|var: VarModel| #[trigger]
            terms::occurs_in_any(var, exprs) ==> env(var) == other(var),
    ensures
        semantics::eval_all(exprs, env, interp) == semantics::eval_all(exprs, other, interp),
    decreases exprs, 0int,
{
    assert forall|i: int| 0 <= i < exprs.len() implies semantics::eval(
        #[trigger] exprs[i],
        env,
        interp,
    ) == semantics::eval(exprs[i], other, interp) by {
        assert forall|var: VarModel| #[trigger] terms::occurs(var, exprs[i]) implies env(var)
            == other(var) by {
            assert(terms::occurs_in_any(var, exprs));
        }
        lemma_eval_agrees(exprs[i], env, other, interp);
    }
    assert(semantics::eval_all(exprs, env, interp) =~= semantics::eval_all(exprs, other, interp));
}

/// Whether two environments correspond: the named variables are window integers
/// in one and their patterns in the other, everything else is the same.
pub open spec fn corresponds(
    integers: Env,
    vectors: Env,
    names: Set<Seq<char>>,
    width: u32,
) -> bool {
    &&& semantics::env_fits(integers)
    &&& semantics::env_fits(vectors)
    &&& forall|name: Seq<char>| #[trigger]
        names.contains(name) ==> {
            let number = integers(VarModel { name, sort: SortModel::Int });
            &&& number is Int
            &&& bridge::in_window(number->Int_0, width)
            &&& vectors(VarModel { name, sort: SortModel::BitVec(width) }) == semantics::residue(
                number->Int_0,
                width,
            )
        }
    &&& forall|var: VarModel|
        !names.contains(var.name) ==> #[trigger] integers(var) == vectors(var)
}

/// Whether a term names the given variables as integers only.
pub open spec fn named_as_integers(names: Set<Seq<char>>, expr: ExprModel) -> bool {
    forall|var: VarModel| #[trigger]
        terms::occurs(var, expr) && names.contains(var.name) ==> var.sort is Int
}

/// What an image must be worth: the pattern where the term is an integer, the
/// same value where it is not.
pub open spec fn matches_image(
    expr: ExprModel,
    image: ExprModel,
    width: u32,
    integers: Env,
    vectors: Env,
    interp: Interpretation,
) -> bool {
    let value = semantics::eval(expr, integers, interp);
    let imaged = semantics::eval(image, vectors, interp);
    if semantics::term_sort(expr) == Some(SortModel::Int) {
        &&& semantics::term_sort(image) == Some(SortModel::BitVec(width))
        &&& value is Int
        &&& bridge::in_window(value->Int_0, width)
        &&& imaged == semantics::residue(value->Int_0, width)
    } else {
        &&& semantics::term_sort(image) == semantics::term_sort(expr)
        &&& imaged == value
    }
}

/// A term and its image are worth the same in corresponding environments.
proof fn lemma_image_exact(
    expr: ExprModel,
    width: u32,
    names: Set<Seq<char>>,
    integers: Env,
    vectors: Env,
    interp: Interpretation,
)
    requires
        1 <= width <= bridge::MAX_BRIDGE_WIDTH,
        semantics::well_sorted(expr),
        named_as_integers(names, expr),
        corresponds(integers, vectors, names, width),
        bridge::image(expr, width, names) is Some,
    ensures
        matches_image(
            expr,
            bridge::image(expr, width, names)->0,
            width,
            integers,
            vectors,
            interp,
        ),
    decreases expr, 1int,
{
    let image = bridge::image(expr, width, names)->0;
    match expr {
        ExprModel::Var(var) => {
            assert(terms::occurs(var, expr));
            if var.sort is Int {
                assert(names.contains(var.name));
            } else {
                assert(!names.contains(var.name));
            }
        },
        ExprModel::Op(op, args) => {
            if op is Ite && bridge::tests_sign(expr, width) {
                lemma_subject_is_subterm(expr, width, names);
                let bits = bridge::tested_bits(expr);
                let value = semantics::pattern(semantics::eval(bits, integers, interp));
                semantics::lemma_eval_has_sort(bits, integers, interp);
                if exists|name: Seq<char>, order: DecodeOrder|
                    names.contains(name) && bridge::is_signed_decode(expr, width, name, order) {
                    let (name, order) = choose|name: Seq<char>, order: DecodeOrder|
                        names.contains(name) && bridge::is_signed_decode(expr, width, name, order);
                    lemma_image_exact(bits, width, names, integers, vectors, interp);
                    let bits_image = bridge::image(bits, width, names)->0;
                    lemma_signed_decode_value(bits, value, name, width, order, integers, interp);
                    lemma_decode_image_value(bits_image, value, name, width, order, vectors, interp);
                    lemma_decode_sorts(expr, image, bits, bits_image, name, width, order);
                    let number = integers(VarModel { name, sort: SortModel::Int })->Int_0;
                    lemma_window_round_trip(number, width);
                    lemma_pattern_round_trip(value, width);
                } else if bridge::is_decode_term(expr, width) {
                    lemma_image_exact(bits, width, names, integers, vectors, interp);
                    let first = choose|first: bool|
                        expr == #[trigger] bridge::decode_term(bits, width, first);
                    lemma_decode_term_value(bits, value, width, first, integers, interp);
                    lemma_decode_term_sort(bits, width, first);
                    lemma_pattern_round_trip(value, width);
                } else {
                    lemma_application_exact(expr, width, names, integers, vectors, interp);
                }
            } else if op is Int2Bv {
                lemma_bridge_exact(expr, width, names, integers, vectors, interp);
            } else {
                lemma_application_exact(expr, width, names, integers, vectors, interp);
            }
        },
        _ => {},
    }
}

/// The bit-vector that a sign test reads is well sorted and names nothing new.
proof fn lemma_subject_is_subterm(expr: ExprModel, width: u32, names: Set<Seq<char>>)
    requires
        semantics::well_sorted(expr),
        bridge::tests_sign(expr, width),
        named_as_integers(names, expr),
    ensures
        semantics::well_sorted(bridge::tested_bits(expr)),
        named_as_integers(names, bridge::tested_bits(expr)),
        decreases_to!(expr => bridge::tested_bits(expr)),
{
    let bits = bridge::tested_bits(expr);
    let args = expr->Op_1;
    let first = choose|first: bool|
        args[0] == #[trigger] bridge::sign_test(bits, width, first);
    let top = (width - 1) as u32;
    let extract = chc::unary(ChcOp::BvExtract(top, top), bits);
    let sides = args[0]->Op_1;
    let at: int = if first {
        1
    } else {
        0
    };
    assert(semantics::well_sorted(args[0]));
    assert(sides[at] == extract);
    assert(semantics::well_sorted(sides[at]));
    assert(extract->Op_1[0] == bits);
    assert(semantics::well_sorted(extract->Op_1[0]));
    assert forall|var: VarModel| #[trigger] terms::occurs(var, bits) && names.contains(
        var.name,
    ) implies var.sort is Int by {
        assert(terms::occurs(var, extract->Op_1[0]));
        assert(terms::occurs_in_any(var, extract->Op_1));
        assert(terms::occurs(var, sides[at]));
        assert(terms::occurs_in_any(var, sides));
        assert(terms::occurs(var, args[0]));
        assert(terms::occurs_in_any(var, args));
        assert(terms::occurs(var, expr));
    }
    assert(decreases_to!(expr => args));
    assert(decreases_to!(args => args[0]));
    assert(decreases_to!(args[0] => sides));
    assert(decreases_to!(sides => sides[at]));
    assert(decreases_to!(sides[at] => sides[at]->Op_1));
    assert(decreases_to!(sides[at]->Op_1 => sides[at]->Op_1[0]));
}

proof fn lemma_decode_sorts(
    expr: ExprModel,
    image: ExprModel,
    bits: ExprModel,
    bits_image: ExprModel,
    name: Seq<char>,
    width: u32,
    order: DecodeOrder,
)
    requires
        expr == bridge::signed_decode(bits, name, width, order),
        image == bridge::decode_image(bits_image, name, width, order),
    ensures
        semantics::term_sort(expr) == Some(SortModel::Bool),
        semantics::term_sort(image) == Some(SortModel::Bool),
{
    assert(expr->Op_1[1] == bridge::equation(
        bridge::int_var(name),
        bridge::wrapped_decode(bits, width),
        order.then_var_first,
    ));
    assert(image->Op_1[1] == bridge::equation(
        bridge::image_var(name, width),
        bits_image,
        order.then_var_first,
    ));
    assert(semantics::term_sort(expr->Op_1[1]) == Some(SortModel::Bool));
    assert(semantics::term_sort(image->Op_1[1]) == Some(SortModel::Bool));
}

proof fn lemma_decode_term_sort(bits: ExprModel, width: u32, first: bool)
    ensures
        semantics::term_sort(bridge::decode_term(bits, width, first)) == Some(SortModel::Int),
{
    let expr = bridge::decode_term(bits, width, first);
    let wrapped = bridge::wrapped_decode(bits, width);
    assert(expr->Op_1[1] == wrapped);
    assert(wrapped->Op_1[0] == bridge::unsigned_decode(bits));
    assert(semantics::term_sort(bridge::unsigned_decode(bits)) == Some(SortModel::Int));
    assert(semantics::term_sort(wrapped) == Some(SortModel::Int));
}

proof fn lemma_bridge_exact(
    expr: ExprModel,
    width: u32,
    names: Set<Seq<char>>,
    integers: Env,
    vectors: Env,
    interp: Interpretation,
)
    requires
        1 <= width <= bridge::MAX_BRIDGE_WIDTH,
        expr is Op,
        expr->Op_0 is Int2Bv,
        corresponds(integers, vectors, names, width),
        bridge::image(expr, width, names) is Some,
    ensures
        matches_image(
            expr,
            bridge::image(expr, width, names)->0,
            width,
            integers,
            vectors,
            interp,
        ),
{
    let args = expr->Op_1;
    let vals = semantics::eval_all(args, integers, interp);
    assert(vals[0] == semantics::eval(args[0], integers, interp));
    if let ExprModel::Var(var) = args[0] {
        assert(names.contains(var.name));
    }
}

/// An application whose operands are imaged one by one is worth what its image is.
proof fn lemma_application_exact(
    expr: ExprModel,
    width: u32,
    names: Set<Seq<char>>,
    integers: Env,
    vectors: Env,
    interp: Interpretation,
)
    requires
        1 <= width <= bridge::MAX_BRIDGE_WIDTH,
        semantics::well_sorted(expr),
        named_as_integers(names, expr),
        corresponds(integers, vectors, names, width),
        expr is Op,
        bridge::image_op(expr->Op_0, expr->Op_1) is Some,
        bridge::image_all(expr->Op_1, width, names) is Some,
    ensures
        matches_image(
            expr,
            ExprModel::Op(
                bridge::image_op(expr->Op_0, expr->Op_1)->0,
                bridge::image_all(expr->Op_1, width, names)->0,
            ),
            width,
            integers,
            vectors,
            interp,
        ),
    decreases expr, 0int,
{
    let op = expr->Op_0;
    let args = expr->Op_1;
    let images = bridge::image_all(args, width, names)->0;
    assert forall|i: int| 0 <= i < args.len() implies matches_image(
        #[trigger] args[i],
        images[i],
        width,
        integers,
        vectors,
        interp,
    ) by {
        assert(semantics::well_sorted(args[i]));
        assert forall|var: VarModel| #[trigger] terms::occurs(var, args[i]) && names.contains(
            var.name,
        ) implies var.sort is Int by {
            assert(terms::occurs_in_any(var, args));
            assert(terms::occurs(var, expr));
        }
        assert(bridge::image(args[i], width, names) is Some);
        lemma_image_exact(args[i], width, names, integers, vectors, interp);
    }
    if op is Ite {
        lemma_conditional_exact(args, images, width, integers, vectors, interp);
    } else if op is Eq || op is Ne {
        lemma_equality_exact(op, args, images, width, integers, vectors, interp);
    } else if op is Lt || op is Le || op is Gt || op is Ge {
        lemma_comparison_exact(op, args, images, width, integers, vectors, interp);
    } else {
        lemma_vector_application_exact(op, args, images, width, integers, vectors, interp);
    }
}

/// Whether every image is worth what its term is.
spec fn all_match(
    args: Seq<ExprModel>,
    images: Seq<ExprModel>,
    width: u32,
    integers: Env,
    vectors: Env,
    interp: Interpretation,
) -> bool {
    &&& args.len() == images.len()
    &&& forall|i: int|
        0 <= i < args.len() ==> matches_image(
            #[trigger] args[i],
            images[i],
            width,
            integers,
            vectors,
            interp,
        )
}

proof fn lemma_conditional_exact(
    args: Seq<ExprModel>,
    images: Seq<ExprModel>,
    width: u32,
    integers: Env,
    vectors: Env,
    interp: Interpretation,
)
    requires
        all_match(args, images, width, integers, vectors, interp),
        semantics::operands_fit(ChcOp::Ite, args),
    ensures
        matches_image(
            ExprModel::Op(ChcOp::Ite, args),
            ExprModel::Op(ChcOp::Ite, images),
            width,
            integers,
            vectors,
            interp,
        ),
{
    let vals = semantics::eval_all(args, integers, interp);
    let image_vals = semantics::eval_all(images, vectors, interp);
    assert(vals[0] == semantics::eval(args[0], integers, interp));
    assert(vals[1] == semantics::eval(args[1], integers, interp));
    assert(vals[2] == semantics::eval(args[2], integers, interp));
    assert(image_vals[0] == semantics::eval(images[0], vectors, interp));
    assert(image_vals[1] == semantics::eval(images[1], vectors, interp));
    assert(image_vals[2] == semantics::eval(images[2], vectors, interp));
}

proof fn lemma_equality_exact(
    op: ChcOp,
    args: Seq<ExprModel>,
    images: Seq<ExprModel>,
    width: u32,
    integers: Env,
    vectors: Env,
    interp: Interpretation,
)
    requires
        1 <= width,
        op is Eq || op is Ne,
        all_match(args, images, width, integers, vectors, interp),
        semantics::operands_fit(op, args),
    ensures
        matches_image(
            ExprModel::Op(op, args),
            ExprModel::Op(op, images),
            width,
            integers,
            vectors,
            interp,
        ),
{
    let vals = semantics::eval_all(args, integers, interp);
    let image_vals = semantics::eval_all(images, vectors, interp);
    assert(vals[0] == semantics::eval(args[0], integers, interp));
    assert(vals[1] == semantics::eval(args[1], integers, interp));
    assert(image_vals[0] == semantics::eval(images[0], vectors, interp));
    assert(image_vals[1] == semantics::eval(images[1], vectors, interp));
    if semantics::term_sort(args[0]) == Some(SortModel::Int) {
        lemma_window_round_trip(vals[0]->Int_0, width);
        lemma_window_round_trip(vals[1]->Int_0, width);
    }
}

proof fn lemma_comparison_exact(
    op: ChcOp,
    args: Seq<ExprModel>,
    images: Seq<ExprModel>,
    width: u32,
    integers: Env,
    vectors: Env,
    interp: Interpretation,
)
    requires
        1 <= width,
        op is Lt || op is Le || op is Gt || op is Ge,
        args.len() == 2,
        all_match(args, images, width, integers, vectors, interp),
        semantics::all_of_sort(args, SortModel::Int),
    ensures
        matches_image(
            ExprModel::Op(op, args),
            ExprModel::Op(bridge::signed_relation(op), images),
            width,
            integers,
            vectors,
            interp,
        ),
{
    let vals = semantics::eval_all(args, integers, interp);
    let image_vals = semantics::eval_all(images, vectors, interp);
    assert(vals[0] == semantics::eval(args[0], integers, interp));
    assert(vals[1] == semantics::eval(args[1], integers, interp));
    assert(image_vals[0] == semantics::eval(images[0], vectors, interp));
    assert(image_vals[1] == semantics::eval(images[1], vectors, interp));
    assert(semantics::term_sort(args[0]) == Some(SortModel::Int));
    assert(semantics::term_sort(args[1]) == Some(SortModel::Int));
    lemma_window_round_trip(vals[0]->Int_0, width);
    lemma_window_round_trip(vals[1]->Int_0, width);
}

proof fn lemma_vector_application_exact(
    op: ChcOp,
    args: Seq<ExprModel>,
    images: Seq<ExprModel>,
    width: u32,
    integers: Env,
    vectors: Env,
    interp: Interpretation,
)
    requires
        all_match(args, images, width, integers, vectors, interp),
        args.len() > 0,
        semantics::operands_fit(op, args),
        op is Not || op is And || op is Or || op is Implies || op is Iff || bridge::is_bv_value(op)
            || semantics::is_bv_relation(op),
    ensures
        matches_image(
            ExprModel::Op(op, args),
            ExprModel::Op(op, images),
            width,
            integers,
            vectors,
            interp,
        ),
{
    let vals = semantics::eval_all(args, integers, interp);
    let image_vals = semantics::eval_all(images, vectors, interp);
    assert forall|i: int| 0 <= i < args.len() implies #[trigger] image_vals[i] == vals[i]
        && semantics::term_sort(images[i]) == semantics::term_sort(args[i]) by {
        lemma_operands_not_integers(op, args, i);
        assert(matches_image(args[i], images[i], width, integers, vectors, interp));
    }
    assert(image_vals =~= vals);
    assert(image_vals[0] == vals[0]);
    if args.len() > 1 {
        assert(image_vals[1] == vals[1]);
    }
    lemma_operands_not_integers(op, args, 0);
    let expr = ExprModel::Op(op, args);
    let image = ExprModel::Op(op, images);
    assert(semantics::term_sort(image) == semantics::term_sort(expr));
}

/// Connectives and bit-vector operators take no integers.
proof fn lemma_operands_not_integers(op: ChcOp, args: Seq<ExprModel>, at: int)
    requires
        semantics::operands_fit(op, args),
        0 <= at < args.len(),
        op is Not || op is And || op is Or || op is Implies || op is Iff || bridge::is_bv_value(op)
            || semantics::is_bv_relation(op),
    ensures
        semantics::term_sort(args[at]) != Some(SortModel::Int),
{
    assert(semantics::term_sort(args[at]) == semantics::term_sort(args[at]));
}

/// A fact that holds keeps the bounds it states.
proof fn lemma_bound_holds(fact: ExprModel, name: Seq<char>, env: Env, interp: Interpretation)
    requires
        terms::truth_of(fact, env, interp),
        semantics::env_fits(env),
    ensures
        bridge::lower_bound(fact, name) matches Some(bound) ==> bound <= semantics::integer(
            env(VarModel { name, sort: SortModel::Int }),
        ),
        bridge::upper_bound(fact, name) matches Some(bound) ==> semantics::integer(
            env(VarModel { name, sort: SortModel::Int }),
        ) <= bound,
{
    let var = VarModel { name, sort: SortModel::Int };
    assert(semantics::has_sort(env(var), var.sort));
    if bridge::compared_literal(fact, name) is Some {
        let args = fact->Op_1;
        let vals = semantics::eval_all(args, env, interp);
        assert(vals[0] == semantics::eval(args[0], env, interp));
        assert(vals[1] == semantics::eval(args[1], env, interp));
        assert(semantics::eval(bridge::int_var(name), env, interp) == env(var));
    }
}

/// A fact that defines a name as a signed decode, where it holds, puts the
/// variable in the window.
proof fn lemma_decoded_in_window(
    fact: ExprModel,
    name: Seq<char>,
    width: u32,
    env: Env,
    interp: Interpretation,
)
    requires
        width >= 1,
        terms::truth_of(fact, env, interp),
        semantics::well_sorted(fact),
        semantics::env_fits(env),
        bridge::defines_decoded(fact, width, name),
    ensures
        bridge::in_window(semantics::integer(env(VarModel { name, sort: SortModel::Int })), width),
{
    let var = VarModel { name, sort: SortModel::Int };
    assert(semantics::has_sort(env(var), var.sort));
    let none = Set::<Seq<char>>::empty();
    if exists|order: DecodeOrder| bridge::is_signed_decode(fact, width, name, order) {
        let order = choose|order: DecodeOrder| bridge::is_signed_decode(fact, width, name, order);
        let bits = bridge::tested_bits(fact);
        lemma_subject_is_subterm(fact, width, none);
        semantics::lemma_eval_has_sort(bits, env, interp);
        let value = semantics::pattern(semantics::eval(bits, env, interp));
        lemma_signed_decode_value(bits, value, name, width, order, env, interp);
        lemma_pattern_round_trip(value, width);
    } else {
        let (term, in_order) = choose|term: ExprModel, in_order: bool|
            bridge::is_decode_term(term, width) && fact == #[trigger] bridge::equation(
                bridge::int_var(name),
                term,
                in_order,
            );
        let at: int = if in_order {
            1
        } else {
            0
        };
        assert(fact->Op_1[at] == term);
        assert(semantics::well_sorted(fact->Op_1[at]));
        let bits = bridge::tested_bits(term);
        lemma_subject_is_subterm(term, width, none);
        semantics::lemma_eval_has_sort(bits, env, interp);
        let value = semantics::pattern(semantics::eval(bits, env, interp));
        let first = choose|first: bool| term == #[trigger] bridge::decode_term(bits, width, first);
        lemma_decode_term_value(bits, value, width, first, env, interp);
        lemma_equation_value(bridge::int_var(name), term, in_order, env, interp);
        lemma_pattern_round_trip(value, width);
    }
}

/// Wherever a constraint holds, its admissible variables lie in the window.
pub proof fn lemma_admissible_in_window(
    constraint: ExprModel,
    name: Seq<char>,
    width: u32,
    env: Env,
    interp: Interpretation,
)
    requires
        width >= 1,
        semantics::well_sorted(constraint),
        semantics::env_fits(env),
        terms::truth_of(constraint, env, interp),
        bridge::admissible(terms::conjunct_leaves(constraint), width).contains(name),
    ensures
        bridge::in_window(semantics::integer(env(VarModel { name, sort: SortModel::Int })), width),
{
    let facts = terms::conjunct_leaves(constraint);
    terms::lemma_leaves_hold(constraint, env, interp);
    if exists|i: int|
        0 <= i < facts.len() && bridge::defines_decoded(#[trigger] facts[i], width, name) {
        let i = choose|i: int|
            0 <= i < facts.len() && bridge::defines_decoded(#[trigger] facts[i], width, name);
        lemma_decoded_in_window(facts[i], name, width, env, interp);
    } else {
        let below = choose|i: int|
            0 <= i < facts.len() && (bridge::lower_bound(#[trigger] facts[i], name) matches Some(
                bound,
            ) && -power2::pow2((width - 1) as nat) <= bound);
        let above = choose|i: int|
            0 <= i < facts.len() && (bridge::upper_bound(#[trigger] facts[i], name) matches Some(
                bound,
            ) && bound < power2::pow2((width - 1) as nat));
        lemma_bound_holds(facts[below], name, env, interp);
        lemma_bound_holds(facts[above], name, env, interp);
    }
}

/// The environment with the named integers stored as their patterns.
pub open spec fn encoded(env: Env, names: Set<Seq<char>>, width: u32) -> Env {
    |var: VarModel|
        if var.sort == SortModel::BitVec(width) && names.contains(var.name) {
            semantics::residue(
                semantics::integer(env(VarModel { name: var.name, sort: SortModel::Int })),
                width,
            )
        } else {
            env(var)
        }
}

/// The environment with the named patterns read as integers.
pub open spec fn decoded(env: Env, names: Set<Seq<char>>, width: u32) -> Env {
    |var: VarModel|
        if var.sort is Int && names.contains(var.name) {
            TermValue::Int(
                semantics::signed_value(
                    env(VarModel { name: var.name, sort: SortModel::BitVec(width) }),
                ),
            )
        } else {
            env(var)
        }
}

/// The bridge width of a constraint that is rewritten.
pub open spec fn bridge_width(constraint: ExprModel) -> u32 {
    choose|width: u32| bridge::is_bridge_width(constraint, width)
}

/// The variables that a rewritten constraint holds as bit-vectors.
pub open spec fn rewritten_names(constraint: ExprModel) -> Set<Seq<char>> {
    bridge::admissible(terms::conjunct_leaves(constraint), bridge_width(constraint))
}

/// Whether two environments give the arguments of a clause the same values.
pub open spec fn same_arguments(
    env: Env,
    other: Env,
    atoms: Seq<AtomModel>,
    head_args: Seq<ExprModel>,
    interp: Interpretation,
) -> bool {
    &&& semantics::eval_all(head_args, env, interp) == semantics::eval_all(head_args, other, interp)
    &&& forall|i: int|
        0 <= i < atoms.len() ==> semantics::eval_all((#[trigger] atoms[i]).args, env, interp)
            == semantics::eval_all(atoms[i].args, other, interp)
}

proof fn lemma_same_arguments(
    env: Env,
    other: Env,
    names: Set<Seq<char>>,
    constraint: ExprModel,
    atoms: Seq<AtomModel>,
    head_args: Seq<ExprModel>,
    interp: Interpretation,
)
    requires
        rewrite::capture_free(names, constraint, atoms, head_args),
        forall|var: VarModel| !names.contains(var.name) ==> #[trigger] env(var) == other(var),
    ensures
        same_arguments(env, other, atoms, head_args, interp),
{
    assert forall|var: VarModel| #[trigger] terms::occurs_in_any(var, head_args) implies env(var)
        == other(var) by {
        assert(rewrite::occurs_in_arguments(var, atoms, head_args));
        assert(!names.contains(var.name));
    }
    lemma_eval_all_agrees(head_args, env, other, interp);
    assert forall|i: int| 0 <= i < atoms.len() implies semantics::eval_all(
        (#[trigger] atoms[i]).args,
        env,
        interp,
    ) == semantics::eval_all(atoms[i].args, other, interp) by {
        assert forall|var: VarModel| #[trigger]
            terms::occurs_in_any(var, atoms[i].args) implies env(var) == other(var) by {
            assert(rewrite::occurs_in_arguments(var, atoms, head_args));
            assert(!names.contains(var.name));
        }
        lemma_eval_all_agrees(atoms[i].args, env, other, interp);
    }
}

proof fn lemma_rewritten_at(
    constraint: ExprModel,
    atoms: Seq<AtomModel>,
    head_args: Seq<ExprModel>,
)
    requires
        rewrite::bridge_free(constraint, atoms, head_args) is Some,
    ensures
        bridge::is_bridge_width(constraint, bridge_width(constraint)),
        rewrite::capture_free(rewritten_names(constraint), constraint, atoms, head_args),
        rewrite::bridge_free(constraint, atoms, head_args) == bridge::image(
            constraint,
            bridge_width(constraint),
            rewritten_names(constraint),
        ),
        named_as_integers(rewritten_names(constraint), constraint),
{
    assert forall|var: VarModel| #[trigger] terms::occurs(var, constraint) && rewritten_names(
        constraint,
    ).contains(var.name) implies var.sort is Int by {}
}

/// Every solution of a bridged constraint, its integers stored as patterns, is a
/// solution of the rewritten constraint, and the clause arguments keep their
/// values.
pub proof fn law_rewriting_keeps_solutions(
    constraint: ExprModel,
    atoms: Seq<AtomModel>,
    head_args: Seq<ExprModel>,
    env: Env,
    interp: Interpretation,
)
    requires
        rewrite::bridge_free(constraint, atoms, head_args) is Some,
        semantics::well_sorted(constraint),
        semantics::term_sort(constraint) == Some(SortModel::Bool),
        semantics::env_fits(env),
        terms::truth_of(constraint, env, interp),
    ensures
        ({
            let image = encoded(env, rewritten_names(constraint), bridge_width(constraint));
            &&& semantics::env_fits(image)
            &&& terms::truth_of(
                rewrite::bridge_free(constraint, atoms, head_args)->0,
                image,
                interp,
            )
            &&& same_arguments(env, image, atoms, head_args, interp)
        }),
{
    let width = bridge_width(constraint);
    let names = rewritten_names(constraint);
    let image = encoded(env, names, width);
    lemma_rewritten_at(constraint, atoms, head_args);
    assert forall|var: VarModel| semantics::has_sort(#[trigger] image(var), var.sort) by {
        assert(semantics::has_sort(env(var), var.sort));
        semantics::lemma_residue_fits(
            semantics::integer(env(VarModel { name: var.name, sort: SortModel::Int })),
            width,
        );
    }
    assert forall|name: Seq<char>| #[trigger] names.contains(name) implies {
        let number = env(VarModel { name, sort: SortModel::Int });
        &&& number is Int
        &&& bridge::in_window(number->Int_0, width)
        &&& image(VarModel { name, sort: SortModel::BitVec(width) }) == semantics::residue(
            number->Int_0,
            width,
        )
    } by {
        let var = VarModel { name, sort: SortModel::Int };
        assert(semantics::has_sort(env(var), var.sort));
        lemma_admissible_in_window(constraint, name, width, env, interp);
    }
    assert(corresponds(env, image, names, width));
    lemma_image_exact(constraint, width, names, env, image, interp);
    lemma_same_arguments(env, image, names, constraint, atoms, head_args, interp);
}

/// Every solution of the rewritten constraint, its patterns read as integers, is
/// a solution of the bridged constraint, and the clause arguments keep their
/// values.
pub proof fn law_rewriting_adds_no_solutions(
    constraint: ExprModel,
    atoms: Seq<AtomModel>,
    head_args: Seq<ExprModel>,
    env: Env,
    interp: Interpretation,
)
    requires
        rewrite::bridge_free(constraint, atoms, head_args) is Some,
        semantics::well_sorted(constraint),
        semantics::term_sort(constraint) == Some(SortModel::Bool),
        semantics::env_fits(env),
        terms::truth_of(rewrite::bridge_free(constraint, atoms, head_args)->0, env, interp),
    ensures
        ({
            let source = decoded(env, rewritten_names(constraint), bridge_width(constraint));
            &&& semantics::env_fits(source)
            &&& terms::truth_of(constraint, source, interp)
            &&& same_arguments(env, source, atoms, head_args, interp)
        }),
{
    let width = bridge_width(constraint);
    let names = rewritten_names(constraint);
    let source = decoded(env, names, width);
    lemma_rewritten_at(constraint, atoms, head_args);
    assert forall|var: VarModel| semantics::has_sort(#[trigger] source(var), var.sort) by {
        assert(semantics::has_sort(env(var), var.sort));
    }
    assert forall|name: Seq<char>| #[trigger] names.contains(name) implies {
        let number = source(VarModel { name, sort: SortModel::Int });
        &&& number is Int
        &&& bridge::in_window(number->Int_0, width)
        &&& env(VarModel { name, sort: SortModel::BitVec(width) }) == semantics::residue(
            number->Int_0,
            width,
        )
    } by {
        let var = VarModel { name, sort: SortModel::BitVec(width) };
        assert(semantics::has_sort(env(var), var.sort));
        lemma_pattern_round_trip(semantics::pattern(env(var)), width);
    }
    assert(corresponds(source, env, names, width));
    lemma_image_exact(constraint, width, names, source, env, interp);
    lemma_same_arguments(env, source, names, constraint, atoms, head_args, interp);
}

} // verus!
