//! Elimination of signed integer bridges.
//!
//! A constraint that mixes integers with bit-vectors through `Int2Bv` and the
//! two's-complement decode of `Bv2Nat` is rewritten into one over bit-vectors
//! alone, where every integer variable it reaches is known to lie in the signed
//! window of the bridge width. Any other constraint is left as it is.
use std::sync::Arc;

use vstd::arithmetic::power2;
use vstd::prelude::*;

use crate::chc;
use crate::chc::{ChcExpr, ChcOp, ChcSort, ExprModel, SortModel, VarModel};
use crate::semantics;
use crate::shared::{same_allocation, share};

verus! {

/// Widest bridge that is rewritten: both ends of its signed window and two to
/// its width fit the integer literals.
pub const MAX_BRIDGE_WIDTH: u32 = 126;

/// Whether the bridge from integers to bit-vectors `width` bits wide occurs.
pub open spec fn has_bridge_width(expr: ExprModel, width: u32) -> bool
    decreases expr,
{
    match expr {
        ExprModel::Op(op, args) => op == ChcOp::Int2Bv(width) || any_has_bridge_width(args, width),
        ExprModel::PredicateApp(_, _, args) => any_has_bridge_width(args, width),
        ExprModel::FuncApp(_, _, args) => any_has_bridge_width(args, width),
        ExprModel::ConstArray(_, value) => has_bridge_width(*value, width),
        _ => false,
    }
}

/// Whether that bridge occurs in one of several terms.
pub open spec fn any_has_bridge_width(exprs: Seq<ExprModel>, width: u32) -> bool
    decreases exprs,
{
    exists|i: int| 0 <= i < exprs.len() && has_bridge_width(#[trigger] exprs[i], width)
}

/// Whether `width` is the only bridge width that occurs, and not too wide.
pub open spec fn is_bridge_width(expr: ExprModel, width: u32) -> bool {
    &&& has_bridge_width(expr, width)
    &&& forall|other: u32| #[trigger] has_bridge_width(expr, other) ==> other == width
    &&& 1 <= width <= MAX_BRIDGE_WIDTH
}

/// Whether an integer lies in the signed window of a width.
pub open spec fn in_window(number: int, width: u32) -> bool {
    -power2::pow2((width - 1) as nat) <= number < power2::pow2((width - 1) as nat)
}

/// The integer variable of the given name.
pub open spec fn int_var(name: Seq<char>) -> ExprModel {
    ExprModel::Var(VarModel { name, sort: SortModel::Int })
}

/// The bit-vector variable that stands for an integer variable.
pub open spec fn image_var(name: Seq<char>, width: u32) -> ExprModel {
    ExprModel::Var(VarModel { name, sort: SortModel::BitVec(width) })
}

/// The two's-complement pattern of an integer.
pub open spec fn pattern_literal(number: int, width: u32) -> ExprModel {
    ExprModel::BitVec((number % (power2::pow2(width as nat) as int)) as nat, width)
}

pub open spec fn one_bit() -> ExprModel {
    ExprModel::BitVec(1, 1)
}

/// An equality, its first operand written second unless `in_order`.
pub open spec fn equation(left: ExprModel, right: ExprModel, in_order: bool) -> ExprModel {
    if in_order {
        chc::binary(ChcOp::Eq, left, right)
    } else {
        chc::binary(ChcOp::Eq, right, left)
    }
}

/// The test that the sign bit of `bits` is set.
pub open spec fn sign_test(bits: ExprModel, width: u32, literal_first: bool) -> ExprModel {
    let top = (width - 1) as u32;
    equation(one_bit(), chc::unary(ChcOp::BvExtract(top, top), bits), literal_first)
}

/// The unsigned decode of `bits`.
pub open spec fn unsigned_decode(bits: ExprModel) -> ExprModel {
    chc::unary(ChcOp::Bv2Nat, bits)
}

/// The decode of `bits` less two to the width.
pub open spec fn wrapped_decode(bits: ExprModel, width: u32) -> ExprModel {
    chc::binary(
        ChcOp::Sub,
        unsigned_decode(bits),
        ExprModel::Int(power2::pow2(width as nat) as int),
    )
}

/// The signed decode of `bits`, as an integer term.
pub open spec fn decode_term(bits: ExprModel, width: u32, literal_first: bool) -> ExprModel {
    ExprModel::Op(
        ChcOp::Ite,
        seq![
            sign_test(bits, width, literal_first),
            wrapped_decode(bits, width),
            unsigned_decode(bits),
        ],
    )
}

/// The decode of `bits`, less two to the width where `wrapped`.
pub open spec fn branch_decode(bits: ExprModel, width: u32, wrapped: bool) -> ExprModel {
    if wrapped {
        wrapped_decode(bits, width)
    } else {
        unsigned_decode(bits)
    }
}

/// How the equalities of a signed decode are written.
#[derive(Debug, Clone, Copy, PartialEq, Eq, Structural)]
pub struct DecodeOrder {
    /// Whether the one-bit literal comes first in the sign test.
    pub cond_literal_first: bool,
    /// Whether the variable comes first in the branch of a set sign bit.
    pub then_var_first: bool,
    /// Whether the variable comes first in the branch of a clear sign bit.
    pub else_var_first: bool,
}

/// The formula that pins the integer variable `name` to the signed decode of
/// `bits`.
pub open spec fn signed_decode(
    bits: ExprModel,
    name: Seq<char>,
    width: u32,
    order: DecodeOrder,
) -> ExprModel {
    ExprModel::Op(
        ChcOp::Ite,
        seq![
            sign_test(bits, width, order.cond_literal_first),
            equation(int_var(name), wrapped_decode(bits, width), order.then_var_first),
            equation(int_var(name), unsigned_decode(bits), order.else_var_first),
        ],
    )
}

/// The bit-vector formula that a [`signed_decode`] becomes.
pub open spec fn decode_image(
    bits: ExprModel,
    name: Seq<char>,
    width: u32,
    order: DecodeOrder,
) -> ExprModel {
    ExprModel::Op(
        ChcOp::Ite,
        seq![
            sign_test(bits, width, order.cond_literal_first),
            equation(image_var(name, width), bits, order.then_var_first),
            equation(image_var(name, width), bits, order.else_var_first),
        ],
    )
}

/// The operand of the sign test in the condition of a conditional.
pub open spec fn tested_bits(expr: ExprModel) -> ExprModel {
    let sides = expr->Op_1[0]->Op_1;
    let extract = if sides[0] == one_bit() {
        sides[1]
    } else {
        sides[0]
    };
    extract->Op_1[0]
}

/// Whether the condition of a conditional tests the sign bit of a bit-vector of
/// the given width.
pub open spec fn tests_sign(expr: ExprModel, width: u32) -> bool {
    &&& expr matches ExprModel::Op(ChcOp::Ite, args)
    &&& args.len() == 3
    &&& exists|first: bool| args[0] == #[trigger] sign_test(tested_bits(expr), width, first)
    &&& semantics::term_sort(tested_bits(expr)) == Some(SortModel::BitVec(width))
}

/// Whether a term is a signed decode term.
pub open spec fn is_decode_term(expr: ExprModel, width: u32) -> bool {
    &&& tests_sign(expr, width)
    &&& exists|first: bool| expr == #[trigger] decode_term(tested_bits(expr), width, first)
}

/// Whether a formula pins `name` to a signed decode, written in the given order.
pub open spec fn is_signed_decode(
    expr: ExprModel,
    width: u32,
    name: Seq<char>,
    order: DecodeOrder,
) -> bool {
    &&& tests_sign(expr, width)
    &&& expr == signed_decode(tested_bits(expr), name, width, order)
}

/// Whether an asserted fact defines `name` as a signed decode.
pub open spec fn defines_decoded(fact: ExprModel, width: u32, name: Seq<char>) -> bool {
    ||| exists|order: DecodeOrder| is_signed_decode(fact, width, name, order)
    ||| equates_decode_term(fact, width, name)
}

/// Whether a fact sets the integer variable `name` equal to a signed decode term.
pub open spec fn equates_decode_term(fact: ExprModel, width: u32, name: Seq<char>) -> bool {
    exists|term: ExprModel, in_order: bool|
        is_decode_term(term, width) && fact == #[trigger] equation(int_var(name), term, in_order)
}

/// The literal that a fact compares the integer variable `name` with, and
/// whether the variable stands first.
pub open spec fn compared_literal(fact: ExprModel, name: Seq<char>) -> Option<(int, bool)> {
    match fact {
        ExprModel::Op(_, args) if args.len() == 2 => match (args[0], args[1]) {
            (left, ExprModel::Int(literal)) if left == int_var(name) => Some((literal, true)),
            (ExprModel::Int(literal), right) if right == int_var(name) => Some((literal, false)),
            _ => None,
        },
        _ => None,
    }
}

/// The lower bound that a fact puts on the integer variable `name`, as far as
/// the integer literals can say it.
pub open spec fn lower_bound(fact: ExprModel, name: Seq<char>) -> Option<int> {
    match compared_literal(fact, name) {
        None => None,
        Some((literal, var_first)) => {
            let op = fact->Op_0;
            if op is Eq || (op is Le && !var_first) || (op is Ge && var_first) {
                Some(literal)
            } else if ((op is Lt && !var_first) || (op is Gt && var_first)) && literal < i128::MAX {
                Some(literal + 1)
            } else {
                None
            }
        },
    }
}

/// The upper bound that a fact puts on the integer variable `name`, as far as
/// the integer literals can say it.
pub open spec fn upper_bound(fact: ExprModel, name: Seq<char>) -> Option<int> {
    match compared_literal(fact, name) {
        None => None,
        Some((literal, var_first)) => {
            let op = fact->Op_0;
            if op is Eq || (op is Le && var_first) || (op is Ge && !var_first) {
                Some(literal)
            } else if ((op is Lt && var_first) || (op is Gt && !var_first)) && literal > i128::MIN {
                Some(literal - 1)
            } else {
                None
            }
        },
    }
}

/// Whether a fact bounds `name` from below within the window.
pub open spec fn bounded_below(facts: Seq<ExprModel>, name: Seq<char>, width: u32) -> bool {
    exists|i: int|
        0 <= i < facts.len() && (lower_bound(#[trigger] facts[i], name) matches Some(bound)
            && -power2::pow2((width - 1) as nat) <= bound)
}

/// Whether a fact bounds `name` from above within the window.
pub open spec fn bounded_above(facts: Seq<ExprModel>, name: Seq<char>, width: u32) -> bool {
    exists|i: int|
        0 <= i < facts.len() && (upper_bound(#[trigger] facts[i], name) matches Some(bound)
            && bound < power2::pow2((width - 1) as nat))
}

/// The integer variables that asserted facts keep in the signed window.
pub open spec fn admissible(facts: Seq<ExprModel>, width: u32) -> Set<Seq<char>> {
    Set::new(
        |name: Seq<char>|
            {
                ||| exists|i: int|
                    0 <= i < facts.len() && defines_decoded(#[trigger] facts[i], width, name)
                ||| bounded_below(facts, name, width) && bounded_above(facts, name, width)
            },
    )
}

/// Whether an operator computes a bit-vector from bit-vectors.
pub open spec fn is_bv_value(op: ChcOp) -> bool {
    semantics::is_bv_binary(op) || semantics::is_bv_unary(op) || op is BvComp || op is BvConcat
        || op is BvExtract || op is BvZeroExtend || op is BvSignExtend || op is BvRepeat
}

/// The signed bit-vector relation for an integer comparison.
pub open spec fn signed_relation(op: ChcOp) -> ChcOp {
    match op {
        ChcOp::Lt => ChcOp::BvSLt,
        ChcOp::Le => ChcOp::BvSLe,
        ChcOp::Gt => ChcOp::BvSGt,
        _ => ChcOp::BvSGe,
    }
}

/// Whether equality at this sort is kept by the rewriting.
pub open spec fn is_plain_sort(sort: Option<SortModel>) -> bool {
    sort matches Some(own) && (own is Bool || own is Int || own is BitVec)
}

/// The bit-vector image of a term: integer subterms become bit-vectors of the
/// bridge width, everything else keeps its sort. `None` outside the fragment.
pub open spec fn image(expr: ExprModel, width: u32, names: Set<Seq<char>>) -> Option<ExprModel>
    decreases expr,
{
    match expr {
        ExprModel::Bool(_) => Some(expr),
        ExprModel::BitVec(_, _) => Some(expr),
        ExprModel::Int(number) => if in_window(number, width) {
            Some(pattern_literal(number, width))
        } else {
            None
        },
        ExprModel::Var(var) => match var.sort {
            SortModel::Bool => Some(expr),
            SortModel::BitVec(_) => Some(expr),
            SortModel::Int => if names.contains(var.name) {
                Some(image_var(var.name, width))
            } else {
                None
            },
            _ => None,
        },
        ExprModel::Op(op, args) => {
            if op is Ite && tests_sign(expr, width) && exists|name: Seq<char>, order: DecodeOrder|
                names.contains(name) && is_signed_decode(expr, width, name, order) {
                let (name, order) = choose|name: Seq<char>, order: DecodeOrder|
                    names.contains(name) && is_signed_decode(expr, width, name, order);
                match image(tested_bits(expr), width, names) {
                    Some(bits) => Some(decode_image(bits, name, width, order)),
                    None => None,
                }
            } else if op is Ite && is_decode_term(expr, width) {
                image(tested_bits(expr), width, names)
            } else if op is Int2Bv {
                if op->Int2Bv_0 == width && args.len() == 1 {
                    match args[0] {
                        ExprModel::Int(number) => Some(pattern_literal(number, width)),
                        ExprModel::Var(var) => if var.sort is Int && names.contains(var.name) {
                            Some(image_var(var.name, width))
                        } else {
                            None
                        },
                        _ => None,
                    }
                } else {
                    None
                }
            } else {
                match image_op(op, args) {
                    Some(image_op) => match image_all(args, width, names) {
                        Some(images) => Some(ExprModel::Op(image_op, images)),
                        None => None,
                    },
                    None => None,
                }
            }
        },
        _ => None,
    }
}

/// The operator that the image of an application carries, where its operands
/// are imaged one by one; `None` where the application is outside the fragment.
pub open spec fn image_op(op: ChcOp, args: Seq<ExprModel>) -> Option<ChcOp> {
    let keeps = if op is Ite {
        args.len() == 3
    } else if op is Not || op is And || op is Or || op is Implies || op is Iff || is_bv_value(op) {
        args.len() > 0
    } else if op is Eq || op is Ne {
        &&& args.len() == 2
        &&& semantics::term_sort(args[0]) == semantics::term_sort(args[1])
        &&& is_plain_sort(semantics::term_sort(args[0]))
    } else {
        semantics::is_bv_relation(op) && args.len() == 2
    };
    if keeps {
        Some(op)
    } else if (op is Lt || op is Le || op is Gt || op is Ge) && args.len() == 2
        && semantics::all_of_sort(args, SortModel::Int) {
        Some(signed_relation(op))
    } else {
        None
    }
}

/// The images of several terms, where all of them have one.
pub open spec fn image_all(
    exprs: Seq<ExprModel>,
    width: u32,
    names: Set<Seq<char>>,
) -> Option<Seq<ExprModel>>
    decreases exprs,
{
    if forall|i: int| 0 <= i < exprs.len() ==> image(#[trigger] exprs[i], width, names) is Some {
        Some(
            Seq::new(
                exprs.len(),
                |i: int|
                    if 0 <= i < exprs.len() {
                        image(exprs[i], width, names)->0
                    } else {
                        arbitrary()
                    },
            ),
        )
    } else {
        None
    }
}

/// The single operand of an application of `op`, if the term is one.
pub(crate) fn operand_of(expr: &ChcExpr, op: ChcOp) -> (inner: Option<Arc<ChcExpr>>)
    ensures
        match inner {
            Some(inner) => expr@ == chc::unary(op, inner@) && decreases_to!(*expr => *inner),
            None => forall|inner: ExprModel| expr@ != #[trigger] chc::unary(op, inner),
        },
{
    if let ChcExpr::Op(own, args) = expr {
        if *own == op && args.len() == 1 {
            proof {
                chc::lemma_model_of_one(args@);
                assert(decreases_to!(*expr => args@));
            }
            return Some(share(&args[0]));
        }
        assert forall|inner: ExprModel| expr@ != #[trigger] chc::unary(op, inner) by {
            if expr@ == chc::unary(op, inner) {
                assert(chc::terms_model(args@).len() == 1);
            }
        }
    }
    None
}

/// The two operands of an application of `op`, if the term is one.
pub(crate) fn operands_of(expr: &ChcExpr, op: ChcOp) -> (sides: Option<(Arc<ChcExpr>, Arc<ChcExpr>)>)
    ensures
        match sides {
            Some((left, right)) => expr@ == chc::binary(op, left@, right@) && decreases_to!(*expr => *left)
                && decreases_to!(*expr => *right),
            None => forall|left: ExprModel, right: ExprModel|
                expr@ != #[trigger] chc::binary(op, left, right),
        },
{
    if let ChcExpr::Op(own, args) = expr {
        if *own == op && args.len() == 2 {
            proof {
                chc::lemma_model_of_two(args@);
                assert(decreases_to!(*expr => args@));
            }
            return Some((share(&args[0]), share(&args[1])));
        }
        assert forall|left: ExprModel, right: ExprModel| expr@ != #[trigger] chc::binary(
            op,
            left,
            right,
        ) by {
            if expr@ == chc::binary(op, left, right) {
                assert(chc::terms_model(args@).len() == 2);
            }
        }
    }
    None
}

fn is_one_bit(expr: &ChcExpr) -> (yes: bool)
    ensures
        yes == (expr@ == one_bit()),
{
    match expr {
        ChcExpr::BitVec(pattern, width) => *pattern == 1 && *width == 1,
        _ => false,
    }
}

fn is_bitvec_sort(sort: &Option<ChcSort>, width: u32) -> (yes: bool)
    ensures
        yes == (semantics::option_sort_model(*sort) == Some(SortModel::BitVec(width))),
{
    match sort {
        Some(ChcSort::BitVec(own)) => *own == width,
        _ => false,
    }
}

pub(crate) fn is_int_sort(sort: &Option<ChcSort>) -> (yes: bool)
    ensures
        yes == (semantics::option_sort_model(*sort) == Some(SortModel::Int)),
{
    match sort {
        Some(ChcSort::Int) => true,
        _ => false,
    }
}

/// The bit-vector whose sign bit a condition tests, and whether the one-bit
/// literal comes first.
fn match_sign_bit_test(cond: &ChcExpr, width: u32) -> (found: Option<(Arc<ChcExpr>, bool)>)
    requires
        width >= 1,
    ensures
        match found {
            Some((bits, first)) => {
                &&& cond@ == sign_test(bits@, width, first)
                &&& semantics::term_sort(bits@) == Some(SortModel::BitVec(width))
                &&& decreases_to!(*cond => *bits)
            },
            None => forall|bits: ExprModel, first: bool| #[trigger]
                sign_test(bits, width, first) == cond@ ==> semantics::term_sort(bits) != Some(
                    SortModel::BitVec(width),
                ),
        },
{
    let top: u32 = width - 1;
    match operands_of(cond, ChcOp::Eq) {
        Some((left, right)) => {
            let first = is_one_bit(&left);
            let extract = if first {
                share(&right)
            } else {
                share(&left)
            };
            proof {
                assert forall|bits: ExprModel, other: bool| #[trigger]
                    sign_test(bits, width, other) == cond@ implies (first || right@ == one_bit())
                    && extract@ == chc::unary(ChcOp::BvExtract(top, top), bits) by {
                    let test = chc::unary(ChcOp::BvExtract(top, top), bits);
                    let sides = cond@->Op_1;
                    assert(sides[0] == left@ && sides[1] == right@);
                    assert(equation(one_bit(), test, true)->Op_1[0] == one_bit());
                    assert(equation(one_bit(), test, true)->Op_1[1] == test);
                    assert(equation(one_bit(), test, false)->Op_1[0] == test);
                    assert(equation(one_bit(), test, false)->Op_1[1] == one_bit());
                }
            }
            if !first && !is_one_bit(&right) {
                return None;
            }
            match operand_of(&extract, ChcOp::BvExtract(top, top)) {
                Some(bits) => {
                    assert forall|other: ExprModel| extract@ == #[trigger] chc::unary(
                        ChcOp::BvExtract(top, top),
                        other,
                    ) implies other == bits@ by {
                        assert(extract@->Op_1[0] == bits@);
                    }
                    if is_bitvec_sort(&bits.sort(), width) {
                        Some((bits, first))
                    } else {
                        None
                    }
                },
                None => None,
            }
        },
        None => {
            assert forall|bits: ExprModel, first: bool| #[trigger]
                sign_test(bits, width, first) != cond@ by {
                let test = chc::unary(ChcOp::BvExtract(top, top), bits);
                assert(cond@ != chc::binary(ChcOp::Eq, one_bit(), test));
                assert(cond@ != chc::binary(ChcOp::Eq, test, one_bit()));
            }
            None
        },
    }
}

/// Whether two shared terms are structurally equal.
fn same_shared(left: &Arc<ChcExpr>, right: &Arc<ChcExpr>) -> (equal: bool)
    ensures
        equal == (left@ == right@),
{
    same_allocation(left, right) || left.same(right)
}

/// Whether a term is the unsigned decode of `bits`.
fn is_bv2nat_of(candidate: &ChcExpr, bits: &Arc<ChcExpr>) -> (yes: bool)
    ensures
        yes == (candidate@ == unsigned_decode(bits@)),
{
    match operand_of(candidate, ChcOp::Bv2Nat) {
        Some(inner) => {
            assert(unsigned_decode(bits@)->Op_1[0] == bits@);
            assert(unsigned_decode(inner@)->Op_1[0] == inner@);
            same_shared(&inner, bits)
        },
        None => false,
    }
}

/// Two to the given power.
pub(crate) fn power_of_two(exponent: u32) -> (power: i128)
    requires
        exponent <= MAX_BRIDGE_WIDTH,
    ensures
        power == power2::pow2(exponent as nat),
{
    let mut power: i128 = 1;
    proof {
        power2::lemma2_to64();
    }
    for i in 0..exponent
        invariant
            exponent <= MAX_BRIDGE_WIDTH,
            power == power2::pow2(i as nat),
    {
        proof {
            power2::lemma_pow2_unfold((i + 1) as nat);
            lemma_pow2_bounded((i + 1) as nat);
        }
        power = power * 2;
    }
    power
}

proof fn lemma_pow2_bounded(exponent: nat)
    requires
        exponent <= MAX_BRIDGE_WIDTH,
    ensures
        power2::pow2(exponent) <= 0x4000_0000_0000_0000_0000_0000_0000_0000,
{
    power2::lemma2_to64();
    power2::lemma2_to64_rest();
    power2::lemma_pow2_adds(62, 64);
    if exponent < 126 {
        power2::lemma_pow2_strictly_increases(exponent, 126);
    }
}

/// Whether a term is the decode of `bits` less two to the width.
fn is_decode_minus_wrap(candidate: &ChcExpr, bits: &Arc<ChcExpr>, width: u32) -> (yes: bool)
    requires
        width <= MAX_BRIDGE_WIDTH,
    ensures
        yes == (candidate@ == wrapped_decode(bits@, width)),
{
    match operands_of(candidate, ChcOp::Sub) {
        Some((minuend, subtrahend)) => {
            proof {
                let args = wrapped_decode(bits@, width)->Op_1;
                assert(args[0] == unsigned_decode(bits@));
                assert(args[1] == ExprModel::Int(power2::pow2(width as nat) as int));
                let own = chc::binary(ChcOp::Sub, minuend@, subtrahend@)->Op_1;
                assert(own[0] == minuend@ && own[1] == subtrahend@);
            }
            let wrap: i128 = power_of_two(width);
            let is_wrap = match &*subtrahend {
                ChcExpr::Int(literal) => *literal == wrap,
                _ => false,
            };
            is_bv2nat_of(&minuend, bits) && is_wrap
        },
        None => false,
    }
}

/// The name of an integer variable.
fn int_var_name(candidate: &ChcExpr) -> (name: Option<String>)
    ensures
        match name {
            Some(name) => candidate@ == int_var(name@),
            None => forall|name: Seq<char>| candidate@ != #[trigger] int_var(name),
        },
{
    if let ChcExpr::Var(var) = candidate {
        if let ChcSort::Int = &var.sort {
            return Some(var.name.clone());
        }
    }
    None
}

/// A sign test determines the bit-vector it tests and its own operand order.
pub(crate) proof fn lemma_tested_bits(expr: ExprModel, bits: ExprModel, width: u32, first: bool)
    requires
        expr is Op,
        expr->Op_1.len() > 0,
        expr->Op_1[0] == sign_test(bits, width, first),
    ensures
        tested_bits(expr) == bits,
        forall|other: ExprModel, order: bool|
            expr->Op_1[0] == #[trigger] sign_test(other, width, order) ==> other == bits && order
                == first,
{
    let top = (width - 1) as u32;
    assert forall|other: ExprModel, order: bool|
        expr->Op_1[0] == #[trigger] sign_test(other, width, order) implies tested_bits(expr)
        == other && (expr->Op_1[0]->Op_1[0] == one_bit()) == order by {
        let test = chc::unary(ChcOp::BvExtract(top, top), other);
        assert(test->Op_1[0] == other);
        assert(equation(one_bit(), test, true)->Op_1[0] == one_bit());
        assert(equation(one_bit(), test, true)->Op_1[1] == test);
        assert(equation(one_bit(), test, false)->Op_1[0] == test);
    }
    assert(expr->Op_1[0] == sign_test(bits, width, first));
}

/// A conditional on a sign bit.
struct SignConditional {
    bits: Arc<ChcExpr>,
    literal_first: bool,
    then_branch: Arc<ChcExpr>,
    else_branch: Arc<ChcExpr>,
}

/// Reads a conditional on the sign bit of a bit-vector of the given width.
fn match_sign_conditional(expr: &ChcExpr, width: u32) -> (found: Option<SignConditional>)
    requires
        width >= 1,
    ensures
        match found {
            Some(parts) => {
                &&& tests_sign(expr@, width)
                &&& expr@->Op_1 == seq![
                    sign_test(parts.bits@, width, parts.literal_first),
                    parts.then_branch@,
                    parts.else_branch@,
                ]
                &&& parts.bits@ == tested_bits(expr@)
                &&& decreases_to!(*expr => *parts.bits)
            },
            None => !tests_sign(expr@, width),
        },
{
    if let ChcExpr::Op(op, args) = expr {
        assert(chc::terms_model(args@).len() == args@.len());
        if *op == ChcOp::Ite && args.len() == 3 {
            proof {
                chc::lemma_model_of_three(args@);
                assert(decreases_to!(*expr => args@));
            }
            match match_sign_bit_test(&args[0], width) {
                Some((bits, literal_first)) => {
                    proof {
                        lemma_tested_bits(expr@, bits@, width, literal_first);
                    }
                    return Some(
                        SignConditional {
                            bits,
                            literal_first,
                            then_branch: share(&args[1]),
                            else_branch: share(&args[2]),
                        },
                    );
                },
                None => {},
            }
        }
    }
    None
}

/// The bit-vector that a signed decode term decodes.
pub(crate) fn match_signed_decode_term(expr: &ChcExpr, width: u32) -> (found: Option<Arc<ChcExpr>>)
    requires
        1 <= width <= MAX_BRIDGE_WIDTH,
    ensures
        match found {
            Some(bits) => {
                &&& is_decode_term(expr@, width)
                &&& bits@ == tested_bits(expr@)
                &&& decreases_to!(*expr => *bits)
            },
            None => !is_decode_term(expr@, width),
        },
{
    match match_sign_conditional(expr, width) {
        Some(parts) => {
            proof {
                let args = expr@->Op_1;
                assert(args[1] == parts.then_branch@ && args[2] == parts.else_branch@);
                assert forall|first: bool| expr@ == #[trigger] decode_term(
                    parts.bits@,
                    width,
                    first,
                ) implies args[1] == wrapped_decode(parts.bits@, width) && args[2]
                    == unsigned_decode(parts.bits@) by {
                    let own = decode_term(parts.bits@, width, first)->Op_1;
                    assert(own[1] == wrapped_decode(parts.bits@, width));
                    assert(own[2] == unsigned_decode(parts.bits@));
                }
            }
            if is_decode_minus_wrap(&parts.then_branch, &parts.bits, width) && is_bv2nat_of(
                &parts.else_branch,
                &parts.bits,
            ) {
                assert(expr@ == decode_term(parts.bits@, width, parts.literal_first));
                Some(parts.bits)
            } else {
                None
            }
        },
        None => None,
    }
}

/// The integer variable that an equation sets equal to a decode of `bits`, less
/// two to the width where `wrapped`, and whether the variable comes first.
fn match_decode_equation(
    branch: &ChcExpr,
    bits: &Arc<ChcExpr>,
    width: u32,
    wrapped: bool,
) -> (found: Option<(String, bool)>)
    requires
        width <= MAX_BRIDGE_WIDTH,
    ensures
        match found {
            Some((name, first)) => {
                &&& branch@ == equation(int_var(name@), branch_decode(bits@, width, wrapped), first)
                &&& forall|other: Seq<char>, order: bool|
                    branch@ == #[trigger] equation(
                        int_var(other),
                        branch_decode(bits@, width, wrapped),
                        order,
                    ) ==> other == name@ && order == first
            },
            None => forall|name: Seq<char>, first: bool|
                branch@ != #[trigger] equation(
                    int_var(name),
                    branch_decode(bits@, width, wrapped),
                    first,
                ),
        },
{
    let ghost decode = branch_decode(bits@, width, wrapped);
    match operands_of(branch, ChcOp::Eq) {
        Some((left, right)) => {
            proof {
                assert(branch@->Op_1[0] == left@ && branch@->Op_1[1] == right@);
                assert forall|name: Seq<char>, first: bool|
                    branch@ == #[trigger] equation(int_var(name), decode, first) implies if first {
                    left@ == int_var(name) && right@ == decode
                } else {
                    right@ == int_var(name) && left@ == decode
                } by {
                    assert(equation(int_var(name), decode, first)->Op_1[0] == if first {
                        int_var(name)
                    } else {
                        decode
                    });
                    assert(equation(int_var(name), decode, first)->Op_1[1] == if first {
                        decode
                    } else {
                        int_var(name)
                    });
                }
            }
            let right_decodes = if wrapped {
                is_decode_minus_wrap(&right, bits, width)
            } else {
                is_bv2nat_of(&right, bits)
            };
            if right_decodes {
                return match int_var_name(&left) {
                    Some(name) => Some((name, true)),
                    None => None,
                };
            }
            let left_decodes = if wrapped {
                is_decode_minus_wrap(&left, bits, width)
            } else {
                is_bv2nat_of(&left, bits)
            };
            if left_decodes {
                return match int_var_name(&right) {
                    Some(name) => Some((name, false)),
                    None => None,
                };
            }
            None
        },
        None => {
            assert forall|name: Seq<char>, first: bool| branch@ != #[trigger] equation(
                int_var(name),
                decode,
                first,
            ) by {
                assert(branch@ != chc::binary(ChcOp::Eq, int_var(name), decode));
                assert(branch@ != chc::binary(ChcOp::Eq, decode, int_var(name)));
            }
            None
        },
    }
}

/// The pieces of a formula that pins an integer variable to a signed decode.
pub(crate) struct SignedDecodeParts {
    pub bv_term: Arc<ChcExpr>,
    pub var_name: String,
    pub order: DecodeOrder,
}

/// Reads a formula that pins an integer variable to a signed decode.
pub(crate) fn match_signed_decode(expr: &ChcExpr, width: u32) -> (found: Option<SignedDecodeParts>)
    requires
        1 <= width <= MAX_BRIDGE_WIDTH,
    ensures
        match found {
            Some(parts) => {
                &&& is_signed_decode(expr@, width, parts.var_name@, parts.order)
                &&& forall|name: Seq<char>, order: DecodeOrder| #[trigger]
                    is_signed_decode(expr@, width, name, order) ==> name == parts.var_name@ && order
                        == parts.order
                &&& parts.bv_term@ == tested_bits(expr@)
                &&& decreases_to!(*expr => *parts.bv_term)
            },
            None => forall|name: Seq<char>, order: DecodeOrder|
                !#[trigger] is_signed_decode(expr@, width, name, order),
        },
{
    match match_sign_conditional(expr, width) {
        Some(parts) => {
            proof {
                let args = expr@->Op_1;
                assert(args[0] == sign_test(parts.bits@, width, parts.literal_first));
                assert(args[1] == parts.then_branch@ && args[2] == parts.else_branch@);
                assert forall|name: Seq<char>, order: DecodeOrder| #[trigger]
                    is_signed_decode(expr@, width, name, order) implies order.cond_literal_first
                    == parts.literal_first && args[1] == equation(
                    int_var(name),
                    wrapped_decode(parts.bits@, width),
                    order.then_var_first,
                ) && args[2] == equation(
                    int_var(name),
                    unsigned_decode(parts.bits@),
                    order.else_var_first,
                ) by {
                    let own = signed_decode(parts.bits@, name, width, order)->Op_1;
                    assert(own[0] == sign_test(parts.bits@, width, order.cond_literal_first));
                    assert(own[1] == equation(
                        int_var(name),
                        wrapped_decode(parts.bits@, width),
                        order.then_var_first,
                    ));
                    assert(own[2] == equation(
                        int_var(name),
                        unsigned_decode(parts.bits@),
                        order.else_var_first,
                    ));
                    lemma_tested_bits(expr@, parts.bits@, width, parts.literal_first);
                }
            }
            match (
                match_decode_equation(&parts.then_branch, &parts.bits, width, true),
                match_decode_equation(&parts.else_branch, &parts.bits, width, false),
            ) {
                (Some((name, then_var_first)), Some((else_name, else_var_first))) => {
                    if else_name == name {
                        let order = DecodeOrder {
                            cond_literal_first: parts.literal_first,
                            then_var_first,
                            else_var_first,
                        };
                        assert(expr@ == signed_decode(parts.bits@, name@, width, order));
                        assert forall|other: Seq<char>, own: DecodeOrder| #[trigger]
                            is_signed_decode(expr@, width, other, own) implies other == name@ && own
                            == order by {}
                        Some(SignedDecodeParts { bv_term: parts.bits, var_name: name, order })
                    } else {
                        None
                    }
                },
                _ => None,
            }
        },
        None => None,
    }
}

/// The integer variable that an asserted fact sets equal to a signed decode term.
fn signed_decode_definition_var(conjunct: &ChcExpr, width: u32) -> (found: Option<String>)
    requires
        1 <= width <= MAX_BRIDGE_WIDTH,
    ensures
        forall|name: Seq<char>|
            #[trigger] equates_decode_term(conjunct@, width, name) <==> (found matches Some(own)
                && own@ == name),
{
    match operands_of(conjunct, ChcOp::Eq) {
        Some((left, right)) => {
            proof {
                assert(conjunct@->Op_1[0] == left@ && conjunct@->Op_1[1] == right@);
                assert forall|name: Seq<char>, term: ExprModel, first: bool|
                    conjunct@ == #[trigger] equation(int_var(name), term, first) implies if first {
                    left@ == int_var(name) && right@ == term
                } else {
                    right@ == int_var(name) && left@ == term
                } by {
                    let own = equation(int_var(name), term, first)->Op_1;
                    assert(own[0] == if first {
                        int_var(name)
                    } else {
                        term
                    });
                    assert(own[1] == if first {
                        term
                    } else {
                        int_var(name)
                    });
                }
            }
            if match_signed_decode_term(&right, width).is_some() {
                let found = int_var_name(&left);
                assert(found matches Some(own) ==> conjunct@ == equation(
                    int_var(own@),
                    right@,
                    true,
                ));
                return found;
            }
            if match_signed_decode_term(&left, width).is_some() {
                let found = int_var_name(&right);
                assert(found matches Some(own) ==> conjunct@ == equation(
                    int_var(own@),
                    left@,
                    false,
                ));
                return found;
            }
            None
        },
        None => {
            assert forall|name: Seq<char>, term: ExprModel, first: bool| conjunct@
                != #[trigger] equation(int_var(name), term, first) by {
                assert(conjunct@ != chc::binary(ChcOp::Eq, int_var(name), term));
                assert(conjunct@ != chc::binary(ChcOp::Eq, term, int_var(name)));
            }
            None
        },
    }
}

/// Adds every bridge width that occurs in a term.
fn collect_bridge_widths(expr: &ChcExpr, widths: &mut Vec<u32>)
    ensures
        forall|width: u32| #[trigger]
            final(widths)@.contains(width) <==> old(widths)@.contains(width) || has_bridge_width(
                expr@,
                width,
            ),
    decreases *expr, 1int,
{
    if let ChcExpr::Op(ChcOp::Int2Bv(width), _) = expr {
        widths.push(*width);
        assert forall|other: u32| #[trigger] widths@.contains(other) <==> old(widths)@.contains(
            other,
        ) || other == width by {
            if other == width {
                assert(widths@.last() == other);
            } else if old(widths)@.contains(other) {
                let i = choose|i: int| 0 <= i < old(widths)@.len() && old(widths)@[i] == other;
                assert(widths@[i] == other);
            } else if widths@.contains(other) {
                let i = choose|i: int| 0 <= i < widths@.len() && widths@[i] == other;
                assert(old(widths)@[i] == other);
            }
        }
    }
    let ghost own = widths@;
    match expr {
        ChcExpr::Op(op, args) => {
            collect_bridge_widths_of_all(args, widths);
            assert forall|width: u32| #[trigger] widths@.contains(width) <==> old(widths)@.contains(
                width,
            ) || has_bridge_width(expr@, width) by {
                assert(own.contains(width) <==> old(widths)@.contains(width) || *op
                    == ChcOp::Int2Bv(width));
            }
        },
        ChcExpr::PredicateApp(_, _, args) => {
            collect_bridge_widths_of_all(args, widths);
        },
        ChcExpr::FuncApp(_, _, args) => {
            collect_bridge_widths_of_all(args, widths);
        },
        ChcExpr::ConstArray(_, value) => {
            collect_bridge_widths(value, widths);
        },
        _ => {},
    }
}

fn collect_bridge_widths_of_all(exprs: &Vec<Arc<ChcExpr>>, widths: &mut Vec<u32>)
    ensures
        forall|width: u32| #[trigger]
            final(widths)@.contains(width) <==> old(widths)@.contains(width)
                || any_has_bridge_width(chc::terms_model(exprs@), width),
    decreases *exprs, 0int,
{
    let ghost models = chc::terms_model(exprs@);
    for i in 0..exprs.len()
        invariant
            models == chc::terms_model(exprs@),
            decreases_to!(*exprs => exprs@),
            forall|width: u32| #[trigger]
                widths@.contains(width) <==> old(widths)@.contains(width) || exists|j: int|
                    0 <= j < i && has_bridge_width(#[trigger] models[j], width),
    {
        assert(models[i as int] == exprs@[i as int]@);
        let ghost before = widths@;
        collect_bridge_widths(&exprs[i], widths);
        assert forall|width: u32| #[trigger] widths@.contains(width) <==> old(widths)@.contains(
            width,
        ) || exists|j: int| 0 <= j < i + 1 && has_bridge_width(#[trigger] models[j], width) by {
            assert(widths@.contains(width) <==> before.contains(width) || has_bridge_width(
                models[i as int],
                width,
            ));
        }
    }
}

/// The bridge width that a constraint is rewritten at.
pub(crate) fn single_bridge_width(expr: &ChcExpr) -> (found: Option<u32>)
    ensures
        match found {
            Some(width) => is_bridge_width(expr@, width),
            None => forall|width: u32| !#[trigger] is_bridge_width(expr@, width),
        },
{
    let mut widths: Vec<u32> = Vec::new();
    collect_bridge_widths(expr, &mut widths);
    if widths.len() == 0 {
        assert forall|width: u32| !#[trigger] is_bridge_width(expr@, width) by {
            assert(!widths@.contains(width));
        }
        return None;
    }
    let width: u32 = widths[0];
    assert(widths@.contains(width));
    if width < 1 || width > MAX_BRIDGE_WIDTH {
        assert forall|other: u32| !#[trigger] is_bridge_width(expr@, other) by {
            assert(has_bridge_width(expr@, width));
        }
        return None;
    }
    for i in 1..widths.len()
        invariant
            widths@.len() > 0,
            width == widths@[0],
            has_bridge_width(expr@, width),
            forall|other: u32| #[trigger]
                widths@.contains(other) <==> has_bridge_width(expr@, other),
            forall|j: int| 0 <= j < i ==> #[trigger] widths@[j] == width,
    {
        if widths[i] != width {
            let ghost mixed = widths@[i as int];
            assert(widths@.contains(mixed));
            assert forall|other: u32| !#[trigger] is_bridge_width(expr@, other) by {
                assert(has_bridge_width(expr@, mixed));
            }
            return None;
        }
    }
    assert forall|other: u32| #[trigger] has_bridge_width(expr@, other) implies other == width by {
        assert(widths@.contains(other));
    }
    Some(width)
}

/// The bounds that facts put on one integer variable.
#[derive(Debug, PartialEq, Eq)]
pub struct VarBounds {
    pub name: String,
    pub lo: Option<i128>,
    pub hi: Option<i128>,
}

/// The bounds recorded for a name, none where it is not listed.
pub open spec fn recorded_bounds(bounds: Seq<VarBounds>, name: Seq<char>) -> (
    Option<int>,
    Option<int>,
)
    decreases bounds.len(),
{
    if bounds.len() == 0 {
        (None, None)
    } else if bounds[0].name@ == name {
        (as_bound(bounds[0].lo), as_bound(bounds[0].hi))
    } else {
        recorded_bounds(bounds.skip(1), name)
    }
}

/// Whether no name is listed twice.
pub open spec fn names_distinct(bounds: Seq<VarBounds>) -> bool {
    forall|i: int, j: int|
        0 <= i < j < bounds.len() ==> #[trigger] bounds[i].name@ != #[trigger] bounds[j].name@
}

pub open spec fn as_bound(bound: Option<i128>) -> Option<int> {
    match bound {
        Some(bound) => Some(bound as int),
        None => None,
    }
}

/// The stronger of two lower bounds.
pub open spec fn raise(left: Option<int>, right: Option<int>) -> Option<int> {
    match (left, right) {
        (Some(l), Some(r)) => Some(
            if l >= r {
                l
            } else {
                r
            },
        ),
        (Some(l), None) => Some(l),
        _ => right,
    }
}

/// The stronger of two upper bounds.
pub open spec fn lower(left: Option<int>, right: Option<int>) -> Option<int> {
    match (left, right) {
        (Some(l), Some(r)) => Some(
            if l <= r {
                l
            } else {
                r
            },
        ),
        (Some(l), None) => Some(l),
        _ => right,
    }
}

/// Entries for other names do not matter.
proof fn lemma_recorded_at(bounds: Seq<VarBounds>, at: int, name: Seq<char>)
    requires
        0 <= at <= bounds.len(),
        forall|j: int| 0 <= j < at ==> #[trigger] bounds[j].name@ != name,
    ensures
        recorded_bounds(bounds, name) == recorded_bounds(bounds.skip(at), name),
    decreases at,
{
    if at == 0 {
        assert(bounds.skip(0) =~= bounds);
    } else {
        let rest = bounds.skip(1);
        assert(bounds[0].name@ != name);
        assert forall|j: int| 0 <= j < at - 1 implies #[trigger] rest[j].name@ != name by {
            assert(rest[j] == bounds[j + 1]);
        }
        lemma_recorded_at(rest, at - 1, name);
        assert(rest.skip(at - 1) =~= bounds.skip(at));
    }
}

/// Changing an entry for one name changes nothing for the others.
proof fn lemma_recorded_update(bounds: Seq<VarBounds>, at: int, entry: VarBounds, name: Seq<char>)
    requires
        0 <= at < bounds.len(),
        entry.name@ == bounds[at].name@,
        name != entry.name@,
    ensures
        recorded_bounds(bounds.update(at, entry), name) == recorded_bounds(bounds, name),
    decreases at,
{
    let after = bounds.update(at, entry);
    if at == 0 {
        assert(after.skip(1) =~= bounds.skip(1));
    } else {
        assert(bounds.skip(1)[at - 1] == bounds[at]);
        lemma_recorded_update(bounds.skip(1), at - 1, entry, name);
        assert(after.skip(1) =~= bounds.skip(1).update(at - 1, entry));
        assert(after[0] == bounds[0]);
    }
}

/// A new entry for one name changes nothing for the others.
proof fn lemma_recorded_push(bounds: Seq<VarBounds>, entry: VarBounds, name: Seq<char>)
    requires
        name != entry.name@,
    ensures
        recorded_bounds(bounds.push(entry), name) == recorded_bounds(bounds, name),
    decreases bounds.len(),
{
    let after = bounds.push(entry);
    if bounds.len() == 0 {
        assert(after.skip(1) =~= Seq::empty());
        assert(recorded_bounds(after.skip(1), name) == (None::<int>, None::<int>));
    } else {
        lemma_recorded_push(bounds.skip(1), entry, name);
        assert(after.skip(1) =~= bounds.skip(1).push(entry));
        assert(after[0] == bounds[0]);
    }
}

/// What is recorded for a name is what its only entry says.
proof fn lemma_recorded_entry(bounds: Seq<VarBounds>, name: Seq<char>)
    requires
        names_distinct(bounds),
    ensures
        forall|j: int|
            0 <= j < bounds.len() && #[trigger] bounds[j].name@ == name ==> recorded_bounds(
                bounds,
                name,
            ) == (as_bound(bounds[j].lo), as_bound(bounds[j].hi)),
        recorded_bounds(bounds, name) != (None::<int>, None::<int>) ==> exists|j: int|
            0 <= j < bounds.len() && #[trigger] bounds[j].name@ == name,
{
    assert forall|j: int|
        0 <= j < bounds.len() && #[trigger] bounds[j].name@ == name implies recorded_bounds(
        bounds,
        name,
    ) == (as_bound(bounds[j].lo), as_bound(bounds[j].hi)) by {
        lemma_recorded_at(bounds, j, name);
        assert(bounds.skip(j)[0] == bounds[j]);
    }
    if forall|j: int| 0 <= j < bounds.len() ==> #[trigger] bounds[j].name@ != name {
        lemma_recorded_at(bounds, bounds.len() as int, name);
        assert(bounds.skip(bounds.len() as int) =~= Seq::empty());
    }
}

fn raised(existing: Option<i128>, bound: Option<i128>) -> (merged: Option<i128>)
    ensures
        as_bound(merged) == raise(as_bound(existing), as_bound(bound)),
{
    match (existing, bound) {
        (Some(left), Some(right)) => if left >= right {
            Some(left)
        } else {
            Some(right)
        },
        (Some(left), None) => Some(left),
        (None, right) => right,
    }
}

fn lowered(existing: Option<i128>, bound: Option<i128>) -> (merged: Option<i128>)
    ensures
        as_bound(merged) == lower(as_bound(existing), as_bound(bound)),
{
    match (existing, bound) {
        (Some(left), Some(right)) => if left <= right {
            Some(left)
        } else {
            Some(right)
        },
        (Some(left), None) => Some(left),
        (None, right) => right,
    }
}

/// The integer variable that a fact compares with a literal, the literal, and
/// whether the variable comes first.
fn match_comparison(left: &ChcExpr, right: &ChcExpr) -> (found: Option<(String, i128, bool)>)
    ensures
        match found {
            Some((name, literal, true)) => left@ == int_var(name@) && right@ == ExprModel::Int(
                literal as int,
            ),
            Some((name, literal, false)) => left@ == ExprModel::Int(literal as int) && right@
                == int_var(name@),
            None => forall|name: Seq<char>| #[trigger]
                int_var(name) == int_var(name) ==> !(left@ == int_var(name) && right@ is Int) && !(
                left@ is Int && right@ == int_var(name)),
        },
{
    match right {
        ChcExpr::Int(literal) => {
            if let Some(name) = int_var_name(left) {
                return Some((name, *literal, true));
            }
        },
        _ => {},
    }
    match left {
        ChcExpr::Int(literal) => {
            if let Some(name) = int_var_name(right) {
                return Some((name, *literal, false));
            }
        },
        _ => {},
    }
    None
}

/// Records the bound that an asserted fact puts on an integer variable.
pub fn record_conjunct_bound(conjunct: &ChcExpr, bounds: &mut Vec<VarBounds>)
    ensures
        forall|name: Seq<char>| #[trigger]
            recorded_bounds(final(bounds)@, name) == (
                raise(recorded_bounds(old(bounds)@, name).0, lower_bound(conjunct@, name)),
                lower(recorded_bounds(old(bounds)@, name).1, upper_bound(conjunct@, name)),
            ),
        names_distinct(old(bounds)@) ==> names_distinct(final(bounds)@),
{
    if let ChcExpr::Op(op, args) = conjunct {
        assert(chc::terms_model(args@).len() == args@.len());
        let relates = match op {
            ChcOp::Lt | ChcOp::Le | ChcOp::Gt | ChcOp::Ge | ChcOp::Eq => true,
            _ => false,
        };
        if !relates || args.len() != 2 {
            return;
        }
        proof {
            chc::lemma_model_of_two(args@);
        }
        if let Some((var, literal, var_first)) = match_comparison(&args[0], &args[1]) {
            let (lo, hi): (Option<i128>, Option<i128>) = match (op, var_first) {
                (ChcOp::Eq, _) => (Some(literal), Some(literal)),
                (ChcOp::Lt, true) => (None, literal.checked_sub(1)),
                (ChcOp::Lt, false) => (literal.checked_add(1), None),
                (ChcOp::Le, true) => (None, Some(literal)),
                (ChcOp::Le, false) => (Some(literal), None),
                (ChcOp::Gt, true) => (literal.checked_add(1), None),
                (ChcOp::Gt, false) => (None, literal.checked_sub(1)),
                (ChcOp::Ge, true) => (Some(literal), None),
                _ => (None, Some(literal)),
            };
            proof {
                assert(lower_bound(conjunct@, var@) == as_bound(lo));
                assert(upper_bound(conjunct@, var@) == as_bound(hi));
                assert forall|name: Seq<char>| name != var@ implies compared_literal(
                    conjunct@,
                    name,
                ) is None by {}
            }
            merge_bounds(bounds, var, lo, hi);
        } else {
            assert forall|name: Seq<char>| compared_literal(conjunct@, name) is None by {
                assert(int_var(name) == int_var(name));
            }
        }
    }
}

/// Tightens the bounds recorded for a name.
fn merge_bounds(bounds: &mut Vec<VarBounds>, name: String, lo: Option<i128>, hi: Option<i128>)
    ensures
        forall|other: Seq<char>| #[trigger]
            recorded_bounds(final(bounds)@, other) == if other == name@ {
                (
                    raise(recorded_bounds(old(bounds)@, other).0, as_bound(lo)),
                    lower(recorded_bounds(old(bounds)@, other).1, as_bound(hi)),
                )
            } else {
                recorded_bounds(old(bounds)@, other)
            },
        names_distinct(old(bounds)@) ==> names_distinct(final(bounds)@),
{
    let count: usize = bounds.len();
    for i in 0..count
        invariant
            count == bounds.len(),
            bounds@ == old(bounds)@,
            forall|j: int| 0 <= j < i ==> #[trigger] bounds@[j].name@ != name@,
    {
        if bounds[i].name == name {
            let ghost own = name@;
            let entry = VarBounds {
                name,
                lo: raised(bounds[i].lo, lo),
                hi: lowered(bounds[i].hi, hi),
            };
            bounds.set(i, entry);
            proof {
                lemma_recorded_at(old(bounds)@, i as int, own);
                assert forall|j: int| 0 <= j < i implies #[trigger] bounds@[j].name@ != own by {
                    assert(bounds@[j] == old(bounds)@[j]);
                }
                lemma_recorded_at(bounds@, i as int, own);
                assert forall|j: int| 0 <= j < bounds@.len() implies #[trigger] bounds@[j].name@
                    == old(bounds)@[j].name@ by {}
                assert(old(bounds)@.skip(i as int)[0] == old(bounds)@[i as int]);
                assert(bounds@.skip(i as int)[0] == entry);
                assert forall|other: Seq<char>| other != own implies #[trigger] recorded_bounds(
                    bounds@,
                    other,
                ) == recorded_bounds(old(bounds)@, other) by {
                    lemma_recorded_update(old(bounds)@, i as int, entry, other);
                }
            }
            return;
        }
    }
    let ghost own = name@;
    let entry = VarBounds { name, lo, hi };
    bounds.push(entry);
    proof {
        let end = old(bounds)@.len() as int;
        lemma_recorded_at(old(bounds)@, end, own);
        assert(old(bounds)@.skip(end) =~= Seq::empty());
        assert forall|j: int| 0 <= j < end implies #[trigger] bounds@[j].name@ != own && bounds@[j]
            == old(bounds)@[j] by {
            assert(old(bounds)@[j].name@ != own);
        }
        lemma_recorded_at(bounds@, end, own);
        assert(bounds@.skip(end)[0] == entry);
        assert forall|other: Seq<char>| other != own implies #[trigger] recorded_bounds(
            bounds@,
            other,
        ) == recorded_bounds(old(bounds)@, other) by {
            lemma_recorded_push(old(bounds)@, entry, other);
        }
        assert(bounds@[end].name@ == own);
        if names_distinct(old(bounds)@) {
            assert forall|i: int, j: int|
                0 <= i < j < bounds@.len() implies #[trigger] bounds@[i].name@
                != #[trigger] bounds@[j].name@ by {
                if j < end {
                    assert(old(bounds)@[i].name@ != old(bounds)@[j].name@);
                }
            }
        }
    }
}

/// The names in a list.
pub open spec fn name_set(names: Seq<String>) -> Set<Seq<char>> {
    Set::new(|name: Seq<char>| exists|i: int| 0 <= i < names.len() && #[trigger] names[i]@ == name)
}

pub(crate) fn holds_name(names: &Vec<String>, name: &String) -> (held: bool)
    ensures
        held == name_set(names@).contains(name@),
{
    for i in 0..names.len()
        invariant
            forall|j: int| 0 <= j < i ==> #[trigger] names@[j]@ != name@,
    {
        if names[i] == *name {
            return true;
        }
    }
    false
}

fn add_name(names: &mut Vec<String>, name: String)
    ensures
        name_set(final(names)@) == name_set(old(names)@).insert(name@),
{
    names.push(name);
    assert(name_set(names@) =~= name_set(old(names)@).insert(name@)) by {
        assert(names@.last()@ == name@);
        assert forall|own: Seq<char>| name_set(old(names)@).contains(own) implies name_set(
            names@,
        ).contains(own) by {
            let i = choose|i: int| 0 <= i < old(names)@.len() && #[trigger] old(names)@[i]@ == own;
            assert(names@[i]@ == own);
        }
        assert forall|own: Seq<char>| name_set(names@).contains(own) && own != name@ implies name_set(
            old(names)@,
        ).contains(own) by {
            let i = choose|i: int| 0 <= i < names@.len() && #[trigger] names@[i]@ == own;
            assert(old(names)@[i]@ == own);
        }
    }
}

/// The strongest lower bound that several facts put on a name.
pub open spec fn greatest_lower(facts: Seq<ExprModel>, name: Seq<char>) -> Option<int>
    decreases facts.len(),
{
    if facts.len() == 0 {
        None
    } else {
        raise(greatest_lower(facts.drop_last(), name), lower_bound(facts.last(), name))
    }
}

/// The strongest upper bound that several facts put on a name.
pub open spec fn least_upper(facts: Seq<ExprModel>, name: Seq<char>) -> Option<int>
    decreases facts.len(),
{
    if facts.len() == 0 {
        None
    } else {
        lower(least_upper(facts.drop_last(), name), upper_bound(facts.last(), name))
    }
}

/// Some fact bounds a name within the window exactly where the strongest does.
proof fn lemma_strongest_bounds(facts: Seq<ExprModel>, name: Seq<char>, width: u32)
    ensures
        bounded_below(facts, name, width) <==> (greatest_lower(facts, name) matches Some(bound)
            && -power2::pow2((width - 1) as nat) <= bound),
        bounded_above(facts, name, width) <==> (least_upper(facts, name) matches Some(bound)
            && bound < power2::pow2((width - 1) as nat)),
    decreases facts.len(),
{
    if facts.len() > 0 {
        let front = facts.drop_last();
        lemma_strongest_bounds(front, name, width);
        if bounded_below(front, name, width) {
            let i = choose|i: int|
                0 <= i < front.len() && (lower_bound(#[trigger] front[i], name) matches Some(bound)
                    && -power2::pow2((width - 1) as nat) <= bound);
            assert(facts[i] == front[i]);
        }
        if bounded_below(facts, name, width) {
            let i = choose|i: int|
                0 <= i < facts.len() && (lower_bound(#[trigger] facts[i], name) matches Some(bound)
                    && -power2::pow2((width - 1) as nat) <= bound);
            if i < front.len() {
                assert(facts[i] == front[i]);
            }
        }
        if bounded_above(front, name, width) {
            let i = choose|i: int|
                0 <= i < front.len() && (upper_bound(#[trigger] front[i], name) matches Some(bound)
                    && bound < power2::pow2((width - 1) as nat));
            assert(facts[i] == front[i]);
        }
        if bounded_above(facts, name, width) {
            let i = choose|i: int|
                0 <= i < facts.len() && (upper_bound(#[trigger] facts[i], name) matches Some(bound)
                    && bound < power2::pow2((width - 1) as nat));
            if i < front.len() {
                assert(facts[i] == front[i]);
            }
        }
        assert(facts[facts.len() - 1] == facts.last());
    }
}

/// Adds the names that asserted facts define as signed decodes.
fn add_decoded_names(facts: &Vec<Arc<ChcExpr>>, width: u32, names: &mut Vec<String>)
    requires
        1 <= width <= MAX_BRIDGE_WIDTH,
    ensures
        forall|name: Seq<char>| #[trigger]
            name_set(final(names)@).contains(name) <==> name_set(old(names)@).contains(name)
                || exists|i: int|
                0 <= i < facts@.len() && defines_decoded(
                    #[trigger] chc::terms_model(facts@)[i],
                    width,
                    name,
                ),
{
    let ghost models = chc::terms_model(facts@);
    for i in 0..facts.len()
        invariant
            1 <= width <= MAX_BRIDGE_WIDTH,
            models == chc::terms_model(facts@),
            forall|name: Seq<char>| #[trigger]
                name_set(names@).contains(name) <==> name_set(old(names)@).contains(name)
                    || exists|j: int| 0 <= j < i && defines_decoded(#[trigger] models[j], width, name),
    {
        let ghost before = names@;
        assert(models[i as int] == facts@[i as int]@);
        let ghost by_formula = |name: Seq<char>|
            exists|order: DecodeOrder| is_signed_decode(models[i as int], width, name, order);
        match match_signed_decode(&facts[i], width) {
            Some(parts) => {
                assert(forall|name: Seq<char>| #[trigger] by_formula(name) <==> name
                    == parts.var_name@);
                add_name(names, parts.var_name);
            },
            None => {
                assert(forall|name: Seq<char>| !#[trigger] by_formula(name));
            },
        }
        let ghost middle = names@;
        assert(forall|name: Seq<char>| #[trigger]
            name_set(middle).contains(name) <==> name_set(before).contains(name) || by_formula(
                name,
            ));
        match signed_decode_definition_var(&facts[i], width) {
            Some(name) => {
                add_name(names, name);
            },
            None => {},
        }
        assert forall|name: Seq<char>| #[trigger] name_set(names@).contains(name) <==> name_set(
            old(names)@,
        ).contains(name) || exists|j: int|
            0 <= j < i + 1 && defines_decoded(#[trigger] models[j], width, name) by {
            assert(defines_decoded(models[i as int], width, name) <==> by_formula(name)
                || equates_decode_term(models[i as int], width, name));
            assert(name_set(names@).contains(name) <==> name_set(middle).contains(name)
                || equates_decode_term(models[i as int], width, name));
        }
    }
}

/// The integer variables that asserted facts keep in the signed window.
pub(crate) fn admissible_names(facts: &Vec<Arc<ChcExpr>>, width: u32) -> (names: Vec<String>)
    requires
        1 <= width <= MAX_BRIDGE_WIDTH,
    ensures
        name_set(names@) == admissible(chc::terms_model(facts@), width),
{
    let ghost models = chc::terms_model(facts@);
    let mut names: Vec<String> = Vec::new();
    add_decoded_names(facts, width, &mut names);
    let ghost decoded = names@;
    let mut bounds: Vec<VarBounds> = Vec::new();
    for i in 0..facts.len()
        invariant
            models == chc::terms_model(facts@),
            names_distinct(bounds@),
            forall|name: Seq<char>| #[trigger]
                recorded_bounds(bounds@, name) == (
                    greatest_lower(models.take(i as int), name),
                    least_upper(models.take(i as int), name),
                ),
    {
        let ghost before = bounds@;
        record_conjunct_bound(&facts[i], &mut bounds);
        proof {
            let next = models.take(i + 1);
            assert(next.drop_last() =~= models.take(i as int));
            assert(next.last() == facts@[i as int]@);
            assert forall|name: Seq<char>| #[trigger] recorded_bounds(bounds@, name) == (
                greatest_lower(next, name),
                least_upper(next, name),
            ) by {
                assert(recorded_bounds(before, name).0 == greatest_lower(
                    models.take(i as int),
                    name,
                ));
            }
        }
    }
    assert(models.take(facts@.len() as int) =~= models);
    let half: i128 = power_of_two(width - 1);
    proof {
        power2::lemma_pow2_pos((width - 1) as nat);
    }
    let mut done: usize = 0;
    while done < bounds.len()
        invariant
            half > 0,
            done <= bounds@.len(),
            forall|name: Seq<char>| #[trigger]
                name_set(names@).contains(name) <==> name_set(decoded).contains(name) || exists|
                    j: int,
                |
                    0 <= j < done && #[trigger] bounds@[j].name@ == name && within(
                        bounds@[j],
                        half as int,
                    ),
        decreases bounds.len() - done,
    {
        let entry = &bounds[done];
        let ghost before = names@;
        let ghost old_done = done as int;
        let fits = match (entry.lo, entry.hi) {
            (Some(lo), Some(hi)) => lo >= -half && hi < half,
            _ => false,
        };
        assert(fits == within(bounds@[old_done], half as int));
        if fits {
            add_name(&mut names, entry.name.clone());
        }
        done = done + 1;
        assert forall|name: Seq<char>| #[trigger] name_set(names@).contains(name) <==> name_set(
            decoded,
        ).contains(name) || exists|j: int|
            0 <= j < done && #[trigger] bounds@[j].name@ == name && within(
                bounds@[j],
                half as int,
            ) by {
            assert(name_set(names@).contains(name) <==> name_set(before).contains(name) || (fits
                && bounds@[old_done].name@ == name));
        }
    }
    proof {
        assert forall|name: Seq<char>| name_set(names@).contains(name) <==> admissible(
            models,
            width,
        ).contains(name) by {
            lemma_strongest_bounds(models, name, width);
            lemma_recorded_entry(bounds@, name);
            let (lo, hi) = recorded_bounds(bounds@, name);
            assert(lo == greatest_lower(models, name) && hi == least_upper(models, name));
        }
        assert(name_set(names@) =~= admissible(models, width));
    }
    names
}

/// Whether the bounds of an entry lie in the window of the given half size.
spec fn within(entry: VarBounds, half: int) -> bool {
    &&& entry.lo matches Some(lo) && -half <= lo
    &&& entry.hi matches Some(hi) && hi < half
}

} // verus!
