//! Which constraints bridge elimination takes.
//!
//! A constraint is rewritten where it names one bridge width, where no other variable
//! would be captured, and where all of it can be said over bit-vectors. The laws say so
//! by what the facts of the constraint allow and by how its terms are written, on
//! whichever side of an equality an operand stands.
use vstd::arithmetic::power2;
use vstd::prelude::*;

use crate::bridge;
use crate::bridge::DecodeOrder;
use crate::bridge_laws;
use crate::chc::{AtomModel, ChcOp, ExprModel, SortModel, VarModel};
use crate::grounding_laws;
use crate::rewrite;
use crate::semantics;
use crate::term_laws::part_of;
use crate::terms;

verus! {

/// Whether a term sets two terms equal, in either order.
pub open spec fn equated(expr: ExprModel, one: ExprModel, other: ExprModel) -> bool {
    expr == ExprModel::Op(ChcOp::Eq, seq![one, other]) || expr == ExprModel::Op(
        ChcOp::Eq,
        seq![other, one],
    )
}

/// The integer variable of a name.
pub open spec fn number_named(name: Seq<char>) -> ExprModel {
    ExprModel::Var(VarModel { name, sort: SortModel::Int })
}

/// The number that a pattern is without a sign.
pub open spec fn as_natural(bits: ExprModel) -> ExprModel {
    ExprModel::Op(ChcOp::Bv2Nat, seq![bits])
}

/// The number that a pattern with a set top bit is.
pub open spec fn as_negative(bits: ExprModel, width: u32) -> ExprModel {
    ExprModel::Op(
        ChcOp::Sub,
        seq![as_natural(bits), ExprModel::Int(power2::pow2(width as nat) as int)],
    )
}

/// Whether a term says that the top bit of a pattern is set.
pub open spec fn says_top_bit(expr: ExprModel, bits: ExprModel, width: u32) -> bool {
    equated(
        expr,
        ExprModel::BitVec(1, 1),
        ExprModel::Op(ChcOp::BvExtract((width - 1) as u32, (width - 1) as u32), seq![bits]),
    )
}

/// Whether a term is the signed number that a pattern is.
pub open spec fn is_signed_number(expr: ExprModel, bits: ExprModel, width: u32) -> bool {
    &&& semantics::term_sort(bits) == Some(SortModel::BitVec(width))
    &&& expr matches ExprModel::Op(ChcOp::Ite, args)
    &&& args.len() == 3
    &&& says_top_bit(args[0], bits, width)
    &&& args[1] == as_negative(bits, width)
    &&& args[2] == as_natural(bits)
}

/// Whether a formula sets a variable to the signed number that a pattern is, by cases.
pub open spec fn pins(expr: ExprModel, name: Seq<char>, bits: ExprModel, width: u32) -> bool {
    &&& semantics::term_sort(bits) == Some(SortModel::BitVec(width))
    &&& expr matches ExprModel::Op(ChcOp::Ite, args)
    &&& args.len() == 3
    &&& says_top_bit(args[0], bits, width)
    &&& equated(args[1], number_named(name), as_negative(bits, width))
    &&& equated(args[2], number_named(name), as_natural(bits))
}

/// Whether two integers stand in a comparison.
pub open spec fn compares(op: ChcOp, left: int, right: int) -> bool {
    match op {
        ChcOp::Eq => left == right,
        ChcOp::Lt => left < right,
        ChcOp::Le => left <= right,
        ChcOp::Gt => left > right,
        ChcOp::Ge => left >= right,
        _ => true,
    }
}

/// Whether a fact that compares a variable with a literal allows the variable a value.
/// Other facts are taken to allow every value.
pub open spec fn allows(fact: ExprModel, name: Seq<char>, value: int) -> bool {
    match fact {
        ExprModel::Op(op, args) if args.len() == 2 => {
            if args[0] == number_named(name) && args[1] is Int {
                compares(op, value, args[1]->Int_0)
            } else if args[1] == number_named(name) && args[0] is Int {
                compares(op, args[0]->Int_0, value)
            } else {
                true
            }
        },
        _ => true,
    }
}

/// Whether a fact allows a variable only values from the window's lower end on.
pub open spec fn keeps_low(fact: ExprModel, name: Seq<char>, width: u32) -> bool {
    forall|value: int| #[trigger]
        allows(fact, name, value) ==> -power2::pow2((width - 1) as nat) <= value
}

/// Whether a fact allows a variable only values below the window's upper end.
pub open spec fn keeps_high(fact: ExprModel, name: Seq<char>, width: u32) -> bool {
    forall|value: int| #[trigger]
        allows(fact, name, value) ==> value < power2::pow2((width - 1) as nat)
}

/// Whether a fact gives a variable the signed number that a pattern is.
pub open spec fn gives_number(fact: ExprModel, name: Seq<char>, width: u32) -> bool {
    ||| exists|bits: ExprModel| #[trigger] pins(fact, name, bits, width)
    ||| exists|bits: ExprModel, number: ExprModel| #[trigger]
        is_signed_number(number, bits, width) && equated(fact, number_named(name), number)
}

/// Whether a constraint keeps a variable in the signed window of a width.
pub open spec fn kept(constraint: ExprModel, width: u32, name: Seq<char>) -> bool {
    ||| exists|fact: ExprModel| #[trigger]
        grounding_laws::asserts(constraint, fact) && gives_number(fact, name, width)
    ||| {
        &&& exists|fact: ExprModel| #[trigger]
            grounding_laws::asserts(constraint, fact) && keeps_low(fact, name, width)
        &&& exists|fact: ExprModel| #[trigger]
            grounding_laws::asserts(constraint, fact) && keeps_high(fact, name, width)
    }
}

/// Whether no fact of a constraint compares with the least or the greatest integer that
/// a literal can be: a strict bound by one of them has no next literal.
pub open spec fn literals_have_neighbours(constraint: ExprModel) -> bool {
    forall|fact: ExprModel, i: int|
        #![trigger grounding_laws::asserts(constraint, fact), fact->Op_1[i]]
        grounding_laws::asserts(constraint, fact) && fact is Op && 0 <= i < fact->Op_1.len()
            && fact->Op_1[i] is Int ==> i128::MIN < fact->Op_1[i]->Int_0 < i128::MAX
}

/// A fact bounds a variable within the window exactly where it allows no value beyond.
proof fn lemma_bounds(fact: ExprModel, name: Seq<char>, width: u32)
    requires
        1 <= width <= 126,
        fact is Op ==> forall|i: int|
            0 <= i < fact->Op_1.len() && (#[trigger] fact->Op_1[i]) is Int ==> i128::MIN
                < fact->Op_1[i]->Int_0 < i128::MAX,
    ensures
        (bridge::lower_bound(fact, name) matches Some(bound) && -power2::pow2((width - 1) as nat)
            <= bound) <==> keeps_low(fact, name, width),
        (bridge::upper_bound(fact, name) matches Some(bound) && bound < power2::pow2(
            (width - 1) as nat,
        )) <==> keeps_high(fact, name, width),
{
    let half = power2::pow2((width - 1) as nat) as int;
    bridge_laws::lemma_halves(width);
    let literal: int = if fact is Op && fact->Op_1.len() == 2 {
        if fact->Op_1[1] is Int {
            fact->Op_1[1]->Int_0
        } else if fact->Op_1[0] is Int {
            fact->Op_1[0]->Int_0
        } else {
            0
        }
    } else {
        0
    };
    let low: int = if literal < -half {
        literal
    } else {
        -half
    };
    let high: int = if literal > half {
        literal
    } else {
        half
    };
    let least = allows(fact, name, low - 1);
    let most = allows(fact, name, high + 1);
    let at = allows(fact, name, literal);
    let after = allows(fact, name, literal + 1);
    let before = allows(fact, name, literal - 1);
    match fact {
        ExprModel::Op(op, args) => {
            if args.len() == 2 {
                assert(fact->Op_1[0] == args[0] && fact->Op_1[1] == args[1]);
                if args[0] == number_named(name) && args[1] is Int {
                    assert(bridge::compared_literal(fact, name) == Some((literal, true)));
                } else if args[1] == number_named(name) && args[0] is Int {
                    assert(bridge::compared_literal(fact, name) == Some((literal, false)));
                } else {
                    assert(bridge::compared_literal(fact, name) is None);
                    assert(least && most);
                }
            } else {
                assert(least && most);
            }
        },
        _ => {
            assert(least && most);
        },
    }
}

/// The pattern whose top bit a condition speaks of is the one that the shape of the
/// condition shows.
proof fn lemma_tested(expr: ExprModel, bits: ExprModel, width: u32)
    requires
        expr is Op,
        expr->Op_0 == ChcOp::Ite,
        expr->Op_1.len() == 3,
        says_top_bit(expr->Op_1[0], bits, width),
        semantics::term_sort(bits) == Some(SortModel::BitVec(width)),
    ensures
        bridge::tested_bits(expr) == bits,
        bridge::tests_sign(expr, width),
        forall|first: bool| #[trigger]
            bridge::sign_test(bits, width, first) == expr->Op_1[0] || bridge::sign_test(
                bits,
                width,
                !first,
            ) == expr->Op_1[0],
{
    let top = (width - 1) as u32;
    let extract = ExprModel::Op(ChcOp::BvExtract(top, top), seq![bits]);
    assert(extract != bridge::one_bit());
    if expr->Op_1[0] == ExprModel::Op(ChcOp::Eq, seq![bridge::one_bit(), extract]) {
        assert(expr->Op_1[0] == bridge::sign_test(bits, width, true));
    } else {
        assert(expr->Op_1[0] == bridge::sign_test(bits, width, false));
    }
    assert forall|first: bool| #[trigger]
        bridge::sign_test(bits, width, first) == expr->Op_1[0] || bridge::sign_test(
            bits,
            width,
            !first,
        ) == expr->Op_1[0] by {
        assert(first || !first);
    }
}

/// A pinned variable is recognized in whichever order the equalities are written.
proof fn lemma_pinned(expr: ExprModel, name: Seq<char>, bits: ExprModel, width: u32) -> (order:
    DecodeOrder)
    requires
        pins(expr, name, bits, width),
    ensures
        bridge::is_signed_decode(expr, width, name, order),
        bridge::tested_bits(expr) == bits,
{
    lemma_tested(expr, bits, width);
    let args = expr->Op_1;
    let order = DecodeOrder {
        cond_literal_first: args[0] == bridge::sign_test(bits, width, true),
        then_var_first: args[1] == ExprModel::Op(
            ChcOp::Eq,
            seq![number_named(name), as_negative(bits, width)],
        ),
        else_var_first: args[2] == ExprModel::Op(
            ChcOp::Eq,
            seq![number_named(name), as_natural(bits)],
        ),
    };
    assert(bridge::sign_test(bits, width, false) == args[0] || bridge::sign_test(bits, width, true)
        == args[0]);
    assert(bridge::signed_decode(bits, name, width, order)->Op_1 =~= args);
    order
}

/// A signed number is recognized in whichever order its test is written.
proof fn lemma_signed_number(expr: ExprModel, bits: ExprModel, width: u32)
    requires
        is_signed_number(expr, bits, width),
    ensures
        bridge::is_decode_term(expr, width),
        bridge::tested_bits(expr) == bits,
{
    lemma_tested(expr, bits, width);
    let first = expr->Op_1[0] == bridge::sign_test(bits, width, true);
    assert(bridge::sign_test(bits, width, false) == expr->Op_1[0] || bridge::sign_test(
        bits,
        width,
        true,
    ) == expr->Op_1[0]);
    assert(bridge::decode_term(bits, width, first)->Op_1 =~= expr->Op_1);
    assert(expr == bridge::decode_term(bits, width, first));
}

/// What is recognized as a decode is one.
proof fn lemma_defined(fact: ExprModel, name: Seq<char>, width: u32)
    ensures
        bridge::defines_decoded(fact, width, name) <==> gives_number(fact, name, width),
{
    if gives_number(fact, name, width) {
        if exists|bits: ExprModel| #[trigger] pins(fact, name, bits, width) {
            let bits = choose|bits: ExprModel| #[trigger] pins(fact, name, bits, width);
            let order = lemma_pinned(fact, name, bits, width);
            assert(bridge::is_signed_decode(fact, width, name, order));
        } else {
            let (bits, number) = choose|bits: ExprModel, number: ExprModel| #[trigger]
                is_signed_number(number, bits, width) && equated(
                    fact,
                    number_named(name),
                    number,
                );
            lemma_signed_number(number, bits, width);
            if fact == ExprModel::Op(ChcOp::Eq, seq![number_named(name), number]) {
                assert(fact == bridge::equation(bridge::int_var(name), number, true));
            } else {
                assert(fact == bridge::equation(bridge::int_var(name), number, false));
            }
        }
    }
    if bridge::defines_decoded(fact, width, name) {
        if exists|order: DecodeOrder| bridge::is_signed_decode(fact, width, name, order) {
            let order = choose|order: DecodeOrder|
                bridge::is_signed_decode(fact, width, name, order);
            assert(pins(fact, name, bridge::tested_bits(fact), width));
        } else {
            let (term, in_order) = choose|term: ExprModel, in_order: bool|
                bridge::is_decode_term(term, width) && fact == #[trigger] bridge::equation(
                    bridge::int_var(name),
                    term,
                    in_order,
                );
            let first = choose|first: bool|
                term == #[trigger] bridge::decode_term(bridge::tested_bits(term), width, first);
            assert(is_signed_number(term, bridge::tested_bits(term), width));
            assert(equated(fact, number_named(name), term));
        }
    }
}

/// The variables that are given another sort are those that the constraint keeps in the
/// signed window: by a fact that gives them a signed number, or by one that allows no
/// value below it and one that allows no value above it.
pub proof fn law_kept_variables_are_taken(constraint: ExprModel, width: u32, name: Seq<char>)
    requires
        1 <= width <= 126,
        literals_have_neighbours(constraint),
    ensures
        bridge::admissible(terms::conjunct_leaves(constraint), width).contains(name) <==> kept(
            constraint,
            width,
            name,
        ),
{
    let facts = terms::conjunct_leaves(constraint);
    assert forall|fact: ExprModel| #[trigger]
        grounding_laws::asserts(constraint, fact) implies facts.contains(fact) && (
    bridge::defines_decoded(fact, width, name) <==> gives_number(fact, name, width)) && ((
    bridge::lower_bound(fact, name) matches Some(bound) && -power2::pow2((width - 1) as nat)
        <= bound) <==> keeps_low(fact, name, width)) && ((bridge::upper_bound(
        fact,
        name,
    ) matches Some(bound) && bound < power2::pow2((width - 1) as nat)) <==> keeps_high(
        fact,
        name,
        width,
    )) by {
        grounding_laws::lemma_asserted_leaves(constraint, fact);
        lemma_defined(fact, name, width);
        lemma_bounds(fact, name, width);
    }
    assert forall|i: int| 0 <= i < facts.len() implies grounding_laws::asserts(
        constraint,
        #[trigger] facts[i],
    ) by {
        grounding_laws::lemma_asserted_leaves(constraint, facts[i]);
    }
}

/// Whether a term has a bridge of a width as a part.
pub open spec fn has_bridge(expr: ExprModel, width: u32) -> bool {
    exists|operands: Seq<ExprModel>|
        #[trigger] part_of(ExprModel::Op(ChcOp::Int2Bv(width), operands), expr)
}

/// A bridge is found wherever it is a part.
pub proof fn law_bridges_are_found(expr: ExprModel, width: u32)
    ensures
        bridge::has_bridge_width(expr, width) <==> has_bridge(expr, width),
    decreases expr,
{
    match expr {
        ExprModel::Op(op, args) => {
            lemma_bridges_in_parts(expr, args, width);
            if op == ChcOp::Int2Bv(width) {
                assert(part_of(ExprModel::Op(ChcOp::Int2Bv(width), args), expr));
            }
        },
        ExprModel::PredicateApp(_, _, args) => {
            lemma_bridges_in_parts(expr, args, width);
        },
        ExprModel::FuncApp(_, _, args) => {
            lemma_bridges_in_parts(expr, args, width);
        },
        ExprModel::ConstArray(_, value) => {
            law_bridges_are_found(*value, width);
            if has_bridge(*value, width) {
                let operands = choose|operands: Seq<ExprModel>|
                    #[trigger] part_of(ExprModel::Op(ChcOp::Int2Bv(width), operands), *value);
                assert(part_of(ExprModel::Op(ChcOp::Int2Bv(width), operands), expr));
            }
            if has_bridge(expr, width) {
                let operands = choose|operands: Seq<ExprModel>| #[trigger]
                    part_of(ExprModel::Op(ChcOp::Int2Bv(width), operands), expr);
                assert(part_of(ExprModel::Op(ChcOp::Int2Bv(width), operands), *value));
            }
        },
        _ => {
            if has_bridge(expr, width) {
                let operands = choose|operands: Seq<ExprModel>| #[trigger]
                    part_of(ExprModel::Op(ChcOp::Int2Bv(width), operands), expr);
                assert(ExprModel::Op(ChcOp::Int2Bv(width), operands) == expr);
            }
        },
    }
}

proof fn lemma_bridges_in_parts(expr: ExprModel, args: Seq<ExprModel>, width: u32)
    requires
        match expr {
            ExprModel::Op(_, own) => own == args,
            ExprModel::PredicateApp(_, _, own) => own == args,
            ExprModel::FuncApp(_, _, own) => own == args,
            _ => false,
        },
    ensures
        bridge::any_has_bridge_width(args, width) ==> has_bridge(expr, width),
        has_bridge(expr, width) ==> bridge::any_has_bridge_width(args, width) || (expr is Op
            && expr->Op_0 == ChcOp::Int2Bv(width)),
    decreases args,
{
    if bridge::any_has_bridge_width(args, width) {
        let i = choose|i: int|
            0 <= i < args.len() && bridge::has_bridge_width(#[trigger] args[i], width);
        law_bridges_are_found(args[i], width);
        let operands = choose|operands: Seq<ExprModel>|
            #[trigger] part_of(ExprModel::Op(ChcOp::Int2Bv(width), operands), args[i]);
        assert(part_of(ExprModel::Op(ChcOp::Int2Bv(width), operands), expr));
    }
    if has_bridge(expr, width) {
        let operands = choose|operands: Seq<ExprModel>|
            #[trigger] part_of(ExprModel::Op(ChcOp::Int2Bv(width), operands), expr);
        let part = ExprModel::Op(ChcOp::Int2Bv(width), operands);
        if part != expr {
            let i = choose|i: int| 0 <= i < args.len() && part_of(part, #[trigger] args[i]);
            assert(has_bridge(args[i], width));
            law_bridges_are_found(args[i], width);
        }
    }
}

/// Whether an operator says the same of patterns as it says of what it takes: the
/// connectives and everything that computes on bit-vectors or compares them.
pub open spec fn carries_over(op: ChcOp) -> bool {
    match op {
        ChcOp::Not | ChcOp::And | ChcOp::Or | ChcOp::Implies | ChcOp::Iff => true,
        ChcOp::BvAdd | ChcOp::BvSub | ChcOp::BvMul | ChcOp::BvUDiv | ChcOp::BvURem => true,
        ChcOp::BvSDiv | ChcOp::BvSRem | ChcOp::BvSMod | ChcOp::BvAnd | ChcOp::BvOr => true,
        ChcOp::BvXor | ChcOp::BvNand | ChcOp::BvNor | ChcOp::BvXnor | ChcOp::BvNot => true,
        ChcOp::BvNeg | ChcOp::BvShl | ChcOp::BvLShr | ChcOp::BvAShr | ChcOp::BvComp => true,
        ChcOp::BvConcat | ChcOp::BvExtract(_, _) | ChcOp::BvZeroExtend(_) => true,
        ChcOp::BvSignExtend(_) | ChcOp::BvRotateLeft(_) | ChcOp::BvRotateRight(_) => true,
        ChcOp::BvRepeat(_) => true,
        _ => false,
    }
}

/// Whether an operator compares two bit-vectors.
pub open spec fn compares_patterns(op: ChcOp) -> bool {
    match op {
        ChcOp::BvULt | ChcOp::BvULe | ChcOp::BvUGt | ChcOp::BvUGe => true,
        ChcOp::BvSLt | ChcOp::BvSLe | ChcOp::BvSGt | ChcOp::BvSGe => true,
        _ => false,
    }
}

/// Whether an operator applied to operands that can be said over bit-vectors can be said
/// over bit-vectors.
pub open spec fn combines(op: ChcOp, args: Seq<ExprModel>) -> bool {
    ||| carries_over(op) && args.len() > 0
    ||| compares_patterns(op) && args.len() == 2
    ||| op == ChcOp::Ite && args.len() == 3
    ||| (op == ChcOp::Eq || op == ChcOp::Ne) && args.len() == 2 && semantics::term_sort(args[0])
        == semantics::term_sort(args[1]) && (semantics::term_sort(args[0]) matches Some(sort) && (
    sort is Bool || sort is Int || sort is BitVec))
    ||| (op == ChcOp::Lt || op == ChcOp::Le || op == ChcOp::Gt || op == ChcOp::Ge) && args.len()
        == 2 && semantics::term_sort(args[0]) == Some(SortModel::Int) && semantics::term_sort(
        args[1],
    ) == Some(SortModel::Int)
}

/// Whether every one of several terms can be said over bit-vectors.
pub open spec fn all_said(exprs: Seq<ExprModel>, width: u32, names: Set<Seq<char>>) -> bool {
    forall|i: int| 0 <= i < exprs.len() ==> bridge::image(#[trigger] exprs[i], width, names) is Some
}

/// The pattern that a condition tests can be said where the condition can.
proof fn lemma_tested_is_said(expr: ExprModel, width: u32, names: Set<Seq<char>>)
    requires
        bridge::tests_sign(expr, width),
        bridge::image(expr->Op_1[0], width, names) is Some,
    ensures
        bridge::image(bridge::tested_bits(expr), width, names) is Some,
{
    let cond = expr->Op_1[0];
    let sides = cond->Op_1;
    assert(cond is Op && cond->Op_0 is Eq);
    let images = bridge::image_all(sides, width, names);
    assert(images is Some);
    let extract = if sides[0] == bridge::one_bit() {
        sides[1]
    } else {
        sides[0]
    };
    assert(bridge::image(sides[0], width, names) is Some && bridge::image(
        sides[1],
        width,
        names,
    ) is Some);
    assert(extract is Op && extract->Op_0 is BvExtract);
    assert(bridge::image_all(extract->Op_1, width, names) is Some);
    assert(bridge::image(extract->Op_1[0], width, names) is Some);
}

/// What can be said over bit-vectors is closed: under the operators that carry over,
/// under integer comparisons and equalities, under the signed numbers that patterns are,
/// and under bridges of the width from literals and kept variables. Literals in the
/// window, kept variables, and Boolean and bit-vector terms are where it starts.
pub proof fn law_what_can_be_said_is_closed(expr: ExprModel, width: u32, names: Set<Seq<char>>)
    requires
        1 <= width <= 126,
    ensures
        expr is Bool || expr is BitVec ==> bridge::image(expr, width, names) is Some,
        (expr matches ExprModel::Int(number) && -power2::pow2((width - 1) as nat) <= number
            < power2::pow2((width - 1) as nat)) ==> bridge::image(expr, width, names) is Some,
        (expr matches ExprModel::Var(var) && (var.sort is Bool || var.sort is BitVec || (var.sort
            is Int && names.contains(var.name)))) ==> bridge::image(expr, width, names) is Some,
        (expr matches ExprModel::Op(op, args) && combines(op, args) && all_said(
            args,
            width,
            names,
        )) ==> bridge::image(expr, width, names) is Some,
        forall|bits: ExprModel, name: Seq<char>| #[trigger]
            pins(expr, name, bits, width) && names.contains(name) && bridge::image(
                bits,
                width,
                names,
            ) is Some ==> bridge::image(expr, width, names) is Some,
        forall|bits: ExprModel| #[trigger]
            is_signed_number(expr, bits, width) && bridge::image(bits, width, names) is Some
                ==> bridge::image(expr, width, names) is Some,
        (expr matches ExprModel::Op(op, args) && op == ChcOp::Int2Bv(width) && args.len() == 1 && (
        args[0] is Int || (args[0] matches ExprModel::Var(var) && var.sort is Int && names.contains(
            var.name,
        )))) ==> bridge::image(expr, width, names) is Some,
{
    assert forall|bits: ExprModel, name: Seq<char>| #[trigger]
        pins(expr, name, bits, width) && names.contains(name) && bridge::image(
            bits,
            width,
            names,
        ) is Some implies bridge::image(expr, width, names) is Some by {
        let order = lemma_pinned(expr, name, bits, width);
        assert(names.contains(name) && bridge::is_signed_decode(expr, width, name, order));
    }
    assert forall|bits: ExprModel| #[trigger]
        is_signed_number(expr, bits, width) && bridge::image(
            bits,
            width,
            names,
        ) is Some implies bridge::image(expr, width, names) is Some by {
        lemma_signed_number(expr, bits, width);
    }
    if let ExprModel::Op(op, args) = expr {
        if combines(op, args) && all_said(args, width, names) {
            if op is Ite && bridge::tests_sign(expr, width) {
                assert(bridge::image(args[0], width, names) is Some);
                lemma_tested_is_said(expr, width, names);
            }
            if op is Lt || op is Le || op is Gt || op is Ge {
                assert(semantics::all_of_sort(args, SortModel::Int));
            }
            assert(bridge::image_op(op, args) is Some);
            assert(bridge::image_all(args, width, names) is Some);
        }
    }
}

/// Whether giving another sort to the variables that a constraint keeps disturbs no
/// other one: they are integers throughout, and no argument of the clause has them.
pub open spec fn disturbs_none(
    constraint: ExprModel,
    width: u32,
    atoms: Seq<AtomModel>,
    head_args: Seq<ExprModel>,
) -> bool {
    forall|var: VarModel|
        kept(constraint, width, #[trigger] var.name) ==> {
            &&& terms::occurs(var, constraint) ==> var.sort == SortModel::Int
            &&& !terms::occurs_in_any(var, head_args)
            &&& forall|i: int|
                0 <= i < atoms.len() ==> !terms::occurs_in_any(var, (#[trigger] atoms[i]).args)
        }
}

/// A constraint is rewritten exactly where its bridges are of one width from one to 126,
/// where the change of sort disturbs no other variable, and where it can be said over
/// bit-vectors with the variables that it keeps.
pub proof fn law_bridged_constraints_are_rewritten(
    constraint: ExprModel,
    atoms: Seq<AtomModel>,
    head_args: Seq<ExprModel>,
    width: u32,
    names: Set<Seq<char>>,
)
    requires
        1 <= width <= 126,
        has_bridge(constraint, width),
        literals_have_neighbours(constraint),
        forall|name: Seq<char>| #[trigger] names.contains(name) <==> kept(constraint, width, name),
    ensures
        rewrite::bridge_free(constraint, atoms, head_args) is Some <==> {
            &&& forall|other: u32| #[trigger] has_bridge(constraint, other) ==> other == width
            &&& disturbs_none(constraint, width, atoms, head_args)
            &&& bridge::image(constraint, width, names) is Some
        },
{
    assert forall|other: u32| #[trigger]
        bridge::has_bridge_width(constraint, other) <==> has_bridge(constraint, other) by {
        law_bridges_are_found(constraint, other);
    }
    let own = bridge::admissible(terms::conjunct_leaves(constraint), width);
    assert forall|name: Seq<char>| #[trigger] own.contains(name) <==> names.contains(name) by {
        law_kept_variables_are_taken(constraint, width, name);
    }
    assert(own =~= names);
    assert(bridge::has_bridge_width(constraint, width));
    if forall|other: u32| #[trigger] has_bridge(constraint, other) ==> other == width {
        assert(bridge::is_bridge_width(constraint, width));
        let chosen = choose|own: u32| bridge::is_bridge_width(constraint, own);
        assert(bridge::is_bridge_width(constraint, chosen));
        assert(bridge::has_bridge_width(constraint, chosen));
        assert(chosen == width);
        if rewrite::capture_free(names, constraint, atoms, head_args) {
            assert forall|var: VarModel| kept(constraint, width, #[trigger] var.name) implies {
                &&& terms::occurs(var, constraint) ==> var.sort == SortModel::Int
                &&& !terms::occurs_in_any(var, head_args)
                &&& forall|i: int|
                    0 <= i < atoms.len() ==> !terms::occurs_in_any(
                        var,
                        (#[trigger] atoms[i]).args,
                    )
            } by {
                assert(names.contains(var.name));
            }
        }
        if disturbs_none(constraint, width, atoms, head_args) {
            assert forall|var: VarModel| #[trigger] names.contains(var.name) implies {
                &&& terms::occurs(var, constraint) ==> var.sort is Int
                &&& !rewrite::occurs_in_arguments(var, atoms, head_args)
            } by {
                assert(kept(constraint, width, var.name));
            }
        }
    } else if exists|own: u32| bridge::is_bridge_width(constraint, own) {
        let chosen = choose|own: u32| bridge::is_bridge_width(constraint, own);
        let other = choose|other: u32| #[trigger]
            has_bridge(constraint, other) && other != width;
        assert(bridge::has_bridge_width(constraint, other));
        assert(false);
    }
}

} // verus!
