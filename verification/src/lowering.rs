//! Lowering of typed verification conditions to Horn-clause problems.
//!
//! Every construct is either translated exactly or refused.
use std::sync::Arc;

use vstd::prelude::*;
use vstd::string::*;

use crate::chc;
use crate::chc::{
    op1, op2, AtomModel, ChcDtConstructor, ChcDtSelector, ChcExpr, ChcOp, ChcProblem, ChcSort,
    ChcVar, ClauseBody, ClauseHead, ClauseModel, ConstructorModel, ExprModel, HeadModel, HornClause,
    PredicateAtom, PredicateId, PredicateModel, ProblemModel, SelectorModel, SortModel, VarModel,
};
use crate::error;
use crate::error::{invalid_input, ErrorModel, NativeSolveError, NativeSolveResult};
use crate::overflow;
use crate::rewrite;
use crate::rewrite::eliminate_signed_int_bridges;
use crate::shared::{share, SharedCache};
use crate::text;
use crate::text::{assemble, decimal_text, parse_i128, parse_u128};
use crate::vc::{
    BinaryOp, ChcVc, DtConstructor, DtField, Expr, ExprValue, OverflowCheck, RelationApp,
    RelationDecl, Rule, RuleBody, Sort, SortKind, UnaryOp,
};

verus! {

/// The refusal of a verification condition.
pub open spec fn vc_error(detail: Seq<char>) -> ErrorModel {
    error::invalid_model("request.obligation.vc"@, detail)
}

fn invalid_vc(detail: &str) -> (refusal: NativeSolveError)
    ensures
        refusal@ == vc_error(detail@),
{
    invalid_input("request.obligation.vc", detail)
}

/// A message of three parts.
pub open spec fn phrase(before: Seq<char>, subject: Seq<char>, after: Seq<char>) -> Seq<char> {
    text::concat(seq![before, subject, after])
}

fn worded(before: &str, subject: &str, after: &str) -> (detail: String)
    ensures
        detail@ == phrase(before@, subject@, after@),
{
    let mut parts: Vec<&str> = Vec::new();
    parts.push(before);
    parts.push(subject);
    parts.push(after);
    assert(text::texts(parts@) =~= seq![before@, subject@, after@]);
    assemble(&parts)
}

/// The refusal of a sort.
pub open spec fn sort_error(sort: Sort) -> ErrorModel {
    vc_error(
        phrase("unsupported sort for native typed ay-chc lowering: "@, sort.rendering@, ""@),
    )
}

/// The Horn-clause sort for a submitted sort.
pub open spec fn lowered_sort(sort: Sort) -> Result<SortModel, ErrorModel>
    decreases sort,
{
    match sort.kind {
        SortKind::Bool => Ok(SortModel::Bool),
        SortKind::BitVec(width) => Ok(SortModel::BitVec(width.bits())),
        SortKind::Int => Ok(SortModel::Int),
        SortKind::Real => Ok(SortModel::Real),
        SortKind::Array(index, element) => match (lowered_sort(*index), lowered_sort(*element)) {
            (Err(fault), _) => Err(fault),
            (_, Err(fault)) => Err(fault),
            (Ok(i), Ok(e)) => Ok(SortModel::Array(Box::new(i), Box::new(e))),
        },
        SortKind::Datatype { name, constructors } => match lowered_constructors(constructors@) {
            Ok(lowered) => Ok(SortModel::Datatype { name: name@, constructors: lowered }),
            Err(fault) => Err(fault),
        },
        SortKind::Uninterpreted(name) => Ok(SortModel::Uninterpreted(name@)),
        SortKind::Unsupported => Err(sort_error(sort)),
    }
}

/// The Horn-clause constructors for submitted ones; the first refusal otherwise.
pub open spec fn lowered_constructors(constructors: Seq<DtConstructor>) -> Result<
    Seq<ConstructorModel>,
    ErrorModel,
>
    decreases constructors,
{
    if constructors.len() == 0 {
        Ok(Seq::empty())
    } else {
        match lowered_constructors(constructors.drop_last()) {
            Err(fault) => Err(fault),
            Ok(front) => match lowered_fields(constructors.last().fields@) {
                Err(fault) => Err(fault),
                Ok(selectors) => Ok(
                    front.push(
                        ConstructorModel { name: constructors.last().name@, selectors },
                    ),
                ),
            },
        }
    }
}

/// The Horn-clause fields for submitted ones; the first refusal otherwise.
pub open spec fn lowered_fields(fields: Seq<DtField>) -> Result<Seq<SelectorModel>, ErrorModel>
    decreases fields,
{
    if fields.len() == 0 {
        Ok(Seq::empty())
    } else {
        match lowered_fields(fields.drop_last()) {
            Err(fault) => Err(fault),
            Ok(front) => match lowered_sort(fields.last().sort) {
                Err(fault) => Err(fault),
                Ok(sort) => Ok(front.push(SelectorModel { name: fields.last().name@, sort })),
            },
        }
    }
}

/// A lowered sort, or the refusal, as its model.
pub open spec fn sort_outcome(result: NativeSolveResult<ChcSort>) -> Result<SortModel, ErrorModel> {
    match result {
        Ok(sort) => Ok(sort@),
        Err(fault) => Err(fault@),
    }
}

/// Lowers a sort.
pub fn lower_sort(sort: &Sort) -> (lowered: NativeSolveResult<ChcSort>)
    ensures
        sort_outcome(lowered) == lowered_sort(*sort),
    decreases *sort,
{
    match &sort.kind {
        SortKind::Bool => Ok(ChcSort::Bool),
        SortKind::BitVec(width) => Ok(ChcSort::BitVec(width.get())),
        SortKind::Int => Ok(ChcSort::Int),
        SortKind::Real => Ok(ChcSort::Real),
        SortKind::Array(index, element) => {
            let index = match lower_sort(index) {
                Ok(index) => index,
                Err(fault) => {
                    return Err(fault);
                },
            };
            match lower_sort(element) {
                Ok(element) => Ok(ChcSort::Array(Box::new(index), Box::new(element))),
                Err(fault) => Err(fault),
            }
        },
        SortKind::Datatype { name, constructors } => {
            let mut lowered: Vec<ChcDtConstructor> = Vec::new();
            let ghost mut models: Seq<ConstructorModel> = Seq::empty();
            assert(constructors@.take(0) =~= Seq::empty());
            for i in 0..constructors.len()
                invariant
                    sort.kind == (SortKind::Datatype { name: *name, constructors: *constructors }),
                    lowered_constructors(constructors@.take(i as int)) == Ok::<
                        Seq<ConstructorModel>,
                        ErrorModel,
                    >(models),
                    lowered@.len() == models.len(),
                    forall|j: int|
                        0 <= j < models.len() ==> chc::constructor_model(#[trigger] lowered@[j])
                            == models[j],
                    decreases_to!(*sort => constructors@),
            {
                let ghost next = constructors@.take(i + 1);
                assert(next.drop_last() =~= constructors@.take(i as int));
                assert(next.last() == constructors@[i as int]);
                match lower_fields(&constructors[i].fields) {
                    Ok(selectors) => {
                        let constructor = ChcDtConstructor {
                            name: constructors[i].name.clone(),
                            selectors,
                        };
                        proof {
                            let model = chc::constructor_model(constructor);
                            assert(model.selectors =~= selectors_model(selectors@));
                            models = models.push(model);
                        }
                        lowered.push(constructor);
                    },
                    Err(fault) => {
                        proof {
                            lemma_constructors_refused(constructors@, i + 1);
                        }
                        return Err(fault);
                    },
                }
            }
            assert(constructors@.take(constructors@.len() as int) =~= constructors@);
            let result = ChcSort::Datatype { name: name.clone(), constructors: lowered };
            assert(result@->Datatype_constructors =~= models);
            Ok(result)
        },
        SortKind::Uninterpreted(name) => Ok(ChcSort::Uninterpreted(name.clone())),
        SortKind::Unsupported => {
            let detail = worded(
                "unsupported sort for native typed ay-chc lowering: ",
                sort.rendering.as_str(),
                "",
            );
            Err(invalid_vc(detail.as_str()))
        },
    }
}

/// What a list of lowered fields is.
pub open spec fn selectors_model(selectors: Seq<ChcDtSelector>) -> Seq<SelectorModel> {
    Seq::new(selectors.len(), |i: int| chc::selector_model(selectors[i]))
}

fn lower_fields(fields: &Vec<DtField>) -> (lowered: NativeSolveResult<Vec<ChcDtSelector>>)
    ensures
        match lowered {
            Ok(selectors) => lowered_fields(fields@) == Ok::<Seq<SelectorModel>, ErrorModel>(
                selectors_model(selectors@),
            ),
            Err(fault) => lowered_fields(fields@) == Err::<Seq<SelectorModel>, ErrorModel>(fault@),
        },
    decreases *fields,
{
    let mut lowered: Vec<ChcDtSelector> = Vec::new();
    assert(fields@.take(0) =~= Seq::empty());
    assert(selectors_model(lowered@) =~= Seq::empty());
    for i in 0..fields.len()
        invariant
            lowered_fields(fields@.take(i as int)) == Ok::<Seq<SelectorModel>, ErrorModel>(
                selectors_model(lowered@),
            ),
            decreases_to!(*fields => fields@),
    {
        let ghost next = fields@.take(i + 1);
        assert(next.drop_last() =~= fields@.take(i as int));
        assert(next.last() == fields@[i as int]);
        match lower_sort(&fields[i].sort) {
            Ok(sort) => {
                let selector = ChcDtSelector { name: fields[i].name.clone(), sort };
                let ghost before = lowered@;
                lowered.push(selector);
                assert(selectors_model(lowered@) =~= selectors_model(before).push(
                    chc::selector_model(selector),
                ));
            },
            Err(fault) => {
                proof {
                    lemma_fields_refused(fields@, i + 1);
                }
                return Err(fault);
            },
        }
    }
    assert(fields@.take(fields@.len() as int) =~= fields@);
    Ok(lowered)
}

/// A refusal of the first constructors is a refusal of all.
proof fn lemma_constructors_refused(constructors: Seq<DtConstructor>, upto: int)
    requires
        0 <= upto <= constructors.len(),
        lowered_constructors(constructors.take(upto)) is Err,
    ensures
        lowered_constructors(constructors) == lowered_constructors(constructors.take(upto)),
    decreases constructors.len(),
{
    if upto == constructors.len() {
        assert(constructors.take(upto) =~= constructors);
    } else {
        assert(constructors.drop_last().take(upto) =~= constructors.take(upto));
        lemma_constructors_refused(constructors.drop_last(), upto);
    }
}

/// A refusal of the first fields is a refusal of all.
proof fn lemma_fields_refused(fields: Seq<DtField>, upto: int)
    requires
        0 <= upto <= fields.len(),
        lowered_fields(fields.take(upto)) is Err,
    ensures
        lowered_fields(fields) == lowered_fields(fields.take(upto)),
    decreases fields.len(),
{
    if upto == fields.len() {
        assert(fields.take(upto) =~= fields);
    } else {
        assert(fields.drop_last().take(upto) =~= fields.take(upto));
        lemma_fields_refused(fields.drop_last(), upto);
    }
}

/// The operator that an operator on one term becomes.
pub open spec fn unary_target(op: UnaryOp) -> ChcOp {
    match op {
        UnaryOp::Not => ChcOp::Not,
        UnaryOp::BvNeg => ChcOp::BvNeg,
        UnaryOp::BvNot => ChcOp::BvNot,
        UnaryOp::BvZeroExtend(extra) => ChcOp::BvZeroExtend(extra),
        UnaryOp::BvSignExtend(extra) => ChcOp::BvSignExtend(extra),
        UnaryOp::BvExtract(high, low) => ChcOp::BvExtract(high, low),
        UnaryOp::IntNeg => ChcOp::Neg,
        UnaryOp::RealNeg => ChcOp::Neg,
        UnaryOp::Bv2Int => ChcOp::Bv2Nat,
        UnaryOp::Int2Bv(width) => ChcOp::Int2Bv(width),
    }
}

fn target_of_unary(op: UnaryOp) -> (target: ChcOp)
    ensures
        target == unary_target(op),
{
    match op {
        UnaryOp::Not => ChcOp::Not,
        UnaryOp::BvNeg => ChcOp::BvNeg,
        UnaryOp::BvNot => ChcOp::BvNot,
        UnaryOp::BvZeroExtend(extra) => ChcOp::BvZeroExtend(extra),
        UnaryOp::BvSignExtend(extra) => ChcOp::BvSignExtend(extra),
        UnaryOp::BvExtract(high, low) => ChcOp::BvExtract(high, low),
        UnaryOp::IntNeg => ChcOp::Neg,
        UnaryOp::RealNeg => ChcOp::Neg,
        UnaryOp::Bv2Int => ChcOp::Bv2Nat,
        UnaryOp::Int2Bv(width) => ChcOp::Int2Bv(width),
    }
}

/// The operator that an operator on two terms becomes.
pub open spec fn binary_target(op: BinaryOp) -> ChcOp {
    match op {
        BinaryOp::Xor => ChcOp::Ne,
        BinaryOp::Implies => ChcOp::Implies,
        BinaryOp::Eq => ChcOp::Eq,
        BinaryOp::BvAdd => ChcOp::BvAdd,
        BinaryOp::BvSub => ChcOp::BvSub,
        BinaryOp::BvMul => ChcOp::BvMul,
        BinaryOp::BvUDiv => ChcOp::BvUDiv,
        BinaryOp::BvSDiv => ChcOp::BvSDiv,
        BinaryOp::BvURem => ChcOp::BvURem,
        BinaryOp::BvSRem => ChcOp::BvSRem,
        BinaryOp::BvAnd => ChcOp::BvAnd,
        BinaryOp::BvOr => ChcOp::BvOr,
        BinaryOp::BvXor => ChcOp::BvXor,
        BinaryOp::BvShl => ChcOp::BvShl,
        BinaryOp::BvLShr => ChcOp::BvLShr,
        BinaryOp::BvAShr => ChcOp::BvAShr,
        BinaryOp::BvULt => ChcOp::BvULt,
        BinaryOp::BvULe => ChcOp::BvULe,
        BinaryOp::BvUGt => ChcOp::BvUGt,
        BinaryOp::BvUGe => ChcOp::BvUGe,
        BinaryOp::BvSLt => ChcOp::BvSLt,
        BinaryOp::BvSLe => ChcOp::BvSLe,
        BinaryOp::BvSGt => ChcOp::BvSGt,
        BinaryOp::BvSGe => ChcOp::BvSGe,
        BinaryOp::BvConcat => ChcOp::BvConcat,
        BinaryOp::IntAdd => ChcOp::Add,
        BinaryOp::IntSub => ChcOp::Sub,
        BinaryOp::IntMul => ChcOp::Mul,
        BinaryOp::IntDiv => ChcOp::Div,
        BinaryOp::IntMod => ChcOp::Mod,
        BinaryOp::IntLt => ChcOp::Lt,
        BinaryOp::IntLe => ChcOp::Le,
        BinaryOp::IntGt => ChcOp::Gt,
        BinaryOp::IntGe => ChcOp::Ge,
        BinaryOp::RealAdd => ChcOp::Add,
        BinaryOp::RealSub => ChcOp::Sub,
        BinaryOp::RealMul => ChcOp::Mul,
        BinaryOp::RealDiv => ChcOp::Div,
        BinaryOp::RealLt => ChcOp::Lt,
        BinaryOp::RealLe => ChcOp::Le,
        BinaryOp::RealGt => ChcOp::Gt,
        BinaryOp::RealGe => ChcOp::Ge,
        BinaryOp::Select => ChcOp::Select,
    }
}

fn target_of_binary(op: BinaryOp) -> (target: ChcOp)
    ensures
        target == binary_target(op),
{
    match op {
        BinaryOp::Xor => ChcOp::Ne,
        BinaryOp::Implies => ChcOp::Implies,
        BinaryOp::Eq => ChcOp::Eq,
        BinaryOp::BvAdd => ChcOp::BvAdd,
        BinaryOp::BvSub => ChcOp::BvSub,
        BinaryOp::BvMul => ChcOp::BvMul,
        BinaryOp::BvUDiv => ChcOp::BvUDiv,
        BinaryOp::BvSDiv => ChcOp::BvSDiv,
        BinaryOp::BvURem => ChcOp::BvURem,
        BinaryOp::BvSRem => ChcOp::BvSRem,
        BinaryOp::BvAnd => ChcOp::BvAnd,
        BinaryOp::BvOr => ChcOp::BvOr,
        BinaryOp::BvXor => ChcOp::BvXor,
        BinaryOp::BvShl => ChcOp::BvShl,
        BinaryOp::BvLShr => ChcOp::BvLShr,
        BinaryOp::BvAShr => ChcOp::BvAShr,
        BinaryOp::BvULt => ChcOp::BvULt,
        BinaryOp::BvULe => ChcOp::BvULe,
        BinaryOp::BvUGt => ChcOp::BvUGt,
        BinaryOp::BvUGe => ChcOp::BvUGe,
        BinaryOp::BvSLt => ChcOp::BvSLt,
        BinaryOp::BvSLe => ChcOp::BvSLe,
        BinaryOp::BvSGt => ChcOp::BvSGt,
        BinaryOp::BvSGe => ChcOp::BvSGe,
        BinaryOp::BvConcat => ChcOp::BvConcat,
        BinaryOp::IntAdd => ChcOp::Add,
        BinaryOp::IntSub => ChcOp::Sub,
        BinaryOp::IntMul => ChcOp::Mul,
        BinaryOp::IntDiv => ChcOp::Div,
        BinaryOp::IntMod => ChcOp::Mod,
        BinaryOp::IntLt => ChcOp::Lt,
        BinaryOp::IntLe => ChcOp::Le,
        BinaryOp::IntGt => ChcOp::Gt,
        BinaryOp::IntGe => ChcOp::Ge,
        BinaryOp::RealAdd => ChcOp::Add,
        BinaryOp::RealSub => ChcOp::Sub,
        BinaryOp::RealMul => ChcOp::Mul,
        BinaryOp::RealDiv => ChcOp::Div,
        BinaryOp::RealLt => ChcOp::Lt,
        BinaryOp::RealLe => ChcOp::Le,
        BinaryOp::RealGt => ChcOp::Gt,
        BinaryOp::RealGe => ChcOp::Ge,
        BinaryOp::Select => ChcOp::Select,
    }
}

/// The width of an overflow predicate's operand; a refusal where it has none.
pub open spec fn overflow_width(operand: Expr) -> Result<u32, ErrorModel> {
    match operand.sort.kind {
        SortKind::BitVec(width) if width.bits() <= overflow::MAX_OVERFLOW_WIDTH => Ok(width.bits()),
        _ => Err(
            vc_error(
                phrase(
                    "overflow predicate operand is not a <=128-bit bitvector: "@,
                    operand.sort.rendering@,
                    ""@,
                ),
            ),
        ),
    }
}

/// The width of an overflow predicate's operand.
fn require_bv_width(operand: &Expr) -> (width: NativeSolveResult<u32>)
    ensures
        match width {
            Ok(width) => overflow_width(*operand) == Ok::<u32, ErrorModel>(width) && 1 <= width
                <= overflow::MAX_OVERFLOW_WIDTH,
            Err(fault) => overflow_width(*operand) == Err::<u32, ErrorModel>(fault@),
        },
{
    if let SortKind::BitVec(width) = &operand.sort.kind {
        let width: u32 = width.get();
        if width <= overflow::MAX_OVERFLOW_WIDTH {
            return Ok(width);
        }
    }
    let detail = worded(
        "overflow predicate operand is not a <=128-bit bitvector: ",
        operand.sort.rendering.as_str(),
        "",
    );
    Err(invalid_vc(detail.as_str()))
}

/// Whether an overflow predicate depends on the width of its operands.
pub open spec fn needs_width(check: OverflowCheck) -> bool {
    check != OverflowCheck::UnsignedSub && check != OverflowCheck::UnsignedAdd
}

/// The expansion of an overflow predicate.
pub open spec fn expansion(
    check: OverflowCheck,
    a: ExprModel,
    b: ExprModel,
    width: u32,
) -> ExprModel {
    match check {
        OverflowCheck::SignedDiv => overflow::sdiv_fits(a, b, width),
        OverflowCheck::UnsignedSub => overflow::unsigned_sub_fits(a, b),
        OverflowCheck::UnsignedAdd => overflow::unsigned_add_fits(a, b),
        OverflowCheck::SignedAdd => overflow::signed_step_fits(ChcOp::BvAdd, a, b, width),
        OverflowCheck::SignedSub => overflow::signed_step_fits(ChcOp::BvSub, a, b, width),
        OverflowCheck::UnsignedMul => overflow::unsigned_mul_fits(a, b, width),
        OverflowCheck::SignedMul => overflow::signed_mul_fits(a, b, width),
    }
}

/// That the first of several terms differs from each of the others.
pub open spec fn differences(first: ExprModel, rest: Seq<ExprModel>) -> Seq<ExprModel> {
    Seq::new(rest.len(), |i: int| chc::binary(ChcOp::Ne, first, rest[i]))
}

/// That each of several terms differs from each later one.
pub open spec fn all_differences(terms: Seq<ExprModel>) -> Seq<ExprModel>
    decreases terms.len(),
{
    if terms.len() == 0 {
        Seq::empty()
    } else {
        differences(terms[0], terms.skip(1)) + all_differences(terms.skip(1))
    }
}

/// The bit-vector literal that a numeral denotes.
pub open spec fn lowered_bitvec(value: Seq<char>, width: u32) -> Result<ExprModel, ErrorModel> {
    match text::natural_value(value) {
        Some(pattern) if pattern <= u128::MAX => Ok(ExprModel::BitVec(pattern, width)),
        _ => Err(
            vc_error(
                phrase("bitvector constant `"@, value, "` does not fit native ay-chc u128"@),
            ),
        ),
    }
}

/// The integer literal that a numeral denotes.
pub open spec fn lowered_int(value: Seq<char>) -> Result<ExprModel, ErrorModel> {
    match text::integer_value(value) {
        Some(number) if i128::MIN <= number <= i128::MAX => Ok(ExprModel::Int(number)),
        _ => Err(vc_error(phrase("integer constant `"@, value, "` does not fit i128"@))),
    }
}

/// The real literal that an integer numeral denotes.
pub open spec fn lowered_real(value: Seq<char>) -> Result<ExprModel, ErrorModel> {
    match text::integer_value(value) {
        Some(number) if i64::MIN <= number <= i64::MAX => Ok(ExprModel::Real(number, 1)),
        _ => Err(
            vc_error(phrase("real constant `"@, value, "` does not fit native ay-chc i64"@)),
        ),
    }
}

/// The Horn-clause term for a submitted term; the first refusal otherwise.
pub open spec fn lowered_expr(expr: Expr) -> Result<ExprModel, ErrorModel>
    decreases expr,
{
    match expr.value {
        ExprValue::BoolConst(value) => Ok(ExprModel::Bool(value)),
        ExprValue::BitVecConst { value, width } => lowered_bitvec(value@, width),
        ExprValue::IntConst(value) => lowered_int(value@),
        ExprValue::RealConst(value) => lowered_real(value@),
        ExprValue::Var { name } => match lowered_sort(expr.sort) {
            Ok(sort) => Ok(ExprModel::Var(VarModel { name: name@, sort })),
            Err(fault) => Err(fault),
        },
        ExprValue::Unary(op, inner) => match lowered_expr(*inner) {
            Ok(inner) => Ok(chc::unary(unary_target(op), inner)),
            Err(fault) => Err(fault),
        },
        ExprValue::Binary(op, left, right) => match (lowered_expr(*left), lowered_expr(*right)) {
            (Err(fault), _) => Err(fault),
            (_, Err(fault)) => Err(fault),
            (Ok(l), Ok(r)) => Ok(chc::binary(binary_target(op), l, r)),
        },
        ExprValue::And(args) => match lowered_exprs(args@) {
            Ok(terms) => Ok(chc::conjunction(terms)),
            Err(fault) => Err(fault),
        },
        ExprValue::Or(args) => match lowered_exprs(args@) {
            Ok(terms) => Ok(chc::disjunction(terms)),
            Err(fault) => Err(fault),
        },
        ExprValue::Distinct(args) => if args@.len() < 2 {
            Ok(ExprModel::Bool(true))
        } else {
            match lowered_exprs(args@) {
                Ok(terms) => Ok(chc::conjunction(all_differences(terms))),
                Err(fault) => Err(fault),
            }
        },
        ExprValue::Ite { cond, then_expr, else_expr } => match (
            lowered_expr(*cond),
            lowered_expr(*then_expr),
            lowered_expr(*else_expr),
        ) {
            (Err(fault), _, _) => Err(fault),
            (_, Err(fault), _) => Err(fault),
            (_, _, Err(fault)) => Err(fault),
            (Ok(c), Ok(t), Ok(e)) => Ok(ExprModel::Op(ChcOp::Ite, seq![c, t, e])),
        },
        ExprValue::Store { array, index, value } => match (
            lowered_expr(*array),
            lowered_expr(*index),
            lowered_expr(*value),
        ) {
            (Err(fault), _, _) => Err(fault),
            (_, Err(fault), _) => Err(fault),
            (_, _, Err(fault)) => Err(fault),
            (Ok(a), Ok(i), Ok(v)) => Ok(ExprModel::Op(ChcOp::Store, seq![a, i, v])),
        },
        ExprValue::ConstArray { index_sort, value } => match (
            lowered_sort(index_sort),
            lowered_expr(*value),
        ) {
            (Err(fault), _) => Err(fault),
            (_, Err(fault)) => Err(fault),
            (Ok(sort), Ok(value)) => Ok(ExprModel::ConstArray(sort, Box::new(value))),
        },
        ExprValue::FuncApp { name, args } => match (lowered_sort(expr.sort), lowered_exprs(args@)) {
            (Err(fault), _) => Err(fault),
            (_, Err(fault)) => Err(fault),
            (Ok(sort), Ok(terms)) => Ok(ExprModel::FuncApp(name@, sort, terms)),
        },
        ExprValue::DatatypeConstructor { constructor_name, args } => match (
            lowered_sort(expr.sort),
            lowered_exprs(args@),
        ) {
            (Err(fault), _) => Err(fault),
            (_, Err(fault)) => Err(fault),
            (Ok(sort), Ok(terms)) => Ok(ExprModel::FuncApp(constructor_name@, sort, terms)),
        },
        ExprValue::DatatypeSelector { selector_name, operand } => match (
            lowered_sort(expr.sort),
            lowered_expr(*operand),
        ) {
            (Err(fault), _) => Err(fault),
            (_, Err(fault)) => Err(fault),
            (Ok(sort), Ok(inner)) => Ok(ExprModel::FuncApp(selector_name@, sort, seq![inner])),
        },
        ExprValue::NoOverflow(check, left, right) => {
            let a = lowered_expr(*left);
            let b = lowered_expr(*right);
            if needs_width(check) && overflow_width(*left) is Err {
                Err(overflow_width(*left)->Err_0)
            } else if check == OverflowCheck::UnsignedSub && b is Err {
                b
            } else if a is Err {
                a
            } else if b is Err {
                b
            } else {
                Ok(expansion(check, a->Ok_0, b->Ok_0, overflow_width(*left)->Ok_0))
            }
        },
        ExprValue::NegNoOverflow(inner) => match (overflow_width(*inner), lowered_expr(*inner)) {
            (Err(fault), _) => Err(fault),
            (_, Err(fault)) => Err(fault),
            (Ok(width), Ok(a)) => Ok(overflow::neg_fits(a, width)),
        },
        ExprValue::Unsupported(rendering) => Err(
            vc_error(
                phrase(
                    "unsupported expression for native typed ay-chc lowering: "@,
                    rendering@,
                    ""@,
                ),
            ),
        ),
    }
}

/// The Horn-clause terms for several submitted terms; the first refusal
/// otherwise.
pub open spec fn lowered_exprs(exprs: Seq<Arc<Expr>>) -> Result<Seq<ExprModel>, ErrorModel>
    decreases exprs,
{
    if exprs.len() == 0 {
        Ok(Seq::empty())
    } else {
        match lowered_exprs(exprs.drop_last()) {
            Err(fault) => Err(fault),
            Ok(front) => match lowered_expr(*exprs.last()) {
                Err(fault) => Err(fault),
                Ok(last) => Ok(front.push(last)),
            },
        }
    }
}

/// A lowered term, or the refusal, as its model.
pub open spec fn expr_outcome(result: NativeSolveResult<Arc<ChcExpr>>) -> Result<
    ExprModel,
    ErrorModel,
> {
    match result {
        Ok(expr) => Ok(expr@),
        Err(fault) => Err(fault@),
    }
}

/// Lowered terms, or the refusal, as their models.
pub open spec fn exprs_outcome(result: NativeSolveResult<Vec<Arc<ChcExpr>>>) -> Result<
    Seq<ExprModel>,
    ErrorModel,
> {
    match result {
        Ok(exprs) => Ok(chc::terms_model(exprs@)),
        Err(fault) => Err(fault@),
    }
}

/// A refusal of the first terms is a refusal of all.
proof fn lemma_exprs_refused(exprs: Seq<Arc<Expr>>, upto: int)
    requires
        0 <= upto <= exprs.len(),
        lowered_exprs(exprs.take(upto)) is Err,
    ensures
        lowered_exprs(exprs) == lowered_exprs(exprs.take(upto)),
    decreases exprs.len(),
{
    if upto == exprs.len() {
        assert(exprs.take(upto) =~= exprs);
    } else {
        assert(exprs.drop_last().take(upto) =~= exprs.take(upto));
        lemma_exprs_refused(exprs.drop_last(), upto);
    }
}

/// Lowers terms, each shared one once.
struct Lowerer {
    memo: SharedCache<Expr, ChcExpr>,
}

impl Lowerer {
    spec fn wf(&self) -> bool {
        forall|key: Expr, value: ChcExpr| #[trigger]
            self.memo.records(key, value) ==> lowered_expr(key) == Ok::<ExprModel, ErrorModel>(
                value@,
            )
    }

    fn lower(&mut self, expr: &Arc<Expr>) -> (lowered: NativeSolveResult<Arc<ChcExpr>>)
        requires
            old(self).wf(),
        ensures
            final(self).wf(),
            expr_outcome(lowered) == lowered_expr(**expr),
        decreases **expr, 2int,
    {
        match self.memo.lookup(expr) {
            Some(known) => {
                return Ok(known);
            },
            None => {},
        }
        let lowered = self.lower_expr_node(expr);
        match &lowered {
            Ok(term) => {
                self.memo.remember(expr, term);
            },
            Err(_) => {},
        }
        lowered
    }

    fn lower_exprs(&mut self, exprs: &Vec<Arc<Expr>>) -> (lowered: NativeSolveResult<
        Vec<Arc<ChcExpr>>,
    >)
        requires
            old(self).wf(),
        ensures
            final(self).wf(),
            exprs_outcome(lowered) == lowered_exprs(exprs@),
        decreases *exprs, 0int,
    {
        let mut terms: Vec<Arc<ChcExpr>> = Vec::new();
        assert(exprs@.take(0) =~= Seq::empty());
        assert(chc::terms_model(terms@) =~= Seq::empty());
        for i in 0..exprs.len()
            invariant
                self.wf(),
                decreases_to!(*exprs => exprs@),
                lowered_exprs(exprs@.take(i as int)) == Ok::<Seq<ExprModel>, ErrorModel>(
                    chc::terms_model(terms@),
                ),
        {
            let ghost next = exprs@.take(i + 1);
            assert(next.drop_last() =~= exprs@.take(i as int));
            assert(next.last() == exprs@[i as int]);
            match self.lower(&exprs[i]) {
                Ok(term) => {
                    let ghost before = terms@;
                    let ghost model = term@;
                    terms.push(term);
                    assert(chc::terms_model(terms@) =~= chc::terms_model(before).push(model));
                },
                Err(fault) => {
                    proof {
                        lemma_exprs_refused(exprs@, i + 1);
                    }
                    return Err(fault);
                },
            }
        }
        assert(exprs@.take(exprs@.len() as int) =~= exprs@);
        Ok(terms)
    }
}

impl Lowerer {
    fn lower_expr_node(&mut self, expr: &Expr) -> (lowered: NativeSolveResult<Arc<ChcExpr>>)
        requires
            old(self).wf(),
        ensures
            final(self).wf(),
            expr_outcome(lowered) == lowered_expr(*expr),
        decreases *expr, 1int,
    {
        match &expr.value {
            ExprValue::BoolConst(value) => Ok(Arc::new(ChcExpr::Bool(*value))),
            ExprValue::BitVecConst { value, width } => lower_bitvec_constant(value, *width),
            ExprValue::IntConst(value) => lower_int_constant(value),
            ExprValue::RealConst(value) => lower_real_constant(value),
            ExprValue::Var { name } => match lower_sort(&expr.sort) {
                Ok(sort) => Ok(Arc::new(ChcExpr::Var(ChcVar::new(name.clone(), sort)))),
                Err(fault) => Err(fault),
            },
            ExprValue::Unary(op, inner) => match self.lower(inner) {
                Ok(term) => Ok(op1(target_of_unary(*op), term)),
                Err(fault) => Err(fault),
            },
            ExprValue::Binary(op, left, right) => {
                let left_term = match self.lower(left) {
                    Ok(term) => term,
                    Err(fault) => {
                        return Err(fault);
                    },
                };
                match self.lower(right) {
                    Ok(term) => Ok(op2(target_of_binary(*op), left_term, term)),
                    Err(fault) => Err(fault),
                }
            },
            ExprValue::And(args) => match self.lower_exprs(args) {
                Ok(terms) => Ok(ChcExpr::and_vec(terms)),
                Err(fault) => Err(fault),
            },
            ExprValue::Or(args) => match self.lower_exprs(args) {
                Ok(terms) => Ok(ChcExpr::or_vec(terms)),
                Err(fault) => Err(fault),
            },
            ExprValue::Distinct(args) => {
                if args.len() < 2 {
                    return Ok(Arc::new(ChcExpr::Bool(true)));
                }
                match self.lower_exprs(args) {
                    Ok(terms) => Ok(ChcExpr::and_vec(disequalities(&terms))),
                    Err(fault) => Err(fault),
                }
            },
            ExprValue::Ite { cond, then_expr, else_expr } => self.lower_ternary(
                ChcOp::Ite,
                cond,
                then_expr,
                else_expr,
                Ghost(*expr),
            ),
            ExprValue::Store { array, index, value } => self.lower_ternary(
                ChcOp::Store,
                array,
                index,
                value,
                Ghost(*expr),
            ),
            ExprValue::ConstArray { index_sort, value } => {
                let sort = match lower_sort(index_sort) {
                    Ok(sort) => sort,
                    Err(fault) => {
                        return Err(fault);
                    },
                };
                match self.lower(value) {
                    Ok(term) => Ok(Arc::new(ChcExpr::ConstArray(sort, term))),
                    Err(fault) => Err(fault),
                }
            },
            ExprValue::FuncApp { name, args } => self.lower_application(name, &expr.sort, args),
            ExprValue::DatatypeConstructor { constructor_name, args } => self.lower_application(
                constructor_name,
                &expr.sort,
                args,
            ),
            ExprValue::DatatypeSelector { selector_name, operand } => {
                let sort = match lower_sort(&expr.sort) {
                    Ok(sort) => sort,
                    Err(fault) => {
                        return Err(fault);
                    },
                };
                match self.lower(operand) {
                    Ok(term) => {
                        let mut args: Vec<Arc<ChcExpr>> = Vec::new();
                        args.push(term);
                        proof {
                            chc::lemma_model_of_one(args@);
                        }
                        Ok(Arc::new(ChcExpr::FuncApp(selector_name.clone(), sort, args)))
                    },
                    Err(fault) => Err(fault),
                }
            },
            ExprValue::NoOverflow(check, left, right) => self.lower_no_overflow(
                *check,
                left,
                right,
                Ghost(*expr),
            ),
            ExprValue::NegNoOverflow(inner) => {
                let width: u32 = match require_bv_width(inner) {
                    Ok(width) => width,
                    Err(fault) => {
                        return Err(fault);
                    },
                };
                match self.lower(inner) {
                    Ok(term) => Ok(overflow::no_overflow_neg(term, width)),
                    Err(fault) => Err(fault),
                }
            },
            ExprValue::Unsupported(rendering) => {
                let detail = worded(
                    "unsupported expression for native typed ay-chc lowering: ",
                    rendering.as_str(),
                    "",
                );
                Err(invalid_vc(detail.as_str()))
            },
        }
    }

    /// Lowers three operands of an operator, in order.
    fn lower_ternary(
        &mut self,
        op: ChcOp,
        first: &Arc<Expr>,
        second: &Arc<Expr>,
        third: &Arc<Expr>,
        Ghost(whole): Ghost<Expr>,
    ) -> (lowered: NativeSolveResult<Arc<ChcExpr>>)
        requires
            old(self).wf(),
            decreases_to!(whole => **first),
            decreases_to!(whole => **second),
            decreases_to!(whole => **third),
        ensures
            final(self).wf(),
            expr_outcome(lowered) == match (
                lowered_expr(**first),
                lowered_expr(**second),
                lowered_expr(**third),
            ) {
                (Err(fault), _, _) => Err(fault),
                (_, Err(fault), _) => Err(fault),
                (_, _, Err(fault)) => Err(fault),
                (Ok(a), Ok(b), Ok(c)) => Ok(ExprModel::Op(op, seq![a, b, c])),
            },
        decreases whole, 0int,
    {
        let mut args: Vec<Arc<ChcExpr>> = Vec::new();
        match self.lower(first) {
            Ok(term) => {
                args.push(term);
            },
            Err(fault) => {
                return Err(fault);
            },
        }
        match self.lower(second) {
            Ok(term) => {
                args.push(term);
            },
            Err(fault) => {
                return Err(fault);
            },
        }
        match self.lower(third) {
            Ok(term) => {
                args.push(term);
            },
            Err(fault) => {
                return Err(fault);
            },
        }
        proof {
            chc::lemma_model_of_three(args@);
        }
        Ok(Arc::new(ChcExpr::Op(op, args)))
    }

    /// Lowers a symbol applied to terms.
    fn lower_application(&mut self, name: &String, sort: &Sort, args: &Vec<Arc<Expr>>) -> (lowered:
        NativeSolveResult<Arc<ChcExpr>>)
        requires
            old(self).wf(),
        ensures
            final(self).wf(),
            expr_outcome(lowered) == match (lowered_sort(*sort), lowered_exprs(args@)) {
                (Err(fault), _) => Err(fault),
                (_, Err(fault)) => Err(fault),
                (Ok(sort), Ok(terms)) => Ok(ExprModel::FuncApp(name@, sort, terms)),
            },
        decreases *args, 1int,
    {
        let sort = match lower_sort(sort) {
            Ok(sort) => sort,
            Err(fault) => {
                return Err(fault);
            },
        };
        match self.lower_exprs(args) {
            Ok(terms) => Ok(Arc::new(ChcExpr::FuncApp(name.clone(), sort, terms))),
            Err(fault) => Err(fault),
        }
    }

    /// Expands an overflow predicate.
    fn lower_no_overflow(
        &mut self,
        check: OverflowCheck,
        left: &Arc<Expr>,
        right: &Arc<Expr>,
        Ghost(whole): Ghost<Expr>,
    ) -> (lowered: NativeSolveResult<Arc<ChcExpr>>)
        requires
            old(self).wf(),
            whole.value == ExprValue::NoOverflow(check, *left, *right),
        ensures
            final(self).wf(),
            expr_outcome(lowered) == lowered_expr(whole),
        decreases whole, 0int,
    {
        match check {
            OverflowCheck::UnsignedSub => {
                let b = match self.lower(right) {
                    Ok(term) => term,
                    Err(fault) => {
                        return Err(fault);
                    },
                };
                return match self.lower(left) {
                    Ok(a) => Ok(overflow::no_underflow_sub_unsigned(a, b)),
                    Err(fault) => Err(fault),
                };
            },
            _ => {},
        }
        let width: u32 = match check {
            OverflowCheck::UnsignedAdd => 1,
            _ => match require_bv_width(left) {
                Ok(width) => width,
                Err(fault) => {
                    return Err(fault);
                },
            },
        };
        let a = match self.lower(left) {
            Ok(term) => term,
            Err(fault) => {
                return Err(fault);
            },
        };
        let b = match self.lower(right) {
            Ok(term) => term,
            Err(fault) => {
                return Err(fault);
            },
        };
        Ok(
            match check {
                OverflowCheck::SignedDiv => overflow::no_overflow_sdiv(a, b, width),
                OverflowCheck::UnsignedSub => overflow::no_underflow_sub_unsigned(a, b),
                OverflowCheck::UnsignedAdd => overflow::no_overflow_add_unsigned(a, b),
                OverflowCheck::SignedAdd => overflow::no_overflow_addsub_signed(
                    ChcOp::BvAdd,
                    a,
                    b,
                    width,
                ),
                OverflowCheck::SignedSub => overflow::no_overflow_addsub_signed(
                    ChcOp::BvSub,
                    a,
                    b,
                    width,
                ),
                OverflowCheck::UnsignedMul => overflow::no_overflow_mul_unsigned(a, b, width),
                OverflowCheck::SignedMul => overflow::no_overflow_mul_signed(a, b, width),
            },
        )
    }
}

/// That each of several terms differs from each later one.
fn disequalities(terms: &Vec<Arc<ChcExpr>>) -> (pairs: Vec<Arc<ChcExpr>>)
    ensures
        chc::terms_model(pairs@) == all_differences(chc::terms_model(terms@)),
{
    let ghost models = chc::terms_model(terms@);
    let mut pairs: Vec<Arc<ChcExpr>> = Vec::new();
    assert(models.skip(0) =~= models);
    assert(chc::terms_model(pairs@) + all_differences(models) =~= all_differences(models));
    for left in 0..terms.len()
        invariant
            models == chc::terms_model(terms@),
            chc::terms_model(pairs@) + all_differences(models.skip(left as int))
                == all_differences(models),
    {
        let ghost base = chc::terms_model(pairs@);
        let ghost rest = models.skip(left as int);
        assert(rest[0] == terms@[left as int]@);
        assert(rest.skip(1) =~= models.skip(left + 1));
        assert(differences(rest[0], rest.skip(1).take(0)) =~= Seq::empty());
        assert(base + differences(rest[0], rest.skip(1).take(0)) =~= base);
        for right in left + 1..terms.len()
            invariant
                left < terms@.len(),
                models == chc::terms_model(terms@),
                rest == models.skip(left as int),
                rest[0] == terms@[left as int]@,
                chc::terms_model(pairs@) == base + differences(
                    rest[0],
                    rest.skip(1).take(right - left - 1),
                ),
        {
            let pair = op2(ChcOp::Ne, share(&terms[left]), share(&terms[right]));
            let ghost model = pair@;
            let ghost before = pairs@;
            pairs.push(pair);
            proof {
                assert(chc::terms_model(pairs@) =~= chc::terms_model(before).push(model));
                assert(rest.skip(1)[right - left - 1] == terms@[right as int]@);
                assert(differences(rest[0], rest.skip(1).take(right - left)) =~= differences(
                    rest[0],
                    rest.skip(1).take(right - left - 1),
                ).push(model));
            }
        }
        proof {
            assert(rest.skip(1).take(terms@.len() - left - 1) =~= rest.skip(1));
            assert(base + (differences(rest[0], rest.skip(1)) + all_differences(rest.skip(1)))
                =~= base + differences(rest[0], rest.skip(1)) + all_differences(rest.skip(1)));
        }
    }
    assert(models.skip(terms@.len() as int) =~= Seq::empty());
    assert(chc::terms_model(pairs@) + Seq::<ExprModel>::empty() =~= chc::terms_model(pairs@));
    pairs
}

fn lower_bitvec_constant(value: &String, width: u32) -> (lowered: NativeSolveResult<Arc<ChcExpr>>)
    ensures
        expr_outcome(lowered) == lowered_bitvec(value@, width),
{
    match parse_u128(value.as_str()) {
        Some(pattern) => Ok(Arc::new(ChcExpr::BitVec(pattern, width))),
        None => {
            let detail = worded(
                "bitvector constant `",
                value.as_str(),
                "` does not fit native ay-chc u128",
            );
            Err(invalid_vc(detail.as_str()))
        },
    }
}

/// The integer literal that a numeral denotes.
pub fn lower_int_constant(value: &String) -> (lowered: NativeSolveResult<Arc<ChcExpr>>)
    ensures
        expr_outcome(lowered) == lowered_int(value@),
{
    match parse_i128(value.as_str()) {
        Some(number) => Ok(Arc::new(ChcExpr::Int(number))),
        None => {
            let detail = worded("integer constant `", value.as_str(), "` does not fit i128");
            Err(invalid_vc(detail.as_str()))
        },
    }
}

fn lower_real_constant(value: &String) -> (lowered: NativeSolveResult<Arc<ChcExpr>>)
    ensures
        expr_outcome(lowered) == lowered_real(value@),
{
    match parse_i128(value.as_str()) {
        Some(number) => {
            if i64::MIN as i128 <= number && number <= i64::MAX as i128 {
                return Ok(Arc::new(ChcExpr::Real(number as i64, 1)));
            }
        },
        None => {},
    }
    let detail = worded("real constant `", value.as_str(), "` does not fit native ay-chc i64");
    Err(invalid_vc(detail.as_str()))
}

/// Lowers a term.
pub fn lower_expr(expr: &Arc<Expr>) -> (lowered: NativeSolveResult<Arc<ChcExpr>>)
    ensures
        expr_outcome(lowered) == lowered_expr(**expr),
{
    let mut lowerer = Lowerer { memo: SharedCache::new() };
    lowerer.lower(expr)
}

/// How far a lowering departed from an exact translation.
///
/// Nothing here drops or invents a value: what cannot be translated exactly is
/// refused, so all counts are zero where a lowering succeeds.
#[derive(Debug, Clone, Copy, PartialEq, Eq, Structural)]
pub struct TypedChcLoweringAccounting {
    /// Constructs dropped.
    pub translation_drops: u64,
    /// Values left arbitrary.
    pub havocs: u64,
    /// Undefined values left arbitrary.
    pub undef_diagnostic_havocs: u64,
}

impl TypedChcLoweringAccounting {
    /// The accounting of a translation that lost nothing.
    pub open spec fn exact() -> TypedChcLoweringAccounting {
        TypedChcLoweringAccounting { translation_drops: 0, havocs: 0, undef_diagnostic_havocs: 0 }
    }

    /// Whether nothing was dropped and nothing left arbitrary.
    pub fn is_exact(self) -> (exact: bool)
        ensures
            exact == (self == TypedChcLoweringAccounting::exact()),
    {
        self.translation_drops == 0 && self.havocs == 0 && self.undef_diagnostic_havocs == 0
    }
}

impl Default for TypedChcLoweringAccounting {
    fn default() -> (accounting: TypedChcLoweringAccounting)
        ensures
            accounting == TypedChcLoweringAccounting::exact(),
    {
        TypedChcLoweringAccounting { translation_drops: 0, havocs: 0, undef_diagnostic_havocs: 0 }
    }
}

/// The Horn-clause sorts for submitted ones; the first refusal otherwise.
pub open spec fn lowered_sorts(sorts: Seq<Sort>) -> Result<Seq<SortModel>, ErrorModel>
    decreases sorts.len(),
{
    if sorts.len() == 0 {
        Ok(Seq::empty())
    } else {
        match lowered_sorts(sorts.drop_last()) {
            Err(fault) => Err(fault),
            Ok(front) => match lowered_sort(sorts.last()) {
                Err(fault) => Err(fault),
                Ok(last) => Ok(front.push(last)),
            },
        }
    }
}

/// The predicates for submitted relations; the first refusal otherwise.
pub open spec fn lowered_relations(relations: Seq<RelationDecl>) -> Result<
    Seq<PredicateModel>,
    ErrorModel,
>
    decreases relations.len(),
{
    if relations.len() == 0 {
        Ok(Seq::empty())
    } else {
        match lowered_relations(relations.drop_last()) {
            Err(fault) => Err(fault),
            Ok(front) => match lowered_sorts(relations.last().arg_sorts@) {
                Err(fault) => Err(fault),
                Ok(arg_sorts) => Ok(
                    front.push(PredicateModel { name: relations.last().name@, arg_sorts }),
                ),
            },
        }
    }
}

/// The index of the last relation declared under a name.
pub open spec fn declared_at(relations: Seq<RelationDecl>, name: Seq<char>) -> Option<nat>
    decreases relations.len(),
{
    if relations.len() == 0 {
        None
    } else if relations.last().name@ == name {
        Some((relations.len() - 1) as nat)
    } else {
        declared_at(relations.drop_last(), name)
    }
}

/// The predicate that a name stands for.
pub open spec fn lowered_name(relations: Seq<RelationDecl>, name: Seq<char>) -> Result<
    PredicateId,
    ErrorModel,
> {
    match declared_at(relations, name) {
        Some(index) => Ok(PredicateId { index: index as usize }),
        None => Err(vc_error(phrase("relation `"@, name, "` was not declared"@))),
    }
}

/// The atom for an applied relation.
pub open spec fn lowered_app(relations: Seq<RelationDecl>, app: RelationApp) -> Result<
    AtomModel,
    ErrorModel,
> {
    match (lowered_name(relations, app.name@), lowered_exprs(app.args@)) {
        (Err(fault), _) => Err(fault),
        (_, Err(fault)) => Err(fault),
        (Ok(predicate), Ok(args)) => Ok(AtomModel { predicate, args }),
    }
}

/// The atoms for the relation of a rule body, where it has one.
pub open spec fn lowered_premise(
    relations: Seq<RelationDecl>,
    premise: Option<RelationApp>,
) -> Result<Seq<AtomModel>, ErrorModel> {
    match premise {
        None => Ok(Seq::empty()),
        Some(app) => match lowered_app(relations, app) {
            Ok(atom) => Ok(seq![atom]),
            Err(fault) => Err(fault),
        },
    }
}

/// The constraint for the constraints of a rule body.
pub open spec fn lowered_constraint(constraints: Seq<Arc<Expr>>) -> Result<
    Option<ExprModel>,
    ErrorModel,
> {
    match lowered_exprs(constraints) {
        Err(fault) => Err(fault),
        Ok(terms) => Ok(
            if terms.len() == 0 {
                None
            } else {
                Some(chc::conjunction(terms))
            },
        ),
    }
}

/// The clause for a rule, its integer bridges eliminated where that is exact.
pub open spec fn lowered_rule(relations: Seq<RelationDecl>, rule: Rule) -> Result<
    ClauseModel,
    ErrorModel,
> {
    match (
        lowered_app(relations, rule.head),
        lowered_premise(relations, rule.body.relation),
        lowered_constraint(rule.body.constraints@),
    ) {
        (Err(fault), _, _) => Err(fault),
        (_, Err(fault), _) => Err(fault),
        (_, _, Err(fault)) => Err(fault),
        (Ok(head), Ok(atoms), Ok(constraint)) => Ok(
            ClauseModel {
                atoms,
                constraint: rewrite::without_bridges(constraint, atoms, head.args),
                head: HeadModel::Predicate(head),
            },
        ),
    }
}

/// The clauses for several rules; the first refusal otherwise.
pub open spec fn lowered_rules(relations: Seq<RelationDecl>, rules: Seq<Rule>) -> Result<
    Seq<ClauseModel>,
    ErrorModel,
>
    decreases rules.len(),
{
    if rules.len() == 0 {
        Ok(Seq::empty())
    } else {
        match lowered_rules(relations, rules.drop_last()) {
            Err(fault) => Err(fault),
            Ok(front) => match lowered_rule(relations, rules.last()) {
                Err(fault) => Err(fault),
                Ok(last) => Ok(front.push(last)),
            },
        }
    }
}

/// The query clause: is the target derivable?
pub open spec fn query_clause(target: PredicateId) -> ClauseModel {
    ClauseModel {
        atoms: seq![AtomModel { predicate: target, args: Seq::empty() }],
        constraint: None,
        head: HeadModel::False,
    }
}

/// The refusal of a query target that takes arguments.
pub open spec fn arity_error(target: Seq<char>, arity: nat) -> ErrorModel {
    vc_error(
        text::concat(
            seq![
                "native typed CHC query target `"@,
                target,
                "` has arity "@,
                text::decimal(arity),
                ", but ay-chc query clauses require a nullary target"@,
            ],
        ),
    )
}

/// The Horn-clause problem for a verification condition; the first refusal
/// otherwise.
pub open spec fn lowered_vc(vc: ChcVc) -> Result<ProblemModel, ErrorModel> {
    let relations = vc.relations@;
    match (
        lowered_relations(relations),
        lowered_rules(relations, vc.rules@),
        lowered_name(relations, vc.query_target@),
    ) {
        (Err(fault), _, _) => Err(fault),
        (_, Err(fault), _) => Err(fault),
        (_, _, Err(fault)) => Err(fault),
        (Ok(predicates), Ok(clauses), Ok(target)) => {
            let arity = predicates[target.index as int].arg_sorts.len();
            if arity != 0 {
                Err(arity_error(vc.query_target@, arity))
            } else {
                Ok(
                    ProblemModel {
                        predicates,
                        clauses: clauses.push(query_clause(target)),
                        fixedpoint_format: false,
                        stripped_body_forall: false,
                        has_datatype_defs: false,
                        has_action_decomposition: false,
                    },
                )
            }
        },
    }
}

proof fn lemma_sorts_refused(sorts: Seq<Sort>, upto: int)
    requires
        0 <= upto <= sorts.len(),
        lowered_sorts(sorts.take(upto)) is Err,
    ensures
        lowered_sorts(sorts) == lowered_sorts(sorts.take(upto)),
    decreases sorts.len(),
{
    if upto == sorts.len() {
        assert(sorts.take(upto) =~= sorts);
    } else {
        assert(sorts.drop_last().take(upto) =~= sorts.take(upto));
        lemma_sorts_refused(sorts.drop_last(), upto);
    }
}

proof fn lemma_relations_refused(relations: Seq<RelationDecl>, upto: int)
    requires
        0 <= upto <= relations.len(),
        lowered_relations(relations.take(upto)) is Err,
    ensures
        lowered_relations(relations) == lowered_relations(relations.take(upto)),
    decreases relations.len(),
{
    if upto == relations.len() {
        assert(relations.take(upto) =~= relations);
    } else {
        assert(relations.drop_last().take(upto) =~= relations.take(upto));
        lemma_relations_refused(relations.drop_last(), upto);
    }
}

proof fn lemma_rules_refused(relations: Seq<RelationDecl>, rules: Seq<Rule>, upto: int)
    requires
        0 <= upto <= rules.len(),
        lowered_rules(relations, rules.take(upto)) is Err,
    ensures
        lowered_rules(relations, rules) == lowered_rules(relations, rules.take(upto)),
    decreases rules.len(),
{
    if upto == rules.len() {
        assert(rules.take(upto) =~= rules);
    } else {
        assert(rules.drop_last().take(upto) =~= rules.take(upto));
        lemma_rules_refused(relations, rules.drop_last(), upto);
    }
}

/// There is one predicate per relation.
proof fn lemma_predicate_count(relations: Seq<RelationDecl>)
    ensures
        lowered_relations(relations) matches Ok(predicates) ==> predicates.len() == relations.len(),
    decreases relations.len(),
{
    if relations.len() > 0 {
        lemma_predicate_count(relations.drop_last());
    }
}

proof fn lemma_declared_in_range(relations: Seq<RelationDecl>, name: Seq<char>)
    ensures
        declared_at(relations, name) matches Some(index) ==> index < relations.len(),
    decreases relations.len(),
{
    if relations.len() > 0 {
        lemma_declared_in_range(relations.drop_last(), name);
    }
}

fn lower_sorts(sorts: &Vec<Sort>) -> (lowered: NativeSolveResult<Vec<ChcSort>>)
    ensures
        match lowered {
            Ok(own) => lowered_sorts(sorts@) == Ok::<Seq<SortModel>, ErrorModel>(
                chc::sorts_model(own@),
            ),
            Err(fault) => lowered_sorts(sorts@) == Err::<Seq<SortModel>, ErrorModel>(fault@),
        },
{
    let mut lowered: Vec<ChcSort> = Vec::new();
    assert(sorts@.take(0) =~= Seq::empty());
    assert(chc::sorts_model(lowered@) =~= Seq::empty());
    for i in 0..sorts.len()
        invariant
            lowered_sorts(sorts@.take(i as int)) == Ok::<Seq<SortModel>, ErrorModel>(
                chc::sorts_model(lowered@),
            ),
    {
        let ghost next = sorts@.take(i + 1);
        assert(next.drop_last() =~= sorts@.take(i as int));
        assert(next.last() == sorts@[i as int]);
        match lower_sort(&sorts[i]) {
            Ok(sort) => {
                let ghost before = lowered@;
                let ghost model = sort@;
                lowered.push(sort);
                assert(chc::sorts_model(lowered@) =~= chc::sorts_model(before).push(model));
            },
            Err(fault) => {
                proof {
                    lemma_sorts_refused(sorts@, i + 1);
                }
                return Err(fault);
            },
        }
    }
    assert(sorts@.take(sorts@.len() as int) =~= sorts@);
    Ok(lowered)
}

/// The predicate that a name stands for.
fn relation_id(relations: &Vec<RelationDecl>, name: &String) -> (found: NativeSolveResult<
    PredicateId,
>)
    ensures
        match found {
            Ok(id) => lowered_name(relations@, name@) == Ok::<PredicateId, ErrorModel>(id)
                && id.index < relations@.len(),
            Err(fault) => lowered_name(relations@, name@) == Err::<PredicateId, ErrorModel>(fault@),
        },
{
    let mut left: usize = relations.len();
    assert(relations@.take(left as int) =~= relations@);
    while left > 0
        invariant
            left <= relations@.len(),
            declared_at(relations@, name@) == declared_at(relations@.take(left as int), name@),
        decreases left,
    {
        assert(relations@.take(left as int).drop_last() =~= relations@.take(left - 1));
        if relations[left - 1].name == *name {
            return Ok(PredicateId { index: left - 1 });
        }
        left = left - 1;
    }
    assert(relations@.take(0) =~= Seq::empty());
    let detail = worded("relation `", name.as_str(), "` was not declared");
    Err(invalid_vc(detail.as_str()))
}

fn lower_app(relations: &Vec<RelationDecl>, app: &RelationApp) -> (lowered: NativeSolveResult<
    PredicateAtom,
>)
    ensures
        match lowered {
            Ok(atom) => lowered_app(relations@, *app) == Ok::<AtomModel, ErrorModel>(atom@),
            Err(fault) => lowered_app(relations@, *app) == Err::<AtomModel, ErrorModel>(fault@),
        },
{
    let predicate = match relation_id(relations, &app.name) {
        Ok(id) => id,
        Err(fault) => {
            return Err(fault);
        },
    };
    let mut lowerer = Lowerer { memo: SharedCache::new() };
    match lowerer.lower_exprs(&app.args) {
        Ok(args) => Ok(PredicateAtom { predicate, args }),
        Err(fault) => Err(fault),
    }
}

/// Lowers the premises of a rule.
fn lower_rule_body(relations: &Vec<RelationDecl>, body: &RuleBody) -> (lowered: NativeSolveResult<
    ClauseBody,
>)
    ensures
        match lowered {
            Ok(own) => lowered_premise(relations@, body.relation) == Ok::<
                Seq<AtomModel>,
                ErrorModel,
            >(chc::atoms_model(own.predicates@)) && lowered_constraint(body.constraints@) == Ok::<
                Option<ExprModel>,
                ErrorModel,
            >(chc::option_model(own.constraint)),
            Err(fault) => if lowered_premise(relations@, body.relation) is Err {
                lowered_premise(relations@, body.relation) == Err::<Seq<AtomModel>, ErrorModel>(
                    fault@,
                )
            } else {
                lowered_constraint(body.constraints@) == Err::<Option<ExprModel>, ErrorModel>(
                    fault@,
                )
            },
        },
{
    let mut predicates: Vec<PredicateAtom> = Vec::new();
    match &body.relation {
        Some(app) => match lower_app(relations, app) {
            Ok(atom) => {
                predicates.push(atom);
            },
            Err(fault) => {
                return Err(fault);
            },
        },
        None => {},
    }
    assert(lowered_premise(relations@, body.relation)->Ok_0 =~= chc::atoms_model(predicates@));
    let mut lowerer = Lowerer { memo: SharedCache::new() };
    let terms = match lowerer.lower_exprs(&body.constraints) {
        Ok(terms) => terms,
        Err(fault) => {
            return Err(fault);
        },
    };
    assert(chc::terms_model(terms@).len() == terms@.len());
    let constraint = if terms.len() == 0 {
        None
    } else {
        Some(ChcExpr::and_vec(terms))
    };
    Ok(ClauseBody { predicates, constraint })
}

/// Lowers a rule.
fn lower_rule(relations: &Vec<RelationDecl>, rule: &Rule) -> (lowered: NativeSolveResult<
    HornClause,
>)
    ensures
        match lowered {
            Ok(clause) => lowered_rule(relations@, *rule) == Ok::<ClauseModel, ErrorModel>(clause@),
            Err(fault) => lowered_rule(relations@, *rule) == Err::<ClauseModel, ErrorModel>(fault@),
        },
{
    let head = match lower_app(relations, &rule.head) {
        Ok(atom) => atom,
        Err(fault) => {
            return Err(fault);
        },
    };
    match lower_rule_body(relations, &rule.body) {
        Ok(body) => {
            let body = eliminate_signed_int_bridges(body, &head.args);
            Ok(HornClause { body, head: ClauseHead::Predicate(head) })
        },
        Err(fault) => Err(fault),
    }
}

/// The refusal of a query target that takes arguments.
fn arity_refusal(target: &String, arity: usize) -> (refusal: NativeSolveError)
    ensures
        refusal@ == arity_error(target@, arity as nat),
{
    let count = decimal_text(arity as u64);
    let mut parts: Vec<&str> = Vec::new();
    parts.push("native typed CHC query target `");
    parts.push(target.as_str());
    parts.push("` has arity ");
    parts.push(count.as_str());
    parts.push(", but ay-chc query clauses require a nullary target");
    assert(text::texts(parts@) =~= seq![
        "native typed CHC query target `"@,
        target@,
        "` has arity "@,
        text::decimal(arity as nat),
        ", but ay-chc query clauses require a nullary target"@,
    ]);
    let detail = assemble(&parts);
    invalid_vc(detail.as_str())
}

/// Lowers a verification condition, and says how exact the lowering was.
pub fn lower_obligation_with_accounting(vc: &ChcVc) -> (lowered: NativeSolveResult<
    (ChcProblem, TypedChcLoweringAccounting),
>)
    ensures
        match lowered {
            Ok((problem, accounting)) => lowered_vc(*vc) == Ok::<ProblemModel, ErrorModel>(problem@)
                && accounting == TypedChcLoweringAccounting::exact(),
            Err(fault) => lowered_vc(*vc) == Err::<ProblemModel, ErrorModel>(fault@),
        },
{
    let accounting = TypedChcLoweringAccounting::default();
    let mut problem = ChcProblem::new();
    assert(vc.relations@.take(0) =~= Seq::empty());
    for i in 0..vc.relations.len()
        invariant
            lowered_relations(vc.relations@.take(i as int)) == Ok::<
                Seq<PredicateModel>,
                ErrorModel,
            >(problem@.predicates),
            problem@.clauses == Seq::<ClauseModel>::empty(),
            !problem.fixedpoint_format,
            !problem.stripped_body_forall,
            !problem.has_datatype_defs,
            !problem.has_action_decomposition,
    {
        let ghost next = vc.relations@.take(i + 1);
        assert(next.drop_last() =~= vc.relations@.take(i as int));
        assert(next.last() == vc.relations@[i as int]);
        match lower_sorts(&vc.relations[i].arg_sorts) {
            Ok(arg_sorts) => {
                let _id = problem.declare_predicate(vc.relations[i].name.clone(), arg_sorts);
            },
            Err(fault) => {
                proof {
                    lemma_relations_refused(vc.relations@, i + 1);
                }
                return Err(fault);
            },
        }
    }
    assert(vc.relations@.take(vc.relations@.len() as int) =~= vc.relations@);
    assert(vc.rules@.take(0) =~= Seq::empty());
    let ghost predicates = problem@.predicates;
    for i in 0..vc.rules.len()
        invariant
            lowered_relations(vc.relations@) == Ok::<Seq<PredicateModel>, ErrorModel>(predicates),
            problem@.predicates == predicates,
            lowered_rules(vc.relations@, vc.rules@.take(i as int)) == Ok::<
                Seq<ClauseModel>,
                ErrorModel,
            >(problem@.clauses),
            !problem.fixedpoint_format,
            !problem.stripped_body_forall,
            !problem.has_datatype_defs,
            !problem.has_action_decomposition,
    {
        let ghost next = vc.rules@.take(i + 1);
        assert(next.drop_last() =~= vc.rules@.take(i as int));
        assert(next.last() == vc.rules@[i as int]);
        match lower_rule(&vc.relations, &vc.rules[i]) {
            Ok(clause) => {
                problem.add_clause(clause);
            },
            Err(fault) => {
                proof {
                    lemma_rules_refused(vc.relations@, vc.rules@, i + 1);
                }
                return Err(fault);
            },
        }
    }
    assert(vc.rules@.take(vc.rules@.len() as int) =~= vc.rules@);
    let target = match relation_id(&vc.relations, &vc.query_target) {
        Ok(id) => id,
        Err(fault) => {
            return Err(fault);
        },
    };
    proof {
        lemma_predicate_count(vc.relations@);
    }
    assert(problem.predicates@.len() == problem@.predicates.len());
    assert(problem@.predicates[target.index as int] == problem.predicates@[target.index as int]@);
    let arity: usize = problem.predicates[target.index].arg_sorts.len();
    if arity != 0 {
        return Err(arity_refusal(&vc.query_target, arity));
    }
    let mut atoms: Vec<PredicateAtom> = Vec::new();
    let target_atom = PredicateAtom { predicate: target, args: Vec::new() };
    assert(target_atom@.args =~= Seq::empty());
    atoms.push(target_atom);
    let query = HornClause {
        body: ClauseBody { predicates: atoms, constraint: None },
        head: ClauseHead::False,
    };
    assert(query@.atoms =~= query_clause(target).atoms);
    problem.add_clause(query);
    Ok((problem, accounting))
}

/// Every predicate that a lowered problem names is declared.
pub proof fn law_lowered_problem_is_closed(vc: ChcVc)
    requires
        lowered_vc(vc) is Ok,
        vc.relations@.len() <= usize::MAX,
    ensures
        (lowered_vc(vc)->Ok_0).names_declared(),
{
    let problem = lowered_vc(vc)->Ok_0;
    lemma_predicate_count(vc.relations@);
    lemma_rules_closed(vc.relations@, vc.rules@);
    lemma_declared_in_range(vc.relations@, vc.query_target@);
    let front = lowered_rules(vc.relations@, vc.rules@)->Ok_0;
    assert forall|i: int| 0 <= i < problem.clauses.len() implies (
    #[trigger] problem.clauses[i]).names_declared(problem.predicates.len()) by {
        if i < front.len() {
            assert(problem.clauses[i] == front[i]);
        }
    }
}

proof fn lemma_rules_closed(relations: Seq<RelationDecl>, rules: Seq<Rule>)
    requires
        relations.len() <= usize::MAX,
    ensures
        lowered_rules(relations, rules) matches Ok(clauses) ==> forall|i: int|
            0 <= i < clauses.len() ==> (#[trigger] clauses[i]).names_declared(relations.len()),
    decreases rules.len(),
{
    if rules.len() > 0 {
        lemma_rules_closed(relations, rules.drop_last());
        let rule = rules.last();
        lemma_declared_in_range(relations, rule.head.name@);
        if let Some(app) = rule.body.relation {
            lemma_declared_in_range(relations, app.name@);
        }
    }
}

} // verus!
