//! Constrained Horn clause problems.
use std::sync::Arc;

use vstd::prelude::*;

use crate::shared::{same_allocation, share};

verus! {

/// Sort of a Horn-clause term.
#[derive(Debug, PartialEq, Eq)]
pub enum ChcSort {
    Bool,
    Int,
    Real,
    BitVec(u32),
    Array(Box<ChcSort>, Box<ChcSort>),
    Datatype { name: String, constructors: Vec<ChcDtConstructor> },
    Uninterpreted(String),
}

/// One constructor of a datatype sort.
#[derive(Debug, PartialEq, Eq)]
pub struct ChcDtConstructor {
    pub name: String,
    pub selectors: Vec<ChcDtSelector>,
}

/// One field of a datatype constructor.
#[derive(Debug, PartialEq, Eq)]
pub struct ChcDtSelector {
    pub name: String,
    pub sort: ChcSort,
}

/// Mathematical content of a [`ChcSort`].
pub enum SortModel {
    Bool,
    Int,
    Real,
    BitVec(u32),
    Array(Box<SortModel>, Box<SortModel>),
    Datatype { name: Seq<char>, constructors: Seq<ConstructorModel> },
    Uninterpreted(Seq<char>),
}

/// Mathematical content of a [`ChcDtConstructor`].
pub struct ConstructorModel {
    pub name: Seq<char>,
    pub selectors: Seq<SelectorModel>,
}

/// Mathematical content of a [`ChcDtSelector`].
pub struct SelectorModel {
    pub name: Seq<char>,
    pub sort: SortModel,
}

/// What a sort is, with names taken as character sequences.
pub open spec fn sort_model(sort: ChcSort) -> SortModel
    decreases sort,
{
    match sort {
        ChcSort::Bool => SortModel::Bool,
        ChcSort::Int => SortModel::Int,
        ChcSort::Real => SortModel::Real,
        ChcSort::BitVec(width) => SortModel::BitVec(width),
        ChcSort::Array(index, element) => SortModel::Array(
            Box::new(sort_model(*index)),
            Box::new(sort_model(*element)),
        ),
        ChcSort::Datatype { name, constructors } => SortModel::Datatype {
            name: name@,
            constructors: Seq::new(
                constructors@.len(),
                |i: int|
                    if 0 <= i < constructors@.len() {
                        constructor_model(constructors@[i])
                    } else {
                        arbitrary()
                    },
            ),
        },
        ChcSort::Uninterpreted(name) => SortModel::Uninterpreted(name@),
    }
}

/// What a datatype constructor is.
pub open spec fn constructor_model(constructor: ChcDtConstructor) -> ConstructorModel
    decreases constructor,
{
    ConstructorModel {
        name: constructor.name@,
        selectors: Seq::new(
            constructor.selectors@.len(),
            |i: int|
                if 0 <= i < constructor.selectors@.len() {
                    selector_model(constructor.selectors@[i])
                } else {
                    arbitrary()
                },
        ),
    }
}

/// What a datatype field is.
pub open spec fn selector_model(selector: ChcDtSelector) -> SelectorModel
    decreases selector,
{
    SelectorModel { name: selector.name@, sort: sort_model(selector.sort) }
}

impl View for ChcSort {
    type V = SortModel;

    open spec fn view(&self) -> SortModel {
        sort_model(*self)
    }
}


impl ChcSort {
    /// A copy of this sort.
    pub fn duplicate(&self) -> (copy: ChcSort)
        ensures
            copy@ == self@,
        decreases *self,
    {
        match self {
            ChcSort::Bool => ChcSort::Bool,
            ChcSort::Int => ChcSort::Int,
            ChcSort::Real => ChcSort::Real,
            ChcSort::BitVec(width) => ChcSort::BitVec(*width),
            ChcSort::Array(index, element) => ChcSort::Array(
                Box::new(index.duplicate()),
                Box::new(element.duplicate()),
            ),
            ChcSort::Datatype { name, constructors } => {
                let mut copies: Vec<ChcDtConstructor> = Vec::new();
                for i in 0..constructors.len()
                    invariant
                        copies@.len() == i,
                        forall|j: int|
                            0 <= j < i ==> constructor_model(#[trigger] copies@[j])
                                == constructor_model(constructors@[j]),
                        decreases_to!(*self => constructors),
                {
                    copies.push(constructors[i].duplicate());
                }
                let copy = ChcSort::Datatype { name: name.clone(), constructors: copies };
                assert(copy@->Datatype_constructors =~= self@->Datatype_constructors);
                copy
            },
            ChcSort::Uninterpreted(name) => ChcSort::Uninterpreted(name.clone()),
        }
    }

    /// Whether two sorts are equal.
    pub fn same(&self, other: &ChcSort) -> (equal: bool)
        ensures
            equal == (self@ == other@),
        decreases *self,
    {
        match (self, other) {
            (ChcSort::Bool, ChcSort::Bool) => true,
            (ChcSort::Int, ChcSort::Int) => true,
            (ChcSort::Real, ChcSort::Real) => true,
            (ChcSort::BitVec(left), ChcSort::BitVec(right)) => *left == *right,
            (ChcSort::Array(index, element), ChcSort::Array(other_index, other_element)) => {
                index.same(other_index) && element.same(other_element)
            },
            (
                ChcSort::Datatype { name, constructors },
                ChcSort::Datatype { name: other_name, constructors: other_constructors },
            ) => {
                if !(*name == *other_name) || constructors.len() != other_constructors.len() {
                    assert(self@->Datatype_constructors.len() == constructors@.len());
                    assert(other@->Datatype_constructors.len() == other_constructors@.len());
                    return false;
                }
                for i in 0..constructors.len()
                    invariant
                        self@ is Datatype,
                        other@ is Datatype,
                        self@->Datatype_constructors.len() == constructors@.len(),
                        other@->Datatype_constructors.len() == other_constructors@.len(),
                        constructors@.len() == other_constructors@.len(),
                        forall|j: int|
                            0 <= j < constructors@.len() ==> #[trigger] self@->Datatype_constructors[j]
                                == constructor_model(constructors@[j]),
                        forall|j: int|
                            0 <= j < constructors@.len()
                                ==> #[trigger] other@->Datatype_constructors[j]
                                == constructor_model(other_constructors@[j]),
                        forall|j: int|
                            0 <= j < i ==> self@->Datatype_constructors[j]
                                == #[trigger] other@->Datatype_constructors[j],
                        decreases_to!(*self => constructors),
                {
                    if !constructors[i].same(&other_constructors[i]) {
                        assert(self@->Datatype_constructors[i as int]
                            != other@->Datatype_constructors[i as int]);
                        return false;
                    }
                }
                assert(self@->Datatype_constructors =~= other@->Datatype_constructors);
                true
            },
            (ChcSort::Uninterpreted(left), ChcSort::Uninterpreted(right)) => *left == *right,
            _ => false,
        }
    }
}

impl ChcDtConstructor {
    fn duplicate(&self) -> (copy: ChcDtConstructor)
        ensures
            constructor_model(copy) == constructor_model(*self),
        decreases *self,
    {
        let mut selectors: Vec<ChcDtSelector> = Vec::new();
        for i in 0..self.selectors.len()
            invariant
                selectors@.len() == i,
                forall|j: int|
                    0 <= j < i ==> selector_model(#[trigger] selectors@[j]) == selector_model(
                        self.selectors@[j],
                    ),
                decreases_to!(*self => self.selectors),
        {
            let selector = &self.selectors[i];
            selectors.push(
                ChcDtSelector { name: selector.name.clone(), sort: selector.sort.duplicate() },
            );
        }
        let copy = ChcDtConstructor { name: self.name.clone(), selectors };
        assert(constructor_model(copy).selectors =~= constructor_model(*self).selectors);
        copy
    }

    fn same(&self, other: &ChcDtConstructor) -> (equal: bool)
        ensures
            equal == (constructor_model(*self) == constructor_model(*other)),
        decreases *self,
    {
        if !(self.name == other.name) || self.selectors.len() != other.selectors.len() {
            assert(constructor_model(*self).selectors.len() == self.selectors@.len());
            assert(constructor_model(*other).selectors.len() == other.selectors@.len());
            return false;
        }
        let ghost left = constructor_model(*self).selectors;
        let ghost right = constructor_model(*other).selectors;
        for i in 0..self.selectors.len()
            invariant
                left == constructor_model(*self).selectors,
                right == constructor_model(*other).selectors,
                left.len() == self.selectors@.len(),
                right.len() == self.selectors@.len(),
                other.selectors@.len() == self.selectors@.len(),
                forall|j: int|
                    0 <= j < left.len() ==> #[trigger] left[j] == selector_model(
                        self.selectors@[j],
                    ),
                forall|j: int|
                    0 <= j < left.len() ==> #[trigger] right[j] == selector_model(
                        other.selectors@[j],
                    ),
                forall|j: int| 0 <= j < i ==> #[trigger] left[j] == right[j],
                decreases_to!(*self => self.selectors),
        {
            let selector = &self.selectors[i];
            let candidate = &other.selectors[i];
            if !(selector.name == candidate.name) || !selector.sort.same(&candidate.sort) {
                assert(left[i as int] != right[i as int]);
                return false;
            }
        }
        assert(left =~= right);
        true
    }
}

/// A sorted variable.
#[derive(Debug, PartialEq, Eq)]
pub struct ChcVar {
    pub name: String,
    pub sort: ChcSort,
}

/// Mathematical content of a [`ChcVar`].
pub struct VarModel {
    pub name: Seq<char>,
    pub sort: SortModel,
}

impl View for ChcVar {
    type V = VarModel;

    open spec fn view(&self) -> VarModel {
        VarModel { name: self.name@, sort: sort_model(self.sort) }
    }
}

impl ChcVar {
    pub fn new(name: String, sort: ChcSort) -> (var: ChcVar)
        ensures
            var@ == (VarModel { name: name@, sort: sort@ }),
    {
        ChcVar { name, sort }
    }

    /// A copy of this variable.
    pub fn duplicate(&self) -> (copy: ChcVar)
        ensures
            copy@ == self@,
    {
        ChcVar { name: self.name.clone(), sort: self.sort.duplicate() }
    }

    /// Whether two variables have the same name and sort.
    pub fn same(&self, other: &ChcVar) -> (equal: bool)
        ensures
            equal == (self@ == other@),
    {
        self.name == other.name && self.sort.same(&other.sort)
    }
}

/// Operator of a Horn-clause term.
#[derive(Debug, Clone, Copy, PartialEq, Eq, Structural)]
pub enum ChcOp {
    Not,
    And,
    Or,
    Implies,
    Iff,
    Ite,
    Eq,
    Ne,
    Lt,
    Le,
    Gt,
    Ge,
    Add,
    Sub,
    Mul,
    Div,
    Mod,
    Neg,
    Select,
    Store,
    BvAdd,
    BvSub,
    BvMul,
    BvUDiv,
    BvURem,
    BvSDiv,
    BvSRem,
    BvSMod,
    BvAnd,
    BvOr,
    BvXor,
    BvNand,
    BvNor,
    BvXnor,
    BvNot,
    BvNeg,
    BvShl,
    BvLShr,
    BvAShr,
    BvULt,
    BvULe,
    BvUGt,
    BvUGe,
    BvSLt,
    BvSLe,
    BvSGt,
    BvSGe,
    BvComp,
    BvConcat,
    /// Bits `high` down to `low`, both included.
    BvExtract(u32, u32),
    BvZeroExtend(u32),
    BvSignExtend(u32),
    BvRotateLeft(u32),
    BvRotateRight(u32),
    BvRepeat(u32),
    /// Unsigned value of a bit-vector.
    Bv2Nat,
    /// Residue of an integer modulo two to the given width.
    Int2Bv(u32),
}

/// Index of a declared predicate.
#[derive(Debug, Clone, Copy, PartialEq, Eq, Structural)]
pub struct PredicateId {
    pub index: usize,
}

/// Term of a Horn clause. Subterms are shared.
#[derive(Debug, PartialEq, Eq)]
pub enum ChcExpr {
    Bool(bool),
    Int(i128),
    /// Numerator and denominator.
    Real(i64, i64),
    /// Pattern and width.
    BitVec(u128, u32),
    Var(ChcVar),
    Op(ChcOp, Vec<Arc<ChcExpr>>),
    PredicateApp(String, PredicateId, Vec<Arc<ChcExpr>>),
    FuncApp(String, ChcSort, Vec<Arc<ChcExpr>>),
    /// Array over the given index sort that holds one value everywhere.
    ConstArray(ChcSort, Arc<ChcExpr>),
    /// Stands for the constant-array symbol of the given index sort.
    ConstArrayMarker(ChcSort),
    /// Stands for the tester symbol of the named constructor.
    IsTesterMarker(String),
}

/// Mathematical content of a [`ChcExpr`].
pub enum ExprModel {
    Bool(bool),
    Int(int),
    Real(int, int),
    BitVec(nat, u32),
    Var(VarModel),
    Op(ChcOp, Seq<ExprModel>),
    PredicateApp(Seq<char>, PredicateId, Seq<ExprModel>),
    FuncApp(Seq<char>, SortModel, Seq<ExprModel>),
    ConstArray(SortModel, Box<ExprModel>),
    ConstArrayMarker(SortModel),
    IsTesterMarker(Seq<char>),
}

/// What a term is, with sharing forgotten.
pub open spec fn expr_model(expr: ChcExpr) -> ExprModel
    decreases expr,
{
    match expr {
        ChcExpr::Bool(value) => ExprModel::Bool(value),
        ChcExpr::Int(value) => ExprModel::Int(value as int),
        ChcExpr::Real(numerator, denominator) => ExprModel::Real(
            numerator as int,
            denominator as int,
        ),
        ChcExpr::BitVec(pattern, width) => ExprModel::BitVec(pattern as nat, width),
        ChcExpr::Var(var) => ExprModel::Var(var@),
        ChcExpr::Op(op, args) => ExprModel::Op(op, terms_model(args@)),
        ChcExpr::PredicateApp(name, id, args) => ExprModel::PredicateApp(
            name@,
            id,
            terms_model(args@),
        ),
        ChcExpr::FuncApp(name, sort, args) => ExprModel::FuncApp(
            name@,
            sort_model(sort),
            terms_model(args@),
        ),
        ChcExpr::ConstArray(sort, value) => ExprModel::ConstArray(
            sort_model(sort),
            Box::new(expr_model(*value)),
        ),
        ChcExpr::ConstArrayMarker(sort) => ExprModel::ConstArrayMarker(sort_model(sort)),
        ChcExpr::IsTesterMarker(name) => ExprModel::IsTesterMarker(name@),
    }
}

/// What a list of shared terms is.
pub open spec fn terms_model(terms: Seq<Arc<ChcExpr>>) -> Seq<ExprModel>
    decreases terms,
{
    Seq::new(
        terms.len(),
        |i: int|
            if 0 <= i < terms.len() {
                expr_model(*terms[i])
            } else {
                arbitrary()
            },
    )
}

impl View for ChcExpr {
    type V = ExprModel;

    open spec fn view(&self) -> ExprModel {
        expr_model(*self)
    }
}

/// A list of handles to the same terms.
pub(crate) fn share_terms(terms: &Vec<Arc<ChcExpr>>) -> (copies: Vec<Arc<ChcExpr>>)
    ensures
        copies@ == terms@,
{
    let mut copies: Vec<Arc<ChcExpr>> = Vec::new();
    for i in 0..terms.len()
        invariant
            copies@ == terms@.take(i as int),
    {
        copies.push(share(&terms[i]));
    }
    copies
}

impl ChcExpr {
    /// A copy of this term whose subterms are shared with it.
    pub fn duplicate(&self) -> (copy: ChcExpr)
        ensures
            copy@ == self@,
    {
        match self {
            ChcExpr::Bool(value) => ChcExpr::Bool(*value),
            ChcExpr::Int(value) => ChcExpr::Int(*value),
            ChcExpr::Real(numerator, denominator) => ChcExpr::Real(*numerator, *denominator),
            ChcExpr::BitVec(pattern, width) => ChcExpr::BitVec(*pattern, *width),
            ChcExpr::Var(var) => ChcExpr::Var(var.duplicate()),
            ChcExpr::Op(op, args) => ChcExpr::Op(*op, share_terms(args)),
            ChcExpr::PredicateApp(name, id, args) => ChcExpr::PredicateApp(
                name.clone(),
                *id,
                share_terms(args),
            ),
            ChcExpr::FuncApp(name, sort, args) => ChcExpr::FuncApp(
                name.clone(),
                sort.duplicate(),
                share_terms(args),
            ),
            ChcExpr::ConstArray(sort, value) => ChcExpr::ConstArray(
                sort.duplicate(),
                share(value),
            ),
            ChcExpr::ConstArrayMarker(sort) => ChcExpr::ConstArrayMarker(sort.duplicate()),
            ChcExpr::IsTesterMarker(name) => ChcExpr::IsTesterMarker(name.clone()),
        }
    }

    /// Whether two terms are structurally equal.
    pub fn same(&self, other: &ChcExpr) -> (equal: bool)
        ensures
            equal == (self@ == other@),
        decreases *self,
    {
        match (self, other) {
            (ChcExpr::Bool(left), ChcExpr::Bool(right)) => *left == *right,
            (ChcExpr::Int(left), ChcExpr::Int(right)) => *left == *right,
            (
                ChcExpr::Real(numerator, denominator),
                ChcExpr::Real(other_numerator, other_denominator),
            ) => *numerator == *other_numerator && *denominator == *other_denominator,
            (ChcExpr::BitVec(pattern, width), ChcExpr::BitVec(other_pattern, other_width)) => {
                *pattern == *other_pattern && *width == *other_width
            },
            (ChcExpr::Var(left), ChcExpr::Var(right)) => left.same(right),
            (ChcExpr::Op(op, args), ChcExpr::Op(other_op, other_args)) => {
                *op == *other_op && ChcExpr::same_terms(args, other_args)
            },
            (
                ChcExpr::PredicateApp(name, id, args),
                ChcExpr::PredicateApp(other_name, other_id, other_args),
            ) => *name == *other_name && *id == *other_id && ChcExpr::same_terms(args, other_args),
            (
                ChcExpr::FuncApp(name, sort, args),
                ChcExpr::FuncApp(other_name, other_sort, other_args),
            ) => *name == *other_name && sort.same(other_sort) && ChcExpr::same_terms(
                args,
                other_args,
            ),
            (ChcExpr::ConstArray(sort, value), ChcExpr::ConstArray(other_sort, other_value)) => {
                sort.same(other_sort) && (same_allocation(value, other_value) || value.same(
                    other_value,
                ))
            },
            (ChcExpr::ConstArrayMarker(left), ChcExpr::ConstArrayMarker(right)) => left.same(right),
            (ChcExpr::IsTesterMarker(left), ChcExpr::IsTesterMarker(right)) => *left == *right,
            _ => false,
        }
    }

    fn same_terms(left: &Vec<Arc<ChcExpr>>, right: &Vec<Arc<ChcExpr>>) -> (equal: bool)
        ensures
            equal == (terms_model(left@) == terms_model(right@)),
        decreases *left,
    {
        if left.len() != right.len() {
            assert(terms_model(left@).len() != terms_model(right@).len());
            return false;
        }
        for i in 0..left.len()
            invariant
                left.len() == right.len(),
                forall|j: int|
                    0 <= j < i ==> #[trigger] terms_model(left@)[j] == terms_model(right@)[j],
                decreases_to!(*left => left@),
        {
            if !same_allocation(&left[i], &right[i]) && !left[i].same(&right[i]) {
                assert(terms_model(left@)[i as int] != terms_model(right@)[i as int]);
                return false;
            }
        }
        assert(terms_model(left@) =~= terms_model(right@));
        true
    }

    /// Conjunction of a list: true when empty, its only member when single.
    pub fn and_vec(conjuncts: Vec<Arc<ChcExpr>>) -> (expr: Arc<ChcExpr>)
        ensures
            expr@ == conjunction(terms_model(conjuncts@)),
    {
        if conjuncts.len() == 0 {
            Arc::new(ChcExpr::Bool(true))
        } else if conjuncts.len() == 1 {
            share(&conjuncts[0])
        } else {
            Arc::new(ChcExpr::Op(ChcOp::And, conjuncts))
        }
    }

    /// Disjunction of a list: false when empty, its only member when single.
    pub fn or_vec(disjuncts: Vec<Arc<ChcExpr>>) -> (expr: Arc<ChcExpr>)
        ensures
            expr@ == disjunction(terms_model(disjuncts@)),
    {
        if disjuncts.len() == 0 {
            Arc::new(ChcExpr::Bool(false))
        } else if disjuncts.len() == 1 {
            share(&disjuncts[0])
        } else {
            Arc::new(ChcExpr::Op(ChcOp::Or, disjuncts))
        }
    }
}

/// An operator applied to one term.
pub open spec fn unary(op: ChcOp, inner: ExprModel) -> ExprModel {
    ExprModel::Op(op, seq![inner])
}

/// An operator applied to two terms.
pub open spec fn binary(op: ChcOp, left: ExprModel, right: ExprModel) -> ExprModel {
    ExprModel::Op(op, seq![left, right])
}

pub(crate) proof fn lemma_model_of_one(terms: Seq<Arc<ChcExpr>>)
    requires
        terms.len() == 1,
    ensures
        terms_model(terms) == seq![terms[0]@],
{
    assert(terms_model(terms) =~= seq![terms[0]@]);
}

pub(crate) proof fn lemma_model_of_two(terms: Seq<Arc<ChcExpr>>)
    requires
        terms.len() == 2,
    ensures
        terms_model(terms) == seq![terms[0]@, terms[1]@],
{
    assert(terms_model(terms) =~= seq![terms[0]@, terms[1]@]);
}

pub(crate) proof fn lemma_model_of_three(terms: Seq<Arc<ChcExpr>>)
    requires
        terms.len() == 3,
    ensures
        terms_model(terms) == seq![terms[0]@, terms[1]@, terms[2]@],
{
    assert(terms_model(terms) =~= seq![terms[0]@, terms[1]@, terms[2]@]);
}

/// An operator applied to one term.
pub(crate) fn op1(op: ChcOp, inner: Arc<ChcExpr>) -> (expr: Arc<ChcExpr>)
    ensures
        expr@ == unary(op, inner@),
{
    let mut args: Vec<Arc<ChcExpr>> = Vec::new();
    args.push(inner);
    proof {
        lemma_model_of_one(args@);
    }
    Arc::new(ChcExpr::Op(op, args))
}

/// An operator applied to two terms.
pub(crate) fn op2(op: ChcOp, left: Arc<ChcExpr>, right: Arc<ChcExpr>) -> (expr: Arc<ChcExpr>)
    ensures
        expr@ == binary(op, left@, right@),
{
    let mut args: Vec<Arc<ChcExpr>> = Vec::new();
    args.push(left);
    args.push(right);
    proof {
        lemma_model_of_two(args@);
    }
    Arc::new(ChcExpr::Op(op, args))
}

/// The conjunction of a list of terms.
pub open spec fn conjunction(terms: Seq<ExprModel>) -> ExprModel {
    if terms.len() == 0 {
        ExprModel::Bool(true)
    } else if terms.len() == 1 {
        terms[0]
    } else {
        ExprModel::Op(ChcOp::And, terms)
    }
}

/// The disjunction of a list of terms.
pub open spec fn disjunction(terms: Seq<ExprModel>) -> ExprModel {
    if terms.len() == 0 {
        ExprModel::Bool(false)
    } else if terms.len() == 1 {
        terms[0]
    } else {
        ExprModel::Op(ChcOp::Or, terms)
    }
}

/// A predicate applied to terms.
#[derive(Debug, PartialEq, Eq)]
pub struct PredicateAtom {
    pub predicate: PredicateId,
    pub args: Vec<Arc<ChcExpr>>,
}

/// Mathematical content of a [`PredicateAtom`].
pub struct AtomModel {
    pub predicate: PredicateId,
    pub args: Seq<ExprModel>,
}

impl View for PredicateAtom {
    type V = AtomModel;

    open spec fn view(&self) -> AtomModel {
        AtomModel { predicate: self.predicate, args: terms_model(self.args@) }
    }
}

impl PredicateAtom {
    /// A copy of this atom whose terms are shared with it.
    pub fn duplicate(&self) -> (copy: PredicateAtom)
        ensures
            copy@ == self@,
            copy.predicate == self.predicate,
            copy.args@ == self.args@,
    {
        PredicateAtom { predicate: self.predicate, args: share_terms(&self.args) }
    }
}

/// Premises of a clause: applied predicates and a constraint.
#[derive(Debug, PartialEq, Eq)]
pub struct ClauseBody {
    pub predicates: Vec<PredicateAtom>,
    pub constraint: Option<Arc<ChcExpr>>,
}

/// Conclusion of a clause.
#[derive(Debug, PartialEq, Eq)]
pub enum ClauseHead {
    /// The clause is a query.
    False,
    Predicate(PredicateAtom),
}

/// One Horn clause.
#[derive(Debug, PartialEq, Eq)]
pub struct HornClause {
    pub body: ClauseBody,
    pub head: ClauseHead,
}

/// A declared predicate.
#[derive(Debug, PartialEq, Eq)]
pub struct ChcPredicate {
    pub name: String,
    pub arg_sorts: Vec<ChcSort>,
}

/// A system of Horn clauses.
#[derive(Debug, PartialEq, Eq)]
pub struct ChcProblem {
    pub predicates: Vec<ChcPredicate>,
    pub clauses: Vec<HornClause>,
    /// Whether satisfiability is reported with inverted polarity.
    pub fixedpoint_format: bool,
    /// Whether a universally quantified body was weakened on input.
    pub stripped_body_forall: bool,
    /// Whether datatype definitions accompany the clauses.
    pub has_datatype_defs: bool,
    /// Whether the clauses carry action identities.
    pub has_action_decomposition: bool,
}

/// Mathematical content of a [`ClauseHead`].
pub enum HeadModel {
    False,
    Predicate(AtomModel),
}

/// Mathematical content of a [`HornClause`].
pub struct ClauseModel {
    pub atoms: Seq<AtomModel>,
    pub constraint: Option<ExprModel>,
    pub head: HeadModel,
}

/// Mathematical content of a [`ChcPredicate`].
pub struct PredicateModel {
    pub name: Seq<char>,
    pub arg_sorts: Seq<SortModel>,
}

/// Mathematical content of a [`ChcProblem`].
pub struct ProblemModel {
    pub predicates: Seq<PredicateModel>,
    pub clauses: Seq<ClauseModel>,
    pub fixedpoint_format: bool,
    pub stripped_body_forall: bool,
    pub has_datatype_defs: bool,
    pub has_action_decomposition: bool,
}

/// What a list of atoms is.
pub open spec fn atoms_model(atoms: Seq<PredicateAtom>) -> Seq<AtomModel> {
    Seq::new(atoms.len(), |i: int| atoms[i]@)
}

/// The term, where there is one, as its model.
pub open spec fn option_model(expr: Option<Arc<ChcExpr>>) -> Option<ExprModel> {
    match expr {
        Some(expr) => Some(expr@),
        None => None,
    }
}

/// What a list of sorts is.
pub open spec fn sorts_model(sorts: Seq<ChcSort>) -> Seq<SortModel> {
    Seq::new(sorts.len(), |i: int| sorts[i]@)
}

/// What a list of clauses is.
pub open spec fn clauses_model(clauses: Seq<HornClause>) -> Seq<ClauseModel> {
    Seq::new(clauses.len(), |i: int| clauses[i]@)
}

/// What a list of predicate declarations is.
pub open spec fn predicates_model(predicates: Seq<ChcPredicate>) -> Seq<PredicateModel> {
    Seq::new(predicates.len(), |i: int| predicates[i]@)
}

impl View for ClauseHead {
    type V = HeadModel;

    open spec fn view(&self) -> HeadModel {
        match self {
            ClauseHead::False => HeadModel::False,
            ClauseHead::Predicate(atom) => HeadModel::Predicate(atom@),
        }
    }
}

impl View for HornClause {
    type V = ClauseModel;

    open spec fn view(&self) -> ClauseModel {
        ClauseModel {
            atoms: atoms_model(self.body.predicates@),
            constraint: option_model(self.body.constraint),
            head: self.head@,
        }
    }
}

impl View for ChcPredicate {
    type V = PredicateModel;

    open spec fn view(&self) -> PredicateModel {
        PredicateModel { name: self.name@, arg_sorts: sorts_model(self.arg_sorts@) }
    }
}

impl View for ChcProblem {
    type V = ProblemModel;

    open spec fn view(&self) -> ProblemModel {
        ProblemModel {
            predicates: predicates_model(self.predicates@),
            clauses: clauses_model(self.clauses@),
            fixedpoint_format: self.fixedpoint_format,
            stripped_body_forall: self.stripped_body_forall,
            has_datatype_defs: self.has_datatype_defs,
            has_action_decomposition: self.has_action_decomposition,
        }
    }
}

impl ClauseModel {
    /// Whether every predicate that the clause names is declared.
    pub open spec fn names_declared(self, declared: nat) -> bool {
        &&& forall|i: int|
            0 <= i < self.atoms.len() ==> (#[trigger] self.atoms[i]).predicate.index < declared
        &&& self.head matches HeadModel::Predicate(atom) ==> atom.predicate.index < declared
    }
}

impl ProblemModel {
    /// Whether every predicate that a clause names is declared.
    pub open spec fn names_declared(self) -> bool {
        forall|i: int|
            0 <= i < self.clauses.len() ==> (#[trigger] self.clauses[i]).names_declared(
                self.predicates.len(),
            )
    }
}

impl ChcProblem {
    /// A problem without predicates or clauses.
    pub fn new() -> (problem: ChcProblem)
        ensures
            problem@.predicates == Seq::<PredicateModel>::empty(),
            problem@.clauses == Seq::<ClauseModel>::empty(),
            !problem.fixedpoint_format,
            !problem.stripped_body_forall,
            !problem.has_datatype_defs,
            !problem.has_action_decomposition,
    {
        ChcProblem {
            predicates: Vec::new(),
            clauses: Vec::new(),
            fixedpoint_format: false,
            stripped_body_forall: false,
            has_datatype_defs: false,
            has_action_decomposition: false,
        }
    }

    /// Declares a predicate under the next free index.
    pub fn declare_predicate(&mut self, name: String, arg_sorts: Vec<ChcSort>) -> (id: PredicateId)
        ensures
            id.index == old(self)@.predicates.len(),
            final(self)@ == (ProblemModel {
                predicates: old(self)@.predicates.push(
                    PredicateModel { name: name@, arg_sorts: sorts_model(arg_sorts@) },
                ),
                ..old(self)@
            }),
    {
        let id = PredicateId { index: self.predicates.len() };
        let predicate = ChcPredicate { name, arg_sorts };
        let ghost model = predicate@;
        self.predicates.push(predicate);
        assert(self@.predicates =~= old(self)@.predicates.push(model));
        id
    }

    /// Adds a clause.
    pub fn add_clause(&mut self, clause: HornClause)
        ensures
            final(self)@ == (ProblemModel {
                clauses: old(self)@.clauses.push(clause@),
                ..old(self)@
            }),
    {
        let ghost model = clause@;
        self.clauses.push(clause);
        assert(self@.clauses =~= old(self)@.clauses.push(model));
    }
}

} // verus!
