//! Typed Horn-clause verification conditions, as submitted to the driver.
use std::sync::Arc;

use vstd::prelude::*;

verus! {

/// Width of a bit-vector sort, at least one.
#[derive(Debug, PartialEq, Eq)]
pub struct BitVecWidth {
    width: u32,
}

impl BitVecWidth {
    #[verifier::type_invariant]
    spec fn inhabited(self) -> bool {
        self.width >= 1
    }

    /// The number of bits.
    pub closed spec fn bits(self) -> u32 {
        self.width
    }

    /// The given width, unless it is zero.
    pub fn new(width: u32) -> (made: Option<BitVecWidth>)
        ensures
            match made {
                Some(made) => made.bits() == width && width >= 1,
                None => width == 0,
            },
    {
        if width == 0 {
            None
        } else {
            Some(BitVecWidth { width })
        }
    }

    /// The number of bits.
    pub fn get(&self) -> (width: u32)
        ensures
            width == self.bits(),
            width >= 1,
    {
        proof {
            use_type_invariant(self);
        }
        self.width
    }
}

/// Sort of a submitted term, with its rendering for messages.
#[derive(Debug, PartialEq, Eq)]
pub struct Sort {
    pub kind: SortKind,
    pub rendering: String,
}

/// What a sort is.
#[derive(Debug, PartialEq, Eq)]
pub enum SortKind {
    Bool,
    BitVec(BitVecWidth),
    Int,
    Real,
    /// Index and element sort.
    Array(Box<Sort>, Box<Sort>),
    Datatype { name: String, constructors: Vec<DtConstructor> },
    Uninterpreted(String),
    /// A sort that Horn-clause problems do not have.
    Unsupported,
}

/// Constructor of a datatype sort.
#[derive(Debug, PartialEq, Eq)]
pub struct DtConstructor {
    pub name: String,
    pub fields: Vec<DtField>,
}

/// Field of a datatype constructor.
#[derive(Debug, PartialEq, Eq)]
pub struct DtField {
    pub name: String,
    pub sort: Sort,
}

/// Submitted term. Subterms are shared.
#[derive(Debug, PartialEq, Eq)]
pub struct Expr {
    pub sort: Sort,
    pub value: ExprValue,
}

/// Operator on one term.
#[derive(Debug, Clone, Copy, PartialEq, Eq, Structural)]
pub enum UnaryOp {
    Not,
    BvNeg,
    BvNot,
    BvZeroExtend(u32),
    BvSignExtend(u32),
    /// Bits `high` down to `low`, both included.
    BvExtract(u32, u32),
    IntNeg,
    RealNeg,
    /// Unsigned value of a bit-vector.
    Bv2Int,
    /// Residue of an integer modulo two to the given width.
    Int2Bv(u32),
}

/// Operator on two terms.
#[derive(Debug, Clone, Copy, PartialEq, Eq, Structural)]
pub enum BinaryOp {
    Xor,
    Implies,
    Eq,
    BvAdd,
    BvSub,
    BvMul,
    BvUDiv,
    BvSDiv,
    BvURem,
    BvSRem,
    BvAnd,
    BvOr,
    BvXor,
    BvShl,
    BvLShr,
    BvAShr,
    BvULt,
    BvULe,
    BvUGt,
    BvUGe,
    BvSLt,
    BvSLe,
    BvSGt,
    BvSGe,
    BvConcat,
    IntAdd,
    IntSub,
    IntMul,
    IntDiv,
    IntMod,
    IntLt,
    IntLe,
    IntGt,
    IntGe,
    RealAdd,
    RealSub,
    RealMul,
    RealDiv,
    RealLt,
    RealLe,
    RealGt,
    RealGe,
    Select,
}

/// Predicate that an operation on two bit-vectors does not overflow.
#[derive(Debug, Clone, Copy, PartialEq, Eq, Structural)]
pub enum OverflowCheck {
    SignedDiv,
    UnsignedSub,
    UnsignedAdd,
    SignedAdd,
    SignedSub,
    UnsignedMul,
    SignedMul,
}

/// What a submitted term is. Numerals are in decimal.
#[derive(Debug, PartialEq, Eq)]
pub enum ExprValue {
    BoolConst(bool),
    BitVecConst { value: String, width: u32 },
    IntConst(String),
    RealConst(String),
    Var { name: String },
    Unary(UnaryOp, Arc<Expr>),
    Binary(BinaryOp, Arc<Expr>, Arc<Expr>),
    And(Vec<Arc<Expr>>),
    Or(Vec<Arc<Expr>>),
    /// No two of the terms are equal.
    Distinct(Vec<Arc<Expr>>),
    Ite { cond: Arc<Expr>, then_expr: Arc<Expr>, else_expr: Arc<Expr> },
    Store { array: Arc<Expr>, index: Arc<Expr>, value: Arc<Expr> },
    ConstArray { index_sort: Sort, value: Arc<Expr> },
    FuncApp { name: String, args: Vec<Arc<Expr>> },
    DatatypeConstructor { constructor_name: String, args: Vec<Arc<Expr>> },
    DatatypeSelector { selector_name: String, operand: Arc<Expr> },
    NoOverflow(OverflowCheck, Arc<Expr>, Arc<Expr>),
    /// The signed negation of a bit-vector does not overflow.
    NegNoOverflow(Arc<Expr>),
    /// A term that Horn-clause problems do not have, with its rendering.
    Unsupported(String),
}

/// Declared relation.
#[derive(Debug, PartialEq, Eq)]
pub struct RelationDecl {
    pub name: String,
    pub arg_sorts: Vec<Sort>,
}

/// Relation applied to terms.
#[derive(Debug, PartialEq, Eq)]
pub struct RelationApp {
    pub name: String,
    pub args: Vec<Arc<Expr>>,
}

/// Premises of a rule.
#[derive(Debug, PartialEq, Eq)]
pub struct RuleBody {
    pub relation: Option<RelationApp>,
    pub constraints: Vec<Arc<Expr>>,
}

/// The terms of a rule as SMT-LIB text.
#[derive(Debug, PartialEq, Eq)]
pub struct RuleTexts {
    /// Arguments of the head.
    pub head_args: Vec<String>,
    /// Arguments of the body relation.
    pub relation_args: Vec<String>,
    /// Constraints.
    pub constraints: Vec<String>,
}

/// One rule.
#[derive(Debug, PartialEq, Eq)]
pub struct Rule {
    pub body: RuleBody,
    pub head: RelationApp,
    pub texts: RuleTexts,
}

/// Typed verification condition: is the query target derivable?
#[derive(Debug, PartialEq, Eq)]
pub struct ChcVc {
    pub relations: Vec<RelationDecl>,
    pub rules: Vec<Rule>,
    pub query_target: String,
}

} // verus!
