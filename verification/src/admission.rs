//! Admission of a native bundle to proof authority.
//!
//! The admission walks every function that a request can reach and refuses each
//! construct whose translation may omit a safety edge or import a claim that
//! nothing authenticates. A construct is admitted only where its translation is
//! exact, or where the bundle comes from the audited live lowering and that
//! authority covers the construct.
use std::collections::BTreeSet;

use vstd::prelude::*;
use vstd::string::*;

use crate::error;
use crate::error::{ErrorModel, NativeSolveError, NativeSolveResult};
use crate::text;
use crate::text::{concat2, concat3, concat5, concat6, concat8, concat4, decimal_text, join, same_text};

verus! {

/// Annotation on an instruction, as far as the admission tells them apart.
#[derive(Debug, Clone, Copy, PartialEq, Eq, Structural)]
pub enum ProofAnnotation {
    /// The value is one stable, unconstrained symbol.
    FreshSymbolicHavoc,
    /// Overflow wraps.
    Wrapping,
    /// The access goes through a checked borrow.
    ValidBorrow,
    /// Any other annotation.
    Other,
}

/// Cast operation, as far as the admission tells them apart.
#[derive(Debug, Clone, Copy, PartialEq, Eq, Structural)]
pub enum CastOp {
    /// Integer truncation.
    Trunc,
    /// Zero extension.
    ZExt,
    /// Sign extension.
    SExt,
    /// Any other cast.
    Other,
}

/// Type of a value.
#[derive(Debug, Clone, PartialEq, Eq)]
pub struct ValueType {
    /// How messages name the type.
    pub rendering: String,
    /// Whether it is an integer type.
    pub integer: bool,
}

/// Why neither lane of the translator takes a stack cell.
#[derive(Debug, Clone, PartialEq, Eq)]
pub struct AllocaRejection {
    /// The blocking condition of each lane.
    pub kind: String,
    /// Explanation.
    pub detail: String,
}

/// Stack allocation.
#[derive(Debug, Clone, PartialEq, Eq)]
pub struct Alloca {
    /// How messages name the cell's type.
    pub ty: String,
    /// Whether the extent is a runtime value.
    pub has_count: bool,
    /// Whether the caller asserts an alignment.
    pub has_align: bool,
    /// Whether the instruction binds a result.
    pub has_result: bool,
    /// Whether the translator models the cell exactly.
    pub admissible: bool,
    /// Why it does not.
    pub rejection: Option<AllocaRejection>,
}

/// Cast.
#[derive(Debug, Clone, PartialEq, Eq)]
pub struct Cast {
    /// Operation.
    pub op: CastOp,
    /// How messages name the operation.
    pub rendering: String,
    /// Type cast from.
    pub source: ValueType,
    /// Type cast to.
    pub target: ValueType,
    /// Whether the translator models it as a bit identity.
    pub admissible: bool,
}

/// Instruction, as far as the admission tells them apart.
#[derive(Debug, Clone, PartialEq, Eq)]
pub enum Instruction {
    /// Undefined value.
    Undef,
    /// Assumption.
    Assume,
    /// Memory read.
    Load,
    /// Memory write.
    Store,
    /// Shared borrow.
    Borrow,
    /// Mutable borrow.
    BorrowMut,
    /// Element of a vector.
    ExtractElement,
    /// Address computation.
    Gep,
    /// Metadata lane of a pointer.
    PtrMetadata,
    /// Data lane of a pointer.
    PtrData,
    /// Pointer built from its lanes.
    PtrFromParts,
    /// Stack allocation.
    Alloca(Alloca),
    /// Operation of a dialect.
    DialectOp,
    /// Cast.
    Cast(Cast),
    /// Call of a function of the module.
    Call { callee: u32 },
    /// Any other instruction.
    Other,
}

/// Instruction with its annotations.
#[derive(Debug, Clone, PartialEq, Eq)]
pub struct InstructionNode {
    pub annotations: Vec<ProofAnnotation>,
    pub instruction: Instruction,
}

/// Basic block.
#[derive(Debug, Clone, PartialEq, Eq)]
pub struct Block {
    pub id: u32,
    pub body: Vec<InstructionNode>,
}

/// Function of a module.
#[derive(Debug, Clone, PartialEq, Eq)]
pub struct Function {
    pub id: u32,
    pub name: String,
    pub blocks: Vec<Block>,
}

/// Target that a module was lowered for.
#[derive(Debug, Clone, PartialEq, Eq)]
pub struct TargetProfile {
    pub triple: String,
    /// Size of a pointer in bytes.
    pub pointer_size: u32,
}

/// Bundle, as far as the admission reads it.
#[derive(Debug, Clone, PartialEq, Eq)]
pub struct NativeVerificationBundle {
    /// Whether the module passed validation.
    pub module_valid: bool,
    /// The messages of its validation.
    pub module_errors: Vec<String>,
    /// Target profile.
    pub target_info: Option<TargetProfile>,
    /// Functions of the module.
    pub functions: Vec<Function>,
    /// Functions of the typed requests.
    pub requested: Vec<u32>,
}

/// What the run grants.
#[derive(Debug, Clone, Copy, PartialEq, Eq, Structural)]
pub struct AdmissionProfile {
    /// The authority of the live lowering covers this very bundle.
    pub source_generation_authorized: bool,
    /// Borrows are admitted as transparent aliases.
    pub admit_borrows: bool,
}

/// How many messages of a failed validation are reported.
pub const REPORTED_MODULE_ERRORS: usize = 8;

/// Pointer size that the translation models, in bytes.
pub const MODELED_POINTER_SIZE: u32 = 8;

/// The refusal of a part of the bundle.
pub open spec fn refusal(field_suffix: Seq<char>, detail: Seq<char>) -> ErrorModel {
    error::invalid_model(text::concat(seq!["native_trust_ir_bundle."@, field_suffix]), detail)
}

/// The refusal of a part of the bundle.
fn native_bundle_proof_authority_input_error(field_suffix: &str, detail: String) -> (refused:
    NativeSolveError)
    ensures
        refused@ == refusal(field_suffix@, detail@),
{
    NativeSolveError::InvalidInput {
        field: concat2("native_trust_ir_bundle.", field_suffix),
        detail,
    }
}

/// Whether a text ends in another.
pub open spec fn ends_with(text: Seq<char>, suffix: Seq<char>) -> bool {
    suffix.len() <= text.len() && text.skip(text.len() - suffix.len()) == suffix
}

fn has_suffix(name: &str, suffix: &str) -> (yes: bool)
    ensures
        yes == ends_with(name@, suffix@),
{
    let chars = text::characters(name);
    let wanted = text::characters(suffix);
    if wanted.len() > chars.len() {
        return false;
    }
    let start: usize = chars.len() - wanted.len();
    let ghost tail = name@.skip(start as int);
    for i in 0..wanted.len()
        invariant
            chars@ == name@,
            wanted@ == suffix@,
            start == chars@.len() - wanted@.len(),
            tail == name@.skip(start as int),
            forall|j: int| 0 <= j < i ==> #[trigger] tail[j] == wanted@[j],
    {
        assert(start + i < chars.len());
        if chars[start + i] != wanted[i] {
            assert(tail[i as int] != suffix@[i as int]);
            return false;
        }
    }
    assert(tail =~= suffix@);
    true
}

/// Whether the last segment of a path is the given one.
pub open spec fn last_segment_is(path: Seq<char>, segment: Seq<char>) -> bool {
    path == segment || ends_with(path, text::concat(seq!["::"@, segment]))
}

fn is_last_segment(path: &str, segment: &str) -> (yes: bool)
    ensures
        yes == last_segment_is(path@, segment@),
{
    let qualified = concat2("::", segment);
    same_text(path, segment) || has_suffix(path, qualified.as_str())
}

/// Whether a name is that of a wrapping intrinsic.
pub open spec fn names_wrapping_intrinsic(name: Seq<char>) -> bool {
    ||| last_segment_is(name, "wrapping_add"@)
    ||| last_segment_is(name, "wrapping_sub"@)
    ||| last_segment_is(name, "wrapping_mul"@)
}

/// Whether a name is that of a wrapping intrinsic.
pub fn is_name_only_wrapping_intrinsic(name: &str) -> (yes: bool)
    ensures
        yes == names_wrapping_intrinsic(name@),
{
    is_last_segment(name, "wrapping_add") || is_last_segment(name, "wrapping_sub")
        || is_last_segment(name, "wrapping_mul")
}

/// Why a stack allocation was not admitted.
#[derive(Debug, Clone, PartialEq, Eq)]
pub struct AllocaRejectionReason {
    /// Short token.
    pub kind: String,
    /// Explanation.
    pub detail: String,
}

/// The token of why a stack allocation was not admitted.
pub open spec fn alloca_rejection_kind(alloca: Alloca) -> Seq<char> {
    if alloca.has_count {
        "alloca_count_some"@
    } else if alloca.has_align {
        "alloca_align_some"@
    } else if !alloca.has_result {
        "alloca_no_result"@
    } else {
        match alloca.rejection {
            Some(rejection) => rejection.kind@,
            None => "admissible_but_rejected"@,
        }
    }
}

/// The explanation of why a stack allocation was not admitted.
pub open spec fn alloca_rejection_detail(alloca: Alloca) -> Seq<char> {
    if alloca.has_count {
        "array alloca: the extent is a runtime value, not an internally bound one"@
    } else if alloca.has_align {
        "caller-asserted alignment on the alloca; the translator models no alignment"@
    } else if !alloca.has_result {
        "the alloca binds no result value, so there is no cell pointer to gate"@
    } else {
        match alloca.rejection {
            Some(rejection) => rejection.detail@,
            None =>
                "the admission predicate accepts this cell; the guard rejected it for another reason (report this)"@,
        }
    }
}

/// Why a stack allocation was not admitted.
pub fn alloca_rejection_reason(alloca: &Alloca) -> (reason: AllocaRejectionReason)
    ensures
        reason.kind@ == alloca_rejection_kind(*alloca),
        reason.detail@ == alloca_rejection_detail(*alloca),
{
    if alloca.has_count {
        return AllocaRejectionReason {
            kind: "alloca_count_some".to_owned(),
            detail:
                "array alloca: the extent is a runtime value, not an internally bound one".to_owned(),
        };
    }
    if alloca.has_align {
        return AllocaRejectionReason {
            kind: "alloca_align_some".to_owned(),
            detail:
                "caller-asserted alignment on the alloca; the translator models no alignment".to_owned(),
        };
    }
    if !alloca.has_result {
        return AllocaRejectionReason {
            kind: "alloca_no_result".to_owned(),
            detail:
                "the alloca binds no result value, so there is no cell pointer to gate".to_owned(),
        };
    }
    match &alloca.rejection {
        Some(rejection) => AllocaRejectionReason {
            kind: rejection.kind.clone(),
            detail: rejection.detail.clone(),
        },
        None => AllocaRejectionReason {
            kind: "admissible_but_rejected".to_owned(),
            detail:
                "the admission predicate accepts this cell; the guard rejected it for another reason (report this)".to_owned(),
        },
    }
}

/// Whether a stack allocation is admitted.
pub open spec fn alloca_admitted(alloca: Alloca) -> bool {
    !alloca.has_count && !alloca.has_align && alloca.has_result && alloca.admissible
}

/// Whether a cast is admitted.
pub open spec fn cast_admitted(cast: Cast) -> bool {
    ||| cast.admissible
    ||| (cast.op == CastOp::Trunc || cast.op == CastOp::ZExt || cast.op == CastOp::SExt)
        && cast.source.integer && cast.target.integer
}

/// Where the first function with an identifier stands.
pub open spec fn position(functions: Seq<Function>, id: u32) -> Option<int>
    decreases functions.len(),
{
    if functions.len() == 0 {
        None
    } else {
        match position(functions.drop_last(), id) {
            Some(at) => Some(at),
            None => if functions.last().id == id {
                Some(functions.len() - 1)
            } else {
                None
            },
        }
    }
}

/// A position is that of a function with the identifier.
pub proof fn lemma_position(functions: Seq<Function>, id: u32)
    ensures
        match position(functions, id) {
            Some(at) => 0 <= at < functions.len() && functions[at].id == id,
            None => forall|at: int| 0 <= at < functions.len() ==> (#[trigger] functions[at]).id
                != id,
        },
    decreases functions.len(),
{
    if functions.len() > 0 {
        let front = functions.drop_last();
        lemma_position(front, id);
        if position(functions, id) is None {
            assert forall|at: int| 0 <= at < functions.len() implies (#[trigger] functions[at]).id
                != id by {
                if at < front.len() {
                    assert(functions[at] == front[at]);
                }
            }
        }
    }
}

fn find_function(functions: &Vec<Function>, id: u32) -> (at: Option<usize>)
    ensures
        match at {
            Some(at) => at < functions@.len() && position(functions@, id) == Some(at as int),
            None => position(functions@, id) is None,
        },
{
    for i in 0..functions.len()
        invariant
            position(functions@.take(i as int), id) is None,
    {
        let ghost next = functions@.take(i + 1);
        assert(next.drop_last() =~= functions@.take(i as int));
        assert(next.last() == functions@[i as int]);
        if functions[i].id == id {
            proof {
                lemma_position_stays(functions@, i + 1, id);
            }
            return Some(i);
        }
    }
    assert(functions@.take(functions@.len() as int) =~= functions@);
    None
}

/// A function found among the first ones stays the first.
proof fn lemma_position_stays(functions: Seq<Function>, upto: int, id: u32)
    requires
        0 <= upto <= functions.len(),
        position(functions.take(upto), id) is Some,
    ensures
        position(functions, id) == position(functions.take(upto), id),
    decreases functions.len() - upto,
{
    if upto < functions.len() {
        assert(functions.take(upto + 1).drop_last() =~= functions.take(upto));
        lemma_position_stays(functions, upto + 1, id);
    } else {
        assert(functions.take(upto) =~= functions);
    }
}

/// Where an instruction stands, as messages say it.
pub open spec fn location(function: Seq<char>, block: u32, index: nat) -> Seq<char> {
    text::concat(
        seq![
            "function `"@,
            function,
            "` block #"@,
            text::decimal(block as nat),
            " instruction "@,
            text::decimal(index),
        ],
    )
}

fn location_text(function: &str, block: u32, index: usize) -> (place: String)
    ensures
        place@ == location(function@, block, index as nat),
{
    let block_text = decimal_text(block as u64);
    let index_text = decimal_text(index as u64);
    concat6(
        "function `",
        function,
        "` block #",
        block_text.as_str(),
        " instruction ",
        index_text.as_str(),
    )
}

/// The refusal of an annotation.
pub open spec fn annotation_refusal(place: Seq<char>, why: Seq<char>) -> ErrorModel {
    refusal("module.functions.proof_annotations"@, text::concat(seq![place, why]))
}

/// The refusal of an instruction.
pub open spec fn instruction_refusal(place: Seq<char>, why: Seq<char>) -> ErrorModel {
    refusal("module.functions.instructions"@, text::concat(seq![place, why]))
}

fn refuse_annotation(place: &str, why: &str) -> (refused: NativeSolveError)
    ensures
        refused@ == annotation_refusal(place@, why@),
{
    native_bundle_proof_authority_input_error(
        "module.functions.proof_annotations",
        concat2(place, why),
    )
}

fn refuse_instruction(place: &str, why: &str) -> (refused: NativeSolveError)
    ensures
        refused@ == instruction_refusal(place@, why@),
{
    native_bundle_proof_authority_input_error("module.functions.instructions", concat2(place, why))
}

/// The refusal of an access to the parts of a pointer.
pub open spec fn pointer_parts_refusal(place: Seq<char>) -> ErrorModel {
    instruction_refusal(
        place,
        " uses pointer-part semantics without an authenticated provenance and metadata-validity derivation"@,
    )
}

/// Why an instruction is refused, where its annotations are not.
pub open spec fn instruction_fault(
    functions: Seq<Function>,
    profile: AdmissionProfile,
    place: Seq<char>,
    node: InstructionNode,
) -> Option<ErrorModel> {
    match node.instruction {
        Instruction::Undef => if node.annotations@.contains(ProofAnnotation::FreshSymbolicHavoc) {
            None
        } else {
            Some(
                instruction_refusal(
                    place,
                    " executes Undef, which is TrustIr undefined behavior but is diagnostic havoc in the CHC translator"@,
                ),
            )
        },
        Instruction::Assume => if profile.source_generation_authorized {
            None
        } else {
            Some(
                instruction_refusal(
                    place,
                    " imports an unauthenticated Assume; source-generation authority is required"@,
                ),
            )
        },
        Instruction::Borrow | Instruction::BorrowMut => if profile.admit_borrows {
            None
        } else {
            Some(
                instruction_refusal(
                    place,
                    " imports borrow-checker validity without a private borrow-authority capability"@,
                ),
            )
        },
        Instruction::ExtractElement => Some(
            instruction_refusal(
                place,
                " uses ExtractElement without an internally bound bounds derivation"@,
            ),
        ),
        Instruction::Gep => Some(
            instruction_refusal(
                place,
                " uses GEP without authenticated allocation/provenance and index bounds"@,
            ),
        ),
        Instruction::PtrMetadata | Instruction::PtrData => if profile.source_generation_authorized {
            None
        } else {
            Some(pointer_parts_refusal(place))
        },
        Instruction::PtrFromParts => Some(pointer_parts_refusal(place)),
        Instruction::Alloca(alloca) => if alloca_admitted(alloca) {
            None
        } else {
            Some(
                refusal(
                    "module.functions.instructions"@,
                    text::concat(
                        seq![
                            place,
                            " uses Alloca without an internally bound extent, pointee-type, and alignment derivation (ty="@,
                            alloca.ty@,
                            ", reason="@,
                            alloca_rejection_kind(alloca),
                            ")"@,
                        ],
                    ),
                ),
            )
        },
        Instruction::DialectOp => Some(
            instruction_refusal(
                place,
                " uses a public dialect operation without a private producer-semantics capability"@,
            ),
        ),
        Instruction::Cast(cast) => if cast_admitted(cast) {
            None
        } else {
            Some(
                refusal(
                    "module.functions.instructions"@,
                    text::concat(
                        seq![
                            place,
                            " uses cast "@,
                            cast.rendering@,
                            " from "@,
                            cast.source.rendering@,
                            " to "@,
                            cast.target.rendering@,
                            "; proof authority currently admits only modeled integer Trunc/ZExt/SExt casts and exact pointer bit-identity casts"@,
                        ],
                    ),
                ),
            )
        },
        Instruction::Call { callee } => match position(functions, callee) {
            None => Some(
                refusal(
                    "module.functions.instructions"@,
                    text::concat(
                        seq![place, " references missing callee #"@, text::decimal(callee as nat)],
                    ),
                ),
            ),
            Some(at) => if names_wrapping_intrinsic(functions[at].name@) {
                Some(
                    refusal(
                        "module.functions.instructions"@,
                        text::concat(
                            seq![
                                place,
                                " calls `"@,
                                functions[at].name@,
                                "`; name-only wrapping-intrinsic substitution is diagnostic-only"@,
                            ],
                        ),
                    ),
                )
            } else {
                None
            },
        },
        Instruction::Load | Instruction::Store | Instruction::Other => None,
    }
}

/// Whether an instruction reads or writes memory.
pub open spec fn is_access(instruction: Instruction) -> bool {
    instruction is Load || instruction is Store
}

/// Why an annotated instruction is refused.
pub open spec fn node_fault(
    functions: Seq<Function>,
    profile: AdmissionProfile,
    place: Seq<char>,
    node: InstructionNode,
) -> Option<ErrorModel> {
    let annotations = node.annotations@;
    if annotations.contains(ProofAnnotation::FreshSymbolicHavoc) && !(node.instruction is Undef) {
        Some(
            annotation_refusal(
                place,
                " carries FreshSymbolicHavoc on a non-Undef instruction; the marker grants no proof authority"@,
            ),
        )
    } else if !profile.source_generation_authorized && annotations.contains(
        ProofAnnotation::Wrapping,
    ) {
        Some(
            annotation_refusal(
                place,
                " carries public Wrapping semantics that suppress an overflow obligation"@,
            ),
        )
    } else if annotations.contains(ProofAnnotation::ValidBorrow) && !(
    profile.source_generation_authorized && is_access(node.instruction)) {
        Some(
            annotation_refusal(
                place,
                " carries public ValidBorrow semantics; private borrow-authority replay is required"@,
            ),
        )
    } else {
        instruction_fault(functions, profile, place, node)
    }
}

fn carries(annotations: &Vec<ProofAnnotation>, wanted: ProofAnnotation) -> (yes: bool)
    ensures
        yes == annotations@.contains(wanted),
{
    for i in 0..annotations.len()
        invariant
            forall|j: int| 0 <= j < i ==> #[trigger] annotations@[j] != wanted,
    {
        if annotations[i] == wanted {
            return true;
        }
    }
    false
}

fn check_alloca(place: &str, alloca: &Alloca) -> (checked: NativeSolveResult<()>)
    ensures
        error::failure(checked) == (if alloca_admitted(*alloca) {
            None
        } else {
            Some(
                refusal(
                    "module.functions.instructions"@,
                    text::concat(
                        seq![
                            place@,
                            " uses Alloca without an internally bound extent, pointee-type, and alignment derivation (ty="@,
                            alloca.ty@,
                            ", reason="@,
                            alloca_rejection_kind(*alloca),
                            ")"@,
                        ],
                    ),
                ),
            )
        }),
{
    if !alloca.has_count && !alloca.has_align && alloca.has_result && alloca.admissible {
        return Ok(());
    }
    let reason = alloca_rejection_reason(alloca);
    Err(
        native_bundle_proof_authority_input_error(
            "module.functions.instructions",
            concat6(
                place,
                " uses Alloca without an internally bound extent, pointee-type, and alignment derivation (ty=",
                alloca.ty.as_str(),
                ", reason=",
                reason.kind.as_str(),
                ")",
            ),
        ),
    )
}

fn check_cast(place: &str, cast: &Cast) -> (checked: NativeSolveResult<()>)
    ensures
        error::failure(checked) == (if cast_admitted(*cast) {
            None
        } else {
            Some(
                refusal(
                    "module.functions.instructions"@,
                    text::concat(
                        seq![
                            place@,
                            " uses cast "@,
                            cast.rendering@,
                            " from "@,
                            cast.source.rendering@,
                            " to "@,
                            cast.target.rendering@,
                            "; proof authority currently admits only modeled integer Trunc/ZExt/SExt casts and exact pointer bit-identity casts"@,
                        ],
                    ),
                ),
            )
        }),
{
    let integer_cast = match cast.op {
        CastOp::Trunc | CastOp::ZExt | CastOp::SExt => cast.source.integer && cast.target.integer,
        CastOp::Other => false,
    };
    if integer_cast || cast.admissible {
        return Ok(());
    }
    Err(
        native_bundle_proof_authority_input_error(
            "module.functions.instructions",
            concat8(
                place,
                " uses cast ",
                cast.rendering.as_str(),
                " from ",
                cast.source.rendering.as_str(),
                " to ",
                cast.target.rendering.as_str(),
                "; proof authority currently admits only modeled integer Trunc/ZExt/SExt casts and exact pointer bit-identity casts",
            ),
        ),
    )
}

fn check_call(functions: &Vec<Function>, place: &str, callee: u32) -> (checked: NativeSolveResult<
    (),
>)
    ensures
        error::failure(checked) == (match position(functions@, callee) {
            None => Some(
                refusal(
                    "module.functions.instructions"@,
                    text::concat(
                        seq![place@, " references missing callee #"@, text::decimal(callee as nat)],
                    ),
                ),
            ),
            Some(at) => if names_wrapping_intrinsic(functions@[at].name@) {
                Some(
                    refusal(
                        "module.functions.instructions"@,
                        text::concat(
                            seq![
                                place@,
                                " calls `"@,
                                functions@[at].name@,
                                "`; name-only wrapping-intrinsic substitution is diagnostic-only"@,
                            ],
                        ),
                    ),
                )
            } else {
                None
            },
        }),
{
    match find_function(functions, callee) {
        None => {
            let callee_text = decimal_text(callee as u64);
            Err(
                native_bundle_proof_authority_input_error(
                    "module.functions.instructions",
                    concat3(place, " references missing callee #", callee_text.as_str()),
                ),
            )
        },
        Some(at) => {
            let name = functions[at].name.as_str();
            if is_name_only_wrapping_intrinsic(name) {
                Err(
                    native_bundle_proof_authority_input_error(
                        "module.functions.instructions",
                        concat4(
                            place,
                            " calls `",
                            name,
                            "`; name-only wrapping-intrinsic substitution is diagnostic-only",
                        ),
                    ),
                )
            } else {
                Ok(())
            }
        },
    }
}

fn check_instruction(
    functions: &Vec<Function>,
    profile: AdmissionProfile,
    place: &str,
    node: &InstructionNode,
) -> (checked: NativeSolveResult<()>)
    ensures
        error::failure(checked) == instruction_fault(functions@, profile, place@, *node),
{
    match &node.instruction {
        Instruction::Undef => if carries(&node.annotations, ProofAnnotation::FreshSymbolicHavoc) {
            Ok(())
        } else {
            Err(
                refuse_instruction(
                    place,
                    " executes Undef, which is TrustIr undefined behavior but is diagnostic havoc in the CHC translator",
                ),
            )
        },
        Instruction::Assume => if profile.source_generation_authorized {
            Ok(())
        } else {
            Err(
                refuse_instruction(
                    place,
                    " imports an unauthenticated Assume; source-generation authority is required",
                ),
            )
        },
        Instruction::Borrow | Instruction::BorrowMut => if profile.admit_borrows {
            Ok(())
        } else {
            Err(
                refuse_instruction(
                    place,
                    " imports borrow-checker validity without a private borrow-authority capability",
                ),
            )
        },
        Instruction::ExtractElement => Err(
            refuse_instruction(
                place,
                " uses ExtractElement without an internally bound bounds derivation",
            ),
        ),
        Instruction::Gep => Err(
            refuse_instruction(
                place,
                " uses GEP without authenticated allocation/provenance and index bounds",
            ),
        ),
        Instruction::PtrMetadata | Instruction::PtrData => if profile.source_generation_authorized {
            Ok(())
        } else {
            Err(refuse_pointer_parts(place))
        },
        Instruction::PtrFromParts => Err(refuse_pointer_parts(place)),
        Instruction::Alloca(alloca) => check_alloca(place, alloca),
        Instruction::DialectOp => Err(
            refuse_instruction(
                place,
                " uses a public dialect operation without a private producer-semantics capability",
            ),
        ),
        Instruction::Cast(cast) => check_cast(place, cast),
        Instruction::Call { callee } => check_call(functions, place, *callee),
        Instruction::Load | Instruction::Store | Instruction::Other => Ok(()),
    }
}

fn refuse_pointer_parts(place: &str) -> (refused: NativeSolveError)
    ensures
        refused@ == pointer_parts_refusal(place@),
{
    refuse_instruction(
        place,
        " uses pointer-part semantics without an authenticated provenance and metadata-validity derivation",
    )
}

fn check_node(
    functions: &Vec<Function>,
    profile: AdmissionProfile,
    place: &str,
    node: &InstructionNode,
) -> (checked: NativeSolveResult<()>)
    ensures
        error::failure(checked) == node_fault(functions@, profile, place@, *node),
{
    let on_undef = match &node.instruction {
        Instruction::Undef => true,
        _ => false,
    };
    let on_access = match &node.instruction {
        Instruction::Load | Instruction::Store => true,
        _ => false,
    };
    if carries(&node.annotations, ProofAnnotation::FreshSymbolicHavoc) && !on_undef {
        return Err(
            refuse_annotation(
                place,
                " carries FreshSymbolicHavoc on a non-Undef instruction; the marker grants no proof authority",
            ),
        );
    }
    if !profile.source_generation_authorized && carries(
        &node.annotations,
        ProofAnnotation::Wrapping,
    ) {
        return Err(
            refuse_annotation(
                place,
                " carries public Wrapping semantics that suppress an overflow obligation",
            ),
        );
    }
    if carries(&node.annotations, ProofAnnotation::ValidBorrow) && !(
    profile.source_generation_authorized && on_access) {
        return Err(
            refuse_annotation(
                place,
                " carries public ValidBorrow semantics; private borrow-authority replay is required",
            ),
        );
    }
    check_instruction(functions, profile, place, node)
}

/// Why a block is refused: the fault of its first faulty instruction.
pub open spec fn body_fault(
    functions: Seq<Function>,
    profile: AdmissionProfile,
    name: Seq<char>,
    block: u32,
    body: Seq<InstructionNode>,
) -> Option<ErrorModel>
    decreases body.len(),
{
    if body.len() == 0 {
        None
    } else {
        match body_fault(functions, profile, name, block, body.drop_last()) {
            Some(fault) => Some(fault),
            None => node_fault(
                functions,
                profile,
                location(name, block, (body.len() - 1) as nat),
                body.last(),
            ),
        }
    }
}

/// Why blocks are refused: the fault of the first faulty one.
pub open spec fn blocks_fault(
    functions: Seq<Function>,
    profile: AdmissionProfile,
    name: Seq<char>,
    blocks: Seq<Block>,
) -> Option<ErrorModel>
    decreases blocks.len(),
{
    if blocks.len() == 0 {
        None
    } else {
        match blocks_fault(functions, profile, name, blocks.drop_last()) {
            Some(fault) => Some(fault),
            None => body_fault(
                functions,
                profile,
                name,
                blocks.last().id,
                blocks.last().body@,
            ),
        }
    }
}

/// Why a function is refused.
pub open spec fn function_fault(
    functions: Seq<Function>,
    profile: AdmissionProfile,
    function: Function,
) -> Option<ErrorModel> {
    blocks_fault(functions, profile, function.name@, function.blocks@)
}

/// The functions that a block calls, in order.
pub open spec fn body_callees(body: Seq<InstructionNode>) -> Seq<u32>
    decreases body.len(),
{
    if body.len() == 0 {
        Seq::empty()
    } else {
        let front = body_callees(body.drop_last());
        match body.last().instruction {
            Instruction::Call { callee } => front.push(callee),
            _ => front,
        }
    }
}

/// The functions that blocks call, in order.
pub open spec fn blocks_callees(blocks: Seq<Block>) -> Seq<u32>
    decreases blocks.len(),
{
    if blocks.len() == 0 {
        Seq::empty()
    } else {
        blocks_callees(blocks.drop_last()) + body_callees(blocks.last().body@)
    }
}

/// A fault among the first instructions is the fault of the block.
proof fn lemma_body_fault_stays(
    functions: Seq<Function>,
    profile: AdmissionProfile,
    name: Seq<char>,
    block: u32,
    body: Seq<InstructionNode>,
    upto: int,
)
    requires
        0 <= upto <= body.len(),
        body_fault(functions, profile, name, block, body.take(upto)) is Some,
    ensures
        body_fault(functions, profile, name, block, body) == body_fault(
            functions,
            profile,
            name,
            block,
            body.take(upto),
        ),
    decreases body.len() - upto,
{
    if upto < body.len() {
        assert(body.take(upto + 1).drop_last() =~= body.take(upto));
        lemma_body_fault_stays(functions, profile, name, block, body, upto + 1);
    } else {
        assert(body.take(upto) =~= body);
    }
}

/// A fault among the first blocks is the fault of the function.
proof fn lemma_blocks_fault_stays(
    functions: Seq<Function>,
    profile: AdmissionProfile,
    name: Seq<char>,
    blocks: Seq<Block>,
    upto: int,
)
    requires
        0 <= upto <= blocks.len(),
        blocks_fault(functions, profile, name, blocks.take(upto)) is Some,
    ensures
        blocks_fault(functions, profile, name, blocks) == blocks_fault(
            functions,
            profile,
            name,
            blocks.take(upto),
        ),
    decreases blocks.len() - upto,
{
    if upto < blocks.len() {
        assert(blocks.take(upto + 1).drop_last() =~= blocks.take(upto));
        lemma_blocks_fault_stays(functions, profile, name, blocks, upto + 1);
    } else {
        assert(blocks.take(upto) =~= blocks);
    }
}

fn check_block(
    functions: &Vec<Function>,
    profile: AdmissionProfile,
    name: &str,
    block: &Block,
    pending: &mut Vec<u32>,
) -> (checked: NativeSolveResult<()>)
    ensures
        error::failure(checked) == body_fault(functions@, profile, name@, block.id, block.body@),
        checked is Ok ==> final(pending)@ == old(pending)@ + body_callees(block.body@),
{
    let ghost before = pending@;
    let ghost body = block.body@;
    for i in 0..block.body.len()
        invariant
            body == block.body@,
            body_fault(functions@, profile, name@, block.id, body.take(i as int)) is None,
            pending@ == before + body_callees(body.take(i as int)),
    {
        let ghost next = body.take(i + 1);
        assert(next.drop_last() =~= body.take(i as int));
        assert(next.last() == body[i as int]);
        let place = location_text(name, block.id, i);
        match check_node(functions, profile, place.as_str(), &block.body[i]) {
            Ok(()) => {},
            Err(refused) => {
                proof {
                    lemma_body_fault_stays(functions@, profile, name@, block.id, body, i + 1);
                }
                return Err(refused);
            },
        }
        match &block.body[i].instruction {
            Instruction::Call { callee } => {
                pending.push(*callee);
            },
            _ => {},
        }
        assert(pending@ =~= before + body_callees(next));
    }
    assert(body.take(body.len() as int) =~= body);
    Ok(())
}

fn check_function(
    functions: &Vec<Function>,
    profile: AdmissionProfile,
    function: &Function,
    pending: &mut Vec<u32>,
) -> (checked: NativeSolveResult<()>)
    ensures
        error::failure(checked) == function_fault(functions@, profile, *function),
        checked is Ok ==> final(pending)@ == old(pending)@ + blocks_callees(function.blocks@),
{
    let ghost before = pending@;
    let ghost blocks = function.blocks@;
    for i in 0..function.blocks.len()
        invariant
            blocks == function.blocks@,
            blocks_fault(functions@, profile, function.name@, blocks.take(i as int)) is None,
            pending@ == before + blocks_callees(blocks.take(i as int)),
    {
        let ghost next = blocks.take(i + 1);
        assert(next.drop_last() =~= blocks.take(i as int));
        assert(next.last() == blocks[i as int]);
        match check_block(
            functions,
            profile,
            function.name.as_str(),
            &function.blocks[i],
            pending,
        ) {
            Ok(()) => {},
            Err(refused) => {
                proof {
                    lemma_blocks_fault_stays(
                        functions@,
                        profile,
                        function.name@,
                        blocks,
                        i + 1,
                    );
                }
                return Err(refused);
            },
        }
        assert(pending@ =~= before + blocks_callees(next));
    }
    assert(blocks.take(blocks.len() as int) =~= blocks);
    Ok(())
}

/// How many functions have not been visited.
pub open spec fn unvisited(functions: Seq<Function>, visited: Set<u32>) -> nat
    decreases functions.len(),
{
    if functions.len() == 0 {
        0
    } else {
        unvisited(functions.drop_last(), visited) + if visited.contains(functions.last().id) {
            0nat
        } else {
            1nat
        }
    }
}

/// Visiting a function leaves fewer unvisited.
pub proof fn lemma_visit_shrinks(functions: Seq<Function>, visited: Set<u32>, id: u32)
    ensures
        unvisited(functions, visited.insert(id)) <= unvisited(functions, visited),
        position(functions, id) is Some && !visited.contains(id) ==> unvisited(
            functions,
            visited.insert(id),
        ) < unvisited(functions, visited),
    decreases functions.len(),
{
    if functions.len() > 0 {
        lemma_visit_shrinks(functions.drop_last(), visited, id);
    }
}

/// Why the functions reachable from the pending ones are refused: the fault of
/// the first faulty one, latest pending function first.
pub open spec fn walk_fault(
    functions: Seq<Function>,
    profile: AdmissionProfile,
    pending: Seq<u32>,
    visited: Set<u32>,
) -> Option<ErrorModel>
    decreases unvisited(functions, visited), pending.len(),
{
    if pending.len() == 0 {
        None
    } else {
        let id = pending.last();
        let rest = pending.drop_last();
        if visited.contains(id) {
            walk_fault(functions, profile, rest, visited)
        } else {
            match position(functions, id) {
                None => Some(
                    refusal(
                        "module.functions"@,
                        text::concat(
                            seq![
                                "requested or reachable function #"@,
                                text::decimal(id as nat),
                                " is missing"@,
                            ],
                        ),
                    ),
                ),
                Some(at) => match function_fault(functions, profile, functions[at]) {
                    Some(fault) => Some(fault),
                    None => {
                        proof {
                            lemma_visit_shrinks(functions, visited, id);
                        }
                        walk_fault(
                            functions,
                            profile,
                            rest + blocks_callees(functions[at].blocks@),
                            visited.insert(id),
                        )
                    },
                },
            }
        }
    }
}

fn check_reachable(
    functions: &Vec<Function>,
    profile: AdmissionProfile,
    requested: &Vec<u32>,
) -> (checked: NativeSolveResult<()>)
    ensures
        error::failure(checked) == walk_fault(
            functions@,
            profile,
            requested@,
            Set::empty(),
        ),
{
    broadcast use vstd::std_specs::btree::group_btree_axioms;

    let mut pending: Vec<u32> = Vec::new();
    for i in 0..requested.len()
        invariant
            pending@ == requested@.take(i as int),
    {
        pending.push(requested[i]);
        assert(pending@ =~= requested@.take(i + 1));
    }
    assert(pending@ =~= requested@);
    let mut visited: BTreeSet<u32> = BTreeSet::new();
    while pending.len() > 0
        invariant
            walk_fault(functions@, profile, pending@, visited@) == walk_fault(
                functions@,
                profile,
                requested@,
                Set::empty(),
            ),
        decreases unvisited(functions@, visited@), pending@.len(),
    {
        let ghost before = pending@;
        let id: u32 = pending[pending.len() - 1];
        let _top = pending.pop();
        assert(pending@ =~= before.drop_last());
        if visited.contains(&id) {
            continue;
        }
        let ghost seen = visited@;
        visited.insert(id);
        match find_function(functions, id) {
            None => {
                let id_text = decimal_text(id as u64);
                return Err(
                    native_bundle_proof_authority_input_error(
                        "module.functions",
                        concat3(
                            "requested or reachable function #",
                            id_text.as_str(),
                            " is missing",
                        ),
                    ),
                );
            },
            Some(at) => {
                proof {
                    lemma_visit_shrinks(functions@, seen, id);
                }
                match check_function(functions, profile, &functions[at], &mut pending) {
                    Ok(()) => {},
                    Err(refused) => {
                        return Err(refused);
                    },
                }
            },
        }
    }
    Ok(())
}

/// Why a bundle is refused.
pub open spec fn gate_fault(
    bundle: NativeVerificationBundle,
    profile: AdmissionProfile,
) -> Option<ErrorModel> {
    if !bundle.module_valid {
        let reported = text::owned_texts(bundle.module_errors@).take(
            if bundle.module_errors@.len() < REPORTED_MODULE_ERRORS {
                bundle.module_errors@.len() as int
            } else {
                REPORTED_MODULE_ERRORS as int
            },
        );
        Some(
            refusal(
                "module"@,
                text::concat(
                    seq![
                        "full TrustIr module validation failed: "@,
                        text::joined(reported, "; "@),
                    ],
                ),
            ),
        )
    } else {
        match bundle.target_info {
            None => Some(
                refusal(
                    "module.target_info"@,
                    "proof-grade CHC translation requires an explicit 64-bit target profile"@,
                ),
            ),
            Some(target) => if target.pointer_size != MODELED_POINTER_SIZE {
                Some(
                    refusal(
                        "module.target_info.pointer_size"@,
                        text::concat(
                            seq![
                                "proof-grade CHC translation currently models 64-bit pointers, but target `"@,
                                target.triple@,
                                "` declares "@,
                                text::decimal(target.pointer_size as nat),
                                "-byte pointers"@,
                            ],
                        ),
                    ),
                )
            } else {
                walk_fault(bundle.functions@, profile, bundle.requested@, Set::empty())
            },
        }
    }
}

fn reported_errors(errors: &Vec<String>) -> (reported: Vec<String>)
    ensures
        text::owned_texts(reported@) == text::owned_texts(errors@).take(
            if errors@.len() < REPORTED_MODULE_ERRORS {
                errors@.len() as int
            } else {
                REPORTED_MODULE_ERRORS as int
            },
        ),
{
    let count: usize = if errors.len() < REPORTED_MODULE_ERRORS {
        errors.len()
    } else {
        REPORTED_MODULE_ERRORS
    };
    let mut reported: Vec<String> = Vec::new();
    for i in 0..count
        invariant
            count <= errors@.len(),
            reported@.len() == i,
            forall|j: int| 0 <= j < i ==> (#[trigger] reported@[j])@ == errors@[j]@,
    {
        reported.push(errors[i].clone());
    }
    assert(text::owned_texts(reported@) =~= text::owned_texts(errors@).take(count as int));
    reported
}

/// Admits a bundle to proof authority, or says what is in the way.
pub fn validate_native_bundle_proof_authority_input(
    bundle: &NativeVerificationBundle,
    profile: AdmissionProfile,
) -> (admitted: NativeSolveResult<()>)
    ensures
        error::failure(admitted) == gate_fault(*bundle, profile),
{
    if !bundle.module_valid {
        let reported = reported_errors(&bundle.module_errors);
        let listed = join(reported.as_slice(), "; ");
        return Err(
            native_bundle_proof_authority_input_error(
                "module",
                concat2("full TrustIr module validation failed: ", listed.as_str()),
            ),
        );
    }
    match &bundle.target_info {
        Some(target) => {
            if target.pointer_size != MODELED_POINTER_SIZE {
                let size = decimal_text(target.pointer_size as u64);
                return Err(
                    native_bundle_proof_authority_input_error(
                        "module.target_info.pointer_size",
                        concat5(
                            "proof-grade CHC translation currently models 64-bit pointers, but target `",
                            target.triple.as_str(),
                            "` declares ",
                            size.as_str(),
                            "-byte pointers",
                        ),
                    ),
                );
            }
        },
        None => {
            return Err(
                native_bundle_proof_authority_input_error(
                    "module.target_info",
                    "proof-grade CHC translation requires an explicit 64-bit target profile".to_owned(),
                ),
            );
        },
    }
    check_reachable(&bundle.functions, profile, &bundle.requested)
}

/// Whether one function calls another.
pub open spec fn calls(functions: Seq<Function>, from: u32, to: u32) -> bool {
    position(functions, from) matches Some(at) && blocks_callees(functions[at].blocks@).contains(to)
}

/// Whether a sequence of functions follows calls from a requested one.
pub open spec fn call_path(functions: Seq<Function>, requested: Seq<u32>, path: Seq<u32>) -> bool {
    &&& path.len() > 0
    &&& requested.contains(path[0])
    &&& forall|i: int|
        0 <= i < path.len() - 1 ==> calls(functions, #[trigger] path[i], path[i + 1])
}

/// Whether a function is reachable from a requested one.
pub open spec fn reachable(functions: Seq<Function>, requested: Seq<u32>, id: u32) -> bool {
    exists|path: Seq<u32>| #[trigger]
        call_path(functions, requested, path) && path.last() == id
}

/// Whether a function is there and has no fault.
pub open spec fn clean(functions: Seq<Function>, profile: AdmissionProfile, id: u32) -> bool {
    position(functions, id) matches Some(at) && function_fault(
        functions,
        profile,
        functions[at],
    ) is None
}

/// Whether a set of clean functions holds whatever they call, but for pending
/// ones.
spec fn closed_but(
    functions: Seq<Function>,
    profile: AdmissionProfile,
    visited: Set<u32>,
    pending: Seq<u32>,
) -> bool {
    &&& forall|id: u32| #[trigger] visited.contains(id) ==> clean(functions, profile, id)
    &&& forall|from: u32, to: u32| #[trigger]
        calls(functions, from, to) && visited.contains(from) ==> visited.contains(to)
            || pending.contains(to)
}

/// A walk without a fault visits clean functions only, and all they call.
proof fn lemma_faultless_walk(
    functions: Seq<Function>,
    profile: AdmissionProfile,
    pending: Seq<u32>,
    visited: Set<u32>,
) -> (all: Set<u32>)
    requires
        walk_fault(functions, profile, pending, visited) is None,
        closed_but(functions, profile, visited, pending),
    ensures
        closed_but(functions, profile, all, Seq::empty()),
        visited.subset_of(all),
        forall|i: int| 0 <= i < pending.len() ==> all.contains(#[trigger] pending[i]),
    decreases unvisited(functions, visited), pending.len(),
{
    if pending.len() == 0 {
        assert(pending =~= Seq::empty());
        visited
    } else {
        let id = pending.last();
        let rest = pending.drop_last();
        assert forall|to: u32| pending.contains(to) && to != id implies rest.contains(to) by {
            let i = choose|i: int| 0 <= i < pending.len() && pending[i] == to;
            assert(rest[i] == to);
        }
        if visited.contains(id) {
            let all = lemma_faultless_walk(functions, profile, rest, visited);
            assert forall|i: int| 0 <= i < pending.len() implies all.contains(
                #[trigger] pending[i],
            ) by {
                if i < rest.len() {
                    assert(rest[i] == pending[i]);
                }
            }
            all
        } else {
            let at = position(functions, id)->0;
            let callees = blocks_callees(functions[at].blocks@);
            let next = rest + callees;
            lemma_visit_shrinks(functions, visited, id);
            assert forall|from: u32, to: u32| #[trigger]
                calls(functions, from, to) && visited.insert(id).contains(
                    from,
                ) implies visited.insert(id).contains(to) || next.contains(to) by {
                if from == id {
                    let i = choose|i: int| 0 <= i < callees.len() && callees[i] == to;
                    assert(next[rest.len() + i] == to);
                } else if !visited.contains(to) && to != id {
                    assert(pending.contains(to));
                    let i = choose|i: int| 0 <= i < rest.len() && rest[i] == to;
                    assert(next[i] == to);
                }
            }
            let all = lemma_faultless_walk(functions, profile, next, visited.insert(id));
            assert forall|i: int| 0 <= i < pending.len() implies all.contains(
                #[trigger] pending[i],
            ) by {
                if i < rest.len() {
                    assert(next[i] == pending[i]);
                } else {
                    assert(visited.insert(id).contains(id));
                }
            }
            all
        }
    }
}

/// A closed set that holds the requested functions holds all reachable ones.
proof fn lemma_closed_holds_reachable(
    functions: Seq<Function>,
    profile: AdmissionProfile,
    requested: Seq<u32>,
    all: Set<u32>,
    path: Seq<u32>,
)
    requires
        closed_but(functions, profile, all, Seq::empty()),
        forall|i: int| 0 <= i < requested.len() ==> all.contains(#[trigger] requested[i]),
        call_path(functions, requested, path),
    ensures
        all.contains(path.last()),
    decreases path.len(),
{
    if path.len() == 1 {
        let i = choose|i: int| 0 <= i < requested.len() && requested[i] == path[0];
        assert(all.contains(requested[i]));
    } else {
        let front = path.drop_last();
        assert forall|i: int| 0 <= i < front.len() - 1 implies calls(
            functions,
            #[trigger] front[i],
            front[i + 1],
        ) by {
            assert(calls(functions, path[i], path[i + 1]));
        }
        lemma_closed_holds_reachable(functions, profile, requested, all, front);
        let at = path.len() - 2;
        assert(calls(functions, path[at], path[at + 1]));
        assert(front.last() == path[at]);
    }
}

/// A function called from a reachable one is reachable.
pub proof fn lemma_reaches_on(functions: Seq<Function>, requested: Seq<u32>, from: u32, to: u32)
    requires
        reachable(functions, requested, from),
        calls(functions, from, to),
    ensures
        reachable(functions, requested, to),
{
    let path = choose|path: Seq<u32>| #[trigger]
        call_path(functions, requested, path) && path.last() == from;
    let longer = path.push(to);
    assert forall|i: int| 0 <= i < longer.len() - 1 implies calls(
        functions,
        #[trigger] longer[i],
        longer[i + 1],
    ) by {
        if i < path.len() - 1 {
            assert(calls(functions, path[i], path[i + 1]));
        }
    }
    assert(call_path(functions, requested, longer));
    assert(longer.last() == to);
}

/// A walk over functions that are all clean finds no fault.
proof fn lemma_clean_walk(
    functions: Seq<Function>,
    profile: AdmissionProfile,
    requested: Seq<u32>,
    pending: Seq<u32>,
    visited: Set<u32>,
)
    requires
        forall|id: u32| #[trigger]
            reachable(functions, requested, id) ==> clean(functions, profile, id),
        forall|i: int|
            0 <= i < pending.len() ==> reachable(functions, requested, #[trigger] pending[i]),
    ensures
        walk_fault(functions, profile, pending, visited) is None,
    decreases unvisited(functions, visited), pending.len(),
{
    if pending.len() > 0 {
        let id = pending.last();
        let rest = pending.drop_last();
        assert(reachable(functions, requested, pending[pending.len() - 1]));
        assert forall|i: int| 0 <= i < rest.len() implies reachable(
            functions,
            requested,
            #[trigger] rest[i],
        ) by {
            assert(rest[i] == pending[i]);
        }
        if visited.contains(id) {
            lemma_clean_walk(functions, profile, requested, rest, visited);
        } else {
            assert(clean(functions, profile, id));
            let at = position(functions, id)->0;
            let callees = blocks_callees(functions[at].blocks@);
            let next = rest + callees;
            assert forall|i: int| 0 <= i < next.len() implies reachable(
                functions,
                requested,
                #[trigger] next[i],
            ) by {
                if i < rest.len() {
                    assert(next[i] == rest[i]);
                } else {
                    assert(next[i] == callees[i - rest.len()]);
                    assert(calls(functions, id, next[i]));
                    lemma_reaches_on(functions, requested, id, next[i]);
                }
            }
            lemma_visit_shrinks(functions, visited, id);
            lemma_clean_walk(functions, profile, requested, next, visited.insert(id));
        }
    }
}

/// A bundle with a valid module for the modelled target is admitted exactly
/// where every function that a request can reach is there and free of faults.
pub proof fn law_admitted_means_all_reachable_clean(
    bundle: NativeVerificationBundle,
    profile: AdmissionProfile,
)
    ensures
        gate_fault(bundle, profile) is None <==> {
            &&& bundle.module_valid
            &&& bundle.target_info matches Some(target) && target.pointer_size
                == MODELED_POINTER_SIZE
            &&& forall|id: u32| #[trigger]
                reachable(bundle.functions@, bundle.requested@, id) ==> clean(
                    bundle.functions@,
                    profile,
                    id,
                )
        },
{
    let functions = bundle.functions@;
    let requested = bundle.requested@;
    if walk_fault(functions, profile, requested, Set::empty()) is None {
        let all = lemma_faultless_walk(functions, profile, requested, Set::empty());
        assert forall|id: u32| #[trigger] reachable(functions, requested, id) implies clean(
            functions,
            profile,
            id,
        ) by {
            let path = choose|path: Seq<u32>| #[trigger]
                call_path(functions, requested, path) && path.last() == id;
            lemma_closed_holds_reachable(functions, profile, requested, all, path);
        }
    }
    if forall|id: u32| #[trigger]
        reachable(functions, requested, id) ==> clean(functions, profile, id) {
        assert forall|i: int| 0 <= i < requested.len() implies reachable(
            functions,
            requested,
            #[trigger] requested[i],
        ) by {
            let path = seq![requested[i]];
            assert(call_path(functions, requested, path));
            assert(path.last() == requested[i]);
        }
        lemma_clean_walk(functions, profile, requested, requested, Set::empty());
    }
}

/// No authority admits address computations, element extractions, pointers built
/// from parts, dialect operations, calls of wrapping intrinsics by name, or
/// stack cells and casts that the translator does not model.
pub proof fn law_shortcuts_stay_refused(
    functions: Seq<Function>,
    profile: AdmissionProfile,
    place: Seq<char>,
    node: InstructionNode,
)
    requires
        match node.instruction {
            Instruction::ExtractElement
            | Instruction::Gep
            | Instruction::PtrFromParts
            | Instruction::DialectOp => true,
            Instruction::Alloca(alloca) => !alloca_admitted(alloca),
            Instruction::Cast(cast) => !cast_admitted(cast),
            Instruction::Call { callee } => match position(functions, callee) {
                Some(at) => names_wrapping_intrinsic(functions[at].name@),
                None => true,
            },
            _ => false,
        },
    ensures
        node_fault(functions, profile, place, node) is Some,
{
}

/// The authority of the live lowering only admits more, and what it admits in
/// addition is an assumption, a lane of a pointer, wrapping arithmetic or an
/// access through a borrow.
pub proof fn law_authority_admits_only_source_constructs(
    functions: Seq<Function>,
    profile: AdmissionProfile,
    place: Seq<char>,
    node: InstructionNode,
)
    requires
        profile.source_generation_authorized,
    ensures
        ({
            let without = AdmissionProfile { source_generation_authorized: false, ..profile };
            &&& node_fault(functions, without, place, node) is None ==> node_fault(
                functions,
                profile,
                place,
                node,
            ) is None
            &&& node_fault(functions, profile, place, node) is None && node_fault(
                functions,
                without,
                place,
                node,
            ) is Some ==> {
                ||| node.instruction is Assume
                ||| node.instruction is PtrMetadata
                ||| node.instruction is PtrData
                ||| node.annotations@.contains(ProofAnnotation::Wrapping)
                ||| node.annotations@.contains(ProofAnnotation::ValidBorrow) && is_access(
                    node.instruction,
                )
            }
        }),
{
}

/// A fresh unconstrained symbol is admitted on an undefined value and nowhere
/// else.
pub proof fn law_fresh_symbols_are_admitted_on_undef_only(
    functions: Seq<Function>,
    profile: AdmissionProfile,
    place: Seq<char>,
    node: InstructionNode,
)
    requires
        node.annotations@ == seq![ProofAnnotation::FreshSymbolicHavoc],
    ensures
        node_fault(functions, profile, place, node) is None <==> node.instruction is Undef,
{
    assert(node.annotations@[0] == ProofAnnotation::FreshSymbolicHavoc);
    assert(!node.annotations@.contains(ProofAnnotation::Wrapping));
    assert(!node.annotations@.contains(ProofAnnotation::ValidBorrow));
    assert(node.annotations@.contains(ProofAnnotation::FreshSymbolicHavoc));
}

/// Whether an instruction is admitted, if at all, by the authority of the live
/// lowering only.
pub open spec fn needs_authority(node: InstructionNode) -> bool {
    ||| node.instruction is Assume
    ||| node.instruction is PtrMetadata
    ||| node.instruction is PtrData
    ||| node.annotations@.contains(ProofAnnotation::Wrapping)
    ||| node.annotations@.contains(ProofAnnotation::ValidBorrow)
}

/// Whether an instruction is an assumption, and nothing else of it needs the
/// authority of the live lowering.
pub open spec fn is_bare_assume(node: InstructionNode) -> bool {
    &&& node.instruction is Assume
    &&& !node.annotations@.contains(ProofAnnotation::Wrapping)
    &&& !node.annotations@.contains(ProofAnnotation::ValidBorrow)
}

/// Whether the block `b` of a function holds an instruction at `i`.
pub open spec fn holds_at(function: Function, b: int, i: int, node: InstructionNode) -> bool {
    0 <= b < function.blocks@.len() && 0 <= i < function.blocks@[b].body@.len()
        && function.blocks@[b].body@[i] == node
}

/// Whether a request reaches an instruction.
pub open spec fn reaches_node(bundle: NativeVerificationBundle, node: InstructionNode) -> bool {
    exists|id: u32, at: int, b: int, i: int|
        #![trigger reachable(bundle.functions@, bundle.requested@, id), holds_at(bundle.functions@[at], b, i, node)]
        reachable(bundle.functions@, bundle.requested@, id) && position(bundle.functions@, id)
            == Some(at) && holds_at(bundle.functions@[at], b, i, node)
}

/// The profile without the authority of the live lowering.
pub open spec fn uncovered(profile: AdmissionProfile) -> AdmissionProfile {
    AdmissionProfile { source_generation_authorized: false, ..profile }
}

/// Whether a fault is that of an instruction which a request reaches and which
/// only the authority of the live lowering admits.
pub open spec fn faults_for_authority(
    bundle: NativeVerificationBundle,
    profile: AdmissionProfile,
    fault: ErrorModel,
) -> bool {
    exists|node: InstructionNode, place: Seq<char>|
        #![trigger node_fault(bundle.functions@, profile, place, node)]
        reaches_node(bundle, node) && needs_authority(node) && node_fault(
            bundle.functions@,
            profile,
            place,
            node,
        ) is None && node_fault(bundle.functions@, uncovered(profile), place, node) == Some(fault)
}

/// Whether a fault is that of an instruction of a function which only the authority
/// of the live lowering admits.
spec fn function_faults_for_authority(
    functions: Seq<Function>,
    profile: AdmissionProfile,
    function: Function,
    fault: ErrorModel,
) -> bool {
    exists|b: int, i: int, node: InstructionNode, place: Seq<char>|
        #![trigger holds_at(function, b, i, node), node_fault(functions, profile, place, node)]
        holds_at(function, b, i, node) && needs_authority(node) && node_fault(
            functions,
            profile,
            place,
            node,
        ) is None && node_fault(functions, uncovered(profile), place, node) == Some(fault)
}

/// Where authority admits a block, the block without it is refused for its first
/// instruction that needs it.
proof fn lemma_uncovered_body(
    functions: Seq<Function>,
    profile: AdmissionProfile,
    name: Seq<char>,
    block: u32,
    body: Seq<InstructionNode>,
) -> (at: int)
    requires
        body_fault(functions, profile, name, block, body) is None,
    ensures
        match body_fault(functions, uncovered(profile), name, block, body) {
            Some(fault) => 0 <= at < body.len() && needs_authority(body[at]) && node_fault(
                functions,
                profile,
                location(name, block, at as nat),
                body[at],
            ) is None && node_fault(
                functions,
                uncovered(profile),
                location(name, block, at as nat),
                body[at],
            ) == Some(fault),
            None => forall|i: int| 0 <= i < body.len() ==> !needs_authority(#[trigger] body[i]),
        },
    decreases body.len(),
{
    if body.len() == 0 {
        0
    } else {
        let front = body.drop_last();
        let at = lemma_uncovered_body(functions, profile, name, block, front);
        assert(body[body.len() - 1] == body.last());
        assert forall|i: int| 0 <= i < front.len() implies #[trigger] body[i] == front[i] by {}
        if body_fault(functions, uncovered(profile), name, block, front) is Some {
            at
        } else {
            body.len() - 1
        }
    }
}

/// Where authority admits blocks, they are refused without it for their first
/// instruction that needs it.
proof fn lemma_uncovered_blocks(
    functions: Seq<Function>,
    profile: AdmissionProfile,
    name: Seq<char>,
    blocks: Seq<Block>,
) -> (at: (int, int))
    requires
        blocks_fault(functions, profile, name, blocks) is None,
    ensures
        match blocks_fault(functions, uncovered(profile), name, blocks) {
            Some(fault) => 0 <= at.0 < blocks.len() && 0 <= at.1 < blocks[at.0].body@.len()
                && needs_authority(blocks[at.0].body@[at.1]) && node_fault(
                functions,
                profile,
                location(name, blocks[at.0].id, at.1 as nat),
                blocks[at.0].body@[at.1],
            ) is None && node_fault(
                functions,
                uncovered(profile),
                location(name, blocks[at.0].id, at.1 as nat),
                blocks[at.0].body@[at.1],
            ) == Some(fault),
            None => forall|b: int, i: int|
                0 <= b < blocks.len() && 0 <= i < blocks[b].body@.len() ==> !needs_authority(
                    #[trigger] blocks[b].body@[i],
                ),
        },
    decreases blocks.len(),
{
    if blocks.len() == 0 {
        (0, 0)
    } else {
        let front = blocks.drop_last();
        let last = blocks.last();
        let at = lemma_uncovered_blocks(functions, profile, name, front);
        let own = lemma_uncovered_body(functions, profile, name, last.id, last.body@);
        assert(blocks[blocks.len() - 1] == last);
        assert forall|b: int| 0 <= b < front.len() implies #[trigger] blocks[b] == front[b] by {}
        if blocks_fault(functions, uncovered(profile), name, front) is Some {
            at
        } else {
            (blocks.len() - 1, own)
        }
    }
}

/// Where authority admits a function, it is refused without it exactly where one of
/// its instructions needs it.
proof fn lemma_uncovered_function(
    functions: Seq<Function>,
    profile: AdmissionProfile,
    function: Function,
)
    requires
        function_fault(functions, profile, function) is None,
    ensures
        match function_fault(functions, uncovered(profile), function) {
            Some(fault) => function_faults_for_authority(functions, profile, function, fault),
            None => forall|b: int, i: int, node: InstructionNode| #[trigger]
                holds_at(function, b, i, node) ==> !needs_authority(node),
        },
{
    let blocks = function.blocks@;
    let at = lemma_uncovered_blocks(functions, profile, function.name@, blocks);
    if let Some(fault) = function_fault(functions, uncovered(profile), function) {
        let node = blocks[at.0].body@[at.1];
        assert(holds_at(function, at.0, at.1, node));
        assert(node_fault(
            functions,
            profile,
            location(function.name@, blocks[at.0].id, at.1 as nat),
            node,
        ) is None);
    }
}

proof fn lemma_uncovered_walk(
    bundle: NativeVerificationBundle,
    profile: AdmissionProfile,
    pending: Seq<u32>,
    visited: Set<u32>,
)
    requires
        walk_fault(bundle.functions@, profile, pending, visited) is None,
        forall|i: int|
            0 <= i < pending.len() ==> reachable(
                bundle.functions@,
                bundle.requested@,
                #[trigger] pending[i],
            ),
    ensures
        walk_fault(bundle.functions@, uncovered(profile), pending, visited) matches Some(fault)
            ==> faults_for_authority(bundle, profile, fault),
    decreases unvisited(bundle.functions@, visited), pending.len(),
{
    let functions = bundle.functions@;
    let requested = bundle.requested@;
    let without = uncovered(profile);
    if pending.len() > 0 {
        let id = pending.last();
        let rest = pending.drop_last();
        assert(pending[pending.len() - 1] == id);
        assert forall|i: int| 0 <= i < rest.len() implies reachable(
            functions,
            requested,
            #[trigger] rest[i],
        ) by {
            assert(rest[i] == pending[i]);
        }
        if visited.contains(id) {
            lemma_uncovered_walk(bundle, profile, rest, visited);
        } else {
            let at = position(functions, id)->0;
            let callees = blocks_callees(functions[at].blocks@);
            let next = rest + callees;
            assert forall|i: int| 0 <= i < next.len() implies reachable(
                functions,
                requested,
                #[trigger] next[i],
            ) by {
                if i < rest.len() {
                    assert(next[i] == rest[i]);
                } else {
                    assert(next[i] == callees[i - rest.len()]);
                    assert(calls(functions, id, next[i]));
                    lemma_reaches_on(functions, requested, id, next[i]);
                }
            }
            lemma_uncovered_function(functions, profile, functions[at]);
            if let Some(fault) = function_fault(functions, without, functions[at]) {
                let (b, i, node, place) = choose|
                    b: int,
                    i: int,
                    node: InstructionNode,
                    place: Seq<char>,
                |
                    #![trigger holds_at(functions[at], b, i, node), node_fault(functions, profile, place, node)]
                    holds_at(functions[at], b, i, node) && needs_authority(node) && node_fault(
                        functions,
                        profile,
                        place,
                        node,
                    ) is None && node_fault(functions, without, place, node) == Some(fault);
                assert(reachable(functions, requested, id));
                assert(reaches_node(bundle, node));
            }
            lemma_visit_shrinks(functions, visited, id);
            lemma_uncovered_walk(bundle, profile, next, visited.insert(id));
        }
    }
}

/// A bundle that the authority of the live lowering admits is refused without it
/// exactly where a request reaches an instruction that needs it, and the refusal is
/// that of such an instruction.
pub proof fn law_uncovered_bundles_are_refused(
    bundle: NativeVerificationBundle,
    profile: AdmissionProfile,
)
    requires
        gate_fault(bundle, profile) is None,
    ensures
        gate_fault(bundle, uncovered(profile)) is Some <==> exists|node: InstructionNode| #[trigger]
            reaches_node(bundle, node) && needs_authority(node),
        gate_fault(bundle, uncovered(profile)) matches Some(fault) ==> faults_for_authority(
            bundle,
            profile,
            fault,
        ),
{
    let functions = bundle.functions@;
    let requested = bundle.requested@;
    let without = uncovered(profile);
    assert forall|i: int| 0 <= i < requested.len() implies reachable(
        functions,
        requested,
        #[trigger] requested[i],
    ) by {
        let path = seq![requested[i]];
        assert(call_path(functions, requested, path));
        assert(path.last() == requested[i]);
    }
    lemma_uncovered_walk(bundle, profile, requested, Set::empty());
    law_admitted_means_all_reachable_clean(bundle, profile);
    law_admitted_means_all_reachable_clean(bundle, without);
    if gate_fault(bundle, without) is None {
        assert forall|node: InstructionNode| #[trigger]
            reaches_node(bundle, node) implies !needs_authority(node) by {
            let (id, at, b, i) = choose|id: u32, at: int, b: int, i: int|
                #![trigger reachable(functions, requested, id), holds_at(functions[at], b, i, node)]
                reachable(functions, requested, id) && position(functions, id) == Some(at)
                    && holds_at(functions[at], b, i, node);
            assert(clean(functions, profile, id));
            assert(clean(functions, without, id));
            lemma_uncovered_function(functions, profile, functions[at]);
        }
    }
}

/// What the refusal of an assumption says.
proof fn lemma_assume_refusal(place: Seq<char>)
    ensures
        instruction_refusal(
            place,
            " imports an unauthenticated Assume; source-generation authority is required"@,
        ) matches ErrorModel::InvalidInput { field, detail } && field
            == "native_trust_ir_bundle.module.functions.instructions"@ && text::contains(
            detail,
            "unauthenticated Assume"@,
        ),
{
    reveal_strlit(" imports an unauthenticated Assume; source-generation authority is required");
    reveal_strlit("unauthenticated Assume");
    reveal_strlit("native_trust_ir_bundle.");
    reveal_strlit("module.functions.instructions");
    reveal_strlit("native_trust_ir_bundle.module.functions.instructions");
    reveal_with_fuel(text::concat, 3);
    let why = " imports an unauthenticated Assume; source-generation authority is required"@;
    let said = "unauthenticated Assume"@;
    let parts = seq![place, why];
    assert(parts.drop_last() =~= seq![place]);
    assert(parts.drop_last().drop_last() =~= Seq::empty());
    let detail = text::concat(parts);
    assert(detail =~= place + why);
    let at = place.len() as int + 12;
    assert(detail.subrange(at, at + said.len()) =~= said);
    let root = "native_trust_ir_bundle."@;
    let field = "module.functions.instructions"@;
    let names = seq![root, field];
    assert(names.drop_last() =~= seq![root]);
    assert(names.drop_last().drop_last() =~= Seq::empty());
    assert(text::concat(names) =~= root + field);
    assert(root + field =~= "native_trust_ir_bundle.module.functions.instructions"@);
}

/// Where the authority of the live lowering admits a bundle whose requests reach an
/// assumption, the bundle without that authority is refused. Where they reach
/// nothing but assumptions that needs the authority, the refusal is of an
/// assumption.
pub proof fn law_uncovered_assumes_are_refused(
    bundle: NativeVerificationBundle,
    profile: AdmissionProfile,
)
    requires
        gate_fault(bundle, profile) is None,
        exists|node: InstructionNode| #[trigger]
            reaches_node(bundle, node) && node.instruction is Assume,
    ensures
        gate_fault(bundle, uncovered(profile)) matches Some(fault) && faults_for_authority(
            bundle,
            profile,
            fault,
        ),
        (forall|node: InstructionNode| #[trigger]
            reaches_node(bundle, node) && needs_authority(node) ==> is_bare_assume(node)) ==> (
        gate_fault(bundle, uncovered(profile)) matches Some(
            ErrorModel::InvalidInput { field, detail },
        ) && field == "native_trust_ir_bundle.module.functions.instructions"@ && text::contains(
            detail,
            "unauthenticated Assume"@,
        )),
{
    let without = uncovered(profile);
    law_uncovered_bundles_are_refused(bundle, profile);
    let fault = gate_fault(bundle, without)->0;
    let (node, place) = choose|node: InstructionNode, place: Seq<char>|
        #![trigger node_fault(bundle.functions@, profile, place, node)]
        reaches_node(bundle, node) && needs_authority(node) && node_fault(
            bundle.functions@,
            profile,
            place,
            node,
        ) is None && node_fault(bundle.functions@, without, place, node) == Some(fault);
    if is_bare_assume(node) {
        lemma_assume_refusal(place);
    }
}

} // verus!
