use trust_mc_native::admission::{
    alloca_rejection_reason, is_name_only_wrapping_intrinsic,
    validate_native_bundle_proof_authority_input, AdmissionProfile, Alloca, AllocaRejection, Block,
    Cast, CastOp, Function, Instruction, InstructionNode, NativeVerificationBundle,
    ProofAnnotation, TargetProfile, ValueType,
};
use trust_mc_native::error::NativeSolveError;

const PUBLIC: AdmissionProfile =
    AdmissionProfile { source_generation_authorized: false, admit_borrows: false };
const AUTHORIZED: AdmissionProfile =
    AdmissionProfile { source_generation_authorized: true, admit_borrows: false };

fn plain(instruction: Instruction) -> InstructionNode {
    InstructionNode { annotations: vec![], instruction }
}

fn stamped(annotation: ProofAnnotation, instruction: Instruction) -> InstructionNode {
    InstructionNode { annotations: vec![annotation], instruction }
}

fn function(id: u32, name: &str, body: Vec<InstructionNode>) -> Function {
    Function { id, name: name.to_owned(), blocks: vec![Block { id: 0, body }] }
}

fn bundle(functions: Vec<Function>) -> NativeVerificationBundle {
    NativeVerificationBundle {
        module_valid: true,
        module_errors: vec![],
        target_info: Some(TargetProfile {
            triple: "x86_64-unknown-linux-gnu".to_owned(),
            pointer_size: 8,
        }),
        functions,
        requested: vec![0],
    }
}

fn attack(body: Vec<InstructionNode>) -> NativeVerificationBundle {
    bundle(vec![function(0, "attack", body)])
}

fn cell(admissible: bool) -> Alloca {
    let rejection = if admissible {
        None
    } else {
        Some(AllocaRejection {
            kind: "load_before_store/not_definitely_initialized".to_owned(),
            detail: "block-local=load_before_store, promoted=not_definitely_initialized".to_owned(),
        })
    };
    Alloca {
        ty: "I32".to_owned(),
        has_count: false,
        has_align: false,
        has_result: true,
        admissible,
        rejection,
    }
}

fn value_type(rendering: &str, integer: bool) -> ValueType {
    ValueType { rendering: rendering.to_owned(), integer }
}

fn cast(
    op: CastOp,
    rendering: &str,
    source: ValueType,
    target: ValueType,
    admissible: bool,
) -> Instruction {
    Instruction::Cast(Cast { op, rendering: rendering.to_owned(), source, target, admissible })
}

fn int_to_ptr() -> Instruction {
    cast(CastOp::Other, "IntToPtr", value_type("U64", true), value_type("Ptr", false), false)
}

fn wrapping_call() -> NativeVerificationBundle {
    bundle(vec![
        function(0, "attack", vec![plain(Instruction::Call { callee: 1 })]),
        function(1, "attacker::wrapping_add", vec![]),
    ])
}

fn refusal(bundle: &NativeVerificationBundle, profile: AdmissionProfile) -> (String, String) {
    match validate_native_bundle_proof_authority_input(bundle, profile) {
        Err(NativeSolveError::InvalidInput { field, detail }) => {
            assert!(field.starts_with("native_trust_ir_bundle."), "{field}");
            (field, detail)
        }
        other => panic!("expected a structural refusal, got {other:?}"),
    }
}

fn admitted(bundle: &NativeVerificationBundle, profile: AdmissionProfile) {
    assert_eq!(validate_native_bundle_proof_authority_input(bundle, profile), Ok(()));
}

#[test]
fn an_array_alloca_is_named_as_such() {
    let alloca = Alloca { has_count: true, ..cell(true) };
    assert_eq!(alloca_rejection_reason(&alloca).kind, "alloca_count_some");
}

#[test]
fn a_caller_aligned_alloca_is_named_as_such() {
    let aligned = Alloca { has_align: true, ..cell(true) };
    assert_eq!(alloca_rejection_reason(&aligned).kind, "alloca_align_some");
    // The extent comes first.
    let both = Alloca { has_count: true, ..aligned };
    assert_eq!(alloca_rejection_reason(&both).kind, "alloca_count_some");
}

#[test]
fn a_result_less_alloca_is_named_as_such() {
    let alloca = Alloca { has_result: false, ..cell(true) };
    assert_eq!(alloca_rejection_reason(&alloca).kind, "alloca_no_result");
}

#[test]
fn a_metadata_less_alloca_defers_to_the_admission_predicate() {
    let reason = alloca_rejection_reason(&cell(false));
    assert_eq!(reason.kind, "load_before_store/not_definitely_initialized");
    assert!(reason.detail.contains("block-local="), "the detail names both lanes");
    assert_eq!(alloca_rejection_reason(&cell(true)).kind, "admissible_but_rejected");
}

#[test]
fn proof_grade_bundle_preflight_rejects_public_semantic_shortcuts() {
    let access = ProofAnnotation::ValidBorrow;
    for (bundle, expected) in [
        (attack(vec![plain(Instruction::Assume)]), "unauthenticated Assume"),
        (attack(vec![plain(Instruction::Undef)]), "executes Undef"),
        (attack(vec![stamped(access, Instruction::Load)]), "public ValidBorrow"),
        (attack(vec![stamped(access, Instruction::Store)]), "public ValidBorrow"),
        (attack(vec![plain(Instruction::Borrow)]), "borrow-checker validity"),
        (attack(vec![plain(Instruction::BorrowMut)]), "borrow-checker validity"),
        (
            attack(vec![stamped(ProofAnnotation::Wrapping, Instruction::Other)]),
            "public Wrapping",
        ),
        (attack(vec![plain(Instruction::ExtractElement)]), "uses ExtractElement"),
        (attack(vec![plain(Instruction::Gep)]), "uses GEP"),
        (attack(vec![plain(Instruction::PtrData)]), "pointer-part semantics"),
        (attack(vec![plain(Instruction::PtrMetadata)]), "pointer-part semantics"),
        (attack(vec![plain(Instruction::PtrFromParts)]), "pointer-part semantics"),
        (attack(vec![plain(Instruction::Alloca(cell(false)))]), "uses Alloca"),
        (attack(vec![plain(int_to_ptr())]), "uses cast IntToPtr"),
        (attack(vec![plain(Instruction::DialectOp)]), "public dialect operation"),
        (wrapping_call(), "name-only wrapping-intrinsic substitution"),
    ] {
        let (_, detail) = refusal(&bundle, PUBLIC);
        assert!(detail.contains(expected), "{expected}: {detail}");
    }
}

#[test]
fn transparent_borrow_input_gate_obeys_the_explicit_opt_in() {
    for instruction in [Instruction::Borrow, Instruction::BorrowMut] {
        let bundle = attack(vec![plain(instruction)]);
        admitted(&bundle, AdmissionProfile { admit_borrows: true, ..PUBLIC });
        let (_, detail) = refusal(&bundle, PUBLIC);
        assert!(detail.contains("borrow-checker validity"), "{detail}");
    }
}

#[test]
fn single_cell_alloca_is_default_on_but_escape_and_type_punning_fail_closed() {
    let exact = attack(vec![
        plain(Instruction::Alloca(cell(true))),
        plain(Instruction::Store),
        plain(Instruction::Load),
    ]);
    admitted(&exact, PUBLIC);
    for alloca in [
        cell(false),
        Alloca { has_align: true, ..cell(true) },
        Alloca { has_count: true, ..cell(true) },
        Alloca { has_result: false, ..cell(true) },
    ] {
        let kind = alloca_rejection_reason(&alloca).kind;
        let (field, detail) = refusal(&attack(vec![plain(Instruction::Alloca(alloca))]), PUBLIC);
        assert_eq!(field, "native_trust_ir_bundle.module.functions.instructions");
        assert!(detail.contains("uses Alloca"), "{detail}");
        assert!(detail.contains(&format!("reason={kind}")), "{detail}");
    }
}

#[test]
fn proof_grade_preflight_admits_exact_pointer_bit_identity_casts() {
    let thin = || value_type("Ptr", false);
    let word = || value_type("U64", true);
    let newtype = || value_type("Struct(0)", false);
    for (rendering, source, target) in [
        ("Bitcast", word(), newtype()),
        ("Bitcast", newtype(), word()),
        ("Bitcast", thin(), newtype()),
        ("Bitcast", newtype(), thin()),
        ("PtrToInt", thin(), word()),
    ] {
        admitted(&attack(vec![plain(cast(CastOp::Other, rendering, source, target, true))]), PUBLIC);
    }
    for op in [CastOp::Trunc, CastOp::ZExt, CastOp::SExt] {
        admitted(&attack(vec![plain(cast(op, "integer cast", word(), word(), false))]), PUBLIC);
    }
}

#[test]
fn proof_grade_preflight_keeps_out_of_scope_casts_refused() {
    let fat = || value_type("FatPtr(Str)", false);
    for instruction in [
        cast(CastOp::Other, "Bitcast", fat(), value_type("FatPtr(TraitObject)", false), false),
        cast(CastOp::Other, "Bitcast", value_type("U64", true), value_type("Ptr", false), false),
        cast(CastOp::Trunc, "Trunc", value_type("F64", false), value_type("U32", true), false),
        cast(CastOp::ZExt, "ZExt", value_type("U32", true), value_type("F64", false), false),
    ] {
        let (_, detail) = refusal(&attack(vec![plain(instruction)]), PUBLIC);
        assert!(detail.contains("uses cast"), "{detail}");
    }
    // What the module's own validation refuses is refused before any instruction.
    let mut invalid = attack(vec![]);
    invalid.module_valid = false;
    invalid.module_errors = (0..10).map(|i| format!("cast {i} is invalid")).collect();
    let (field, detail) = refusal(&invalid, PUBLIC);
    assert_eq!(field, "native_trust_ir_bundle.module");
    assert_eq!(
        detail,
        "full TrustIr module validation failed: cast 0 is invalid; cast 1 is invalid; cast 2 is invalid; cast 3 is invalid; cast 4 is invalid; cast 5 is invalid; cast 6 is invalid; cast 7 is invalid"
    );
}

#[test]
fn fresh_symbolic_havoc_admission_is_exact_and_grants_no_narrowing_authority() {
    let fresh = || stamped(ProofAnnotation::FreshSymbolicHavoc, Instruction::Undef);
    admitted(&attack(vec![fresh()]), PUBLIC);
    let (_, detail) = refusal(&attack(vec![fresh(), plain(Instruction::Assume)]), PUBLIC);
    assert!(detail.contains("unauthenticated Assume"), "{detail}");
    let misplaced = stamped(ProofAnnotation::FreshSymbolicHavoc, Instruction::Other);
    let (_, detail) = refusal(&attack(vec![misplaced]), PUBLIC);
    assert!(detail.contains("FreshSymbolicHavoc on a non-Undef instruction"), "{detail}");
}

#[test]
fn exact_source_generation_authority_admits_only_source_generated_semantics() {
    let access = ProofAnnotation::ValidBorrow;
    for node in [
        plain(Instruction::Assume),
        plain(Instruction::PtrMetadata),
        stamped(ProofAnnotation::Wrapping, Instruction::Other),
        stamped(access, Instruction::Load),
        stamped(access, Instruction::Store),
        plain(Instruction::PtrData),
    ] {
        admitted(&attack(vec![node]), AUTHORIZED);
    }
    for (bundle, expected) in [
        (attack(vec![plain(Instruction::Undef)]), "executes Undef"),
        (attack(vec![plain(Instruction::Borrow)]), "borrow-checker validity"),
        (attack(vec![plain(Instruction::BorrowMut)]), "borrow-checker validity"),
        (attack(vec![plain(Instruction::ExtractElement)]), "uses ExtractElement"),
        (attack(vec![plain(Instruction::Gep)]), "uses GEP"),
        (attack(vec![plain(Instruction::PtrFromParts)]), "pointer-part semantics"),
        (attack(vec![plain(Instruction::Alloca(cell(false)))]), "uses Alloca"),
        (attack(vec![plain(int_to_ptr())]), "uses cast IntToPtr"),
        (attack(vec![plain(Instruction::DialectOp)]), "public dialect operation"),
        (wrapping_call(), "name-only wrapping-intrinsic substitution"),
    ] {
        let (_, detail) = refusal(&bundle, AUTHORIZED);
        assert!(detail.contains(expected), "{expected}: {detail}");
    }
}

#[test]
fn proof_grade_bundle_preflight_rejects_non_64_bit_target() {
    let mut narrow = attack(vec![]);
    narrow.target_info =
        Some(TargetProfile { triple: "i686-unknown-linux-gnu".to_owned(), pointer_size: 4 });
    let (field, detail) = refusal(&narrow, PUBLIC);
    assert_eq!(field, "native_trust_ir_bundle.module.target_info.pointer_size");
    assert!(detail.contains("declares 4-byte pointers"), "{detail}");
    narrow.target_info = None;
    let (field, _) = refusal(&narrow, PUBLIC);
    assert!(field.starts_with("native_trust_ir_bundle.module.target_info"), "{field}");
}

#[test]
fn only_reachable_functions_are_walked() {
    let shortcut = || vec![plain(Instruction::Assume)];
    // The function with the shortcut is called by nobody.
    let unreachable =
        bundle(vec![function(0, "attack", vec![]), function(1, "helper", shortcut())]);
    admitted(&unreachable, PUBLIC);
    // Through two calls it is reached, even where the calls form a cycle.
    let reachable = bundle(vec![
        function(0, "attack", vec![plain(Instruction::Call { callee: 2 })]),
        function(1, "helper", shortcut()),
        function(
            2,
            "middle",
            vec![
                plain(Instruction::Call { callee: 0 }),
                plain(Instruction::Call { callee: 1 }),
            ],
        ),
    ]);
    let (_, detail) = refusal(&reachable, PUBLIC);
    assert!(detail.starts_with("function `helper` block #0 instruction 0"), "{detail}");
    admitted(&reachable, AUTHORIZED);
    // A callee or a requested function that is not there is refused.
    let missing = attack(vec![plain(Instruction::Call { callee: 7 })]);
    let (_, detail) = refusal(&missing, PUBLIC);
    assert!(detail.contains("references missing callee #7"), "{detail}");
    let mut absent = attack(vec![]);
    absent.requested = vec![9];
    assert!(validate_native_bundle_proof_authority_input(&absent, PUBLIC).is_err());
}

#[test]
fn wrapping_intrinsics_are_known_by_their_last_segment() {
    assert!(is_name_only_wrapping_intrinsic("wrapping_mul"));
    assert!(is_name_only_wrapping_intrinsic("core::num::wrapping_sub"));
    assert!(!is_name_only_wrapping_intrinsic("core::num::my_wrapping_sub"));
    assert!(!is_name_only_wrapping_intrinsic("wrapping_add::inner"));
}

#[test]
fn without_authority_the_first_construct_that_needs_it_is_refused() {
    let wrapping = || InstructionNode {
        instruction: Instruction::Other,
        annotations: vec![ProofAnnotation::Wrapping],
    };
    // What no request reaches does not matter: the refusal is of the assumption.
    let beside = bundle(vec![
        function(0, "attack", vec![plain(Instruction::Assume)]),
        function(1, "helper", vec![plain(Instruction::PtrData), wrapping()]),
    ]);
    admitted(&beside, AUTHORIZED);
    let (field, detail) = refusal(&beside, PUBLIC);
    assert_eq!(field, "native_trust_ir_bundle.module.functions.instructions");
    assert!(detail.contains("unauthenticated Assume"), "{detail}");
    // Where another construct comes first, the refusal is of that one.
    let mixed = attack(vec![wrapping(), plain(Instruction::Assume)]);
    admitted(&mixed, AUTHORIZED);
    let (field, detail) = refusal(&mixed, PUBLIC);
    assert_eq!(field, "native_trust_ir_bundle.module.functions.proof_annotations");
    assert!(detail.contains("public Wrapping semantics"), "{detail}");
}
