use std::collections::BTreeMap;
use std::sync::Arc;

use serde_json::Value;
use trust_mc_native::admission::{
    AdmissionProfile, Block, Function, Instruction, InstructionNode, NativeVerificationBundle,
    TargetProfile,
};
use trust_mc_native::bundle::{
    native_solve_error_is_per_request_not_proved, validate_native_trust_ir_transport_binding,
    BundleBackend, NativeTrustIrChcPdrRunner, NativeTrustMcChcPdrObligation, TranslateOptions,
};
use trust_mc_native::candidates::{emit_pdr_invariant_from_run, VerifiedChcResult};
use trust_mc_native::chc::{ChcExpr, ChcOp, ChcProblem, ClauseHead};
use trust_mc_native::documents::{ChcProofRunArtifact, ProofRunCertificate};
use trust_mc_native::error::{
    FullVerificationProblemKind, NativeOperation, NativeSolveError, NativeSolveResult,
    NativeSolveUnsupported, ProofEvidenceRejection,
};
use trust_mc_native::evidence::{
    fail_closed_lowering_reasons, fail_closed_lowering_sites, watchdog_ceiling, ArtifactBytes,
    ChcPdrCexVerification, ChcPdrEncodingConcreteness, ChcPdrEngine, ChcPdrRefutationWitness,
    ChcPdrSolveOptions, ChcPdrSolveStatus, ChcPdrStats, EvidenceHash,
    FullVerificationArtifactKind, MirChcPdrObligation, MirObligationKind,
    NativeTypedChcObligationMetadata, SolveTimeout,
};
use trust_mc_native::grade::{
    classify_native_full_verification_verdict, is_proof_grade_native_full_verification_verdict,
    ProofGradeVerdict,
};
use trust_mc_native::identity::{
    normalized_typed_chc_pdr_input, prepare_validated_typed_chc_pdr_input,
    typed_chc_pdr_semantic_config, typed_chc_pdr_semantic_config_sha256,
    typed_full_verification_cache_key, BuildIdentity, FullVerificationCacheKey,
    FullVerificationCacheKeyParts, NativeTypedChcPdrNormalizedInput, TypedChcPdrRoute,
};
use trust_mc_native::ladder::try_bounded_unroll_refutation_lane_with_ladder;
use trust_mc_native::lanes::{
    AcyclicDecision, AcyclicUnsafeWitness, LoopLaneRun, ProofRun, TypedSolve,
};
use trust_mc_native::lowering::TypedChcLoweringAccounting;
use trust_mc_native::replay::{
    independently_replay_typed_chc_pdr_refutation_witness, DirectSmtRefutationReplayPayload,
    MAX_REFUTATION_REPLAY_PAYLOAD_BYTES,
};
use trust_mc_native::runner::NativeTypedChcPdrRunner;
use trust_mc_native::seal::{Admission, FreshInput, TypedChcPdrFullVerification};
use trust_mc_native::solve::{
    solve_typed_chc_pdr, solve_typed_chc_pdr_full_verification,
    solve_typed_chc_pdr_native_proof_grade, try_ic3_loop_lane, AyVerdict, EvidenceLayer,
    PlainEngine, PlainFault, SolverEngines,
};
use trust_mc_native::transport::{
    BoundedNativeVec, NativeTypedProofArtifactRef, NativeTypedProofStatus,
    NativeTypedProofStrength, MAX_NATIVE_PROOF_DIAGNOSTICS, MAX_NATIVE_PROOF_RESPONSE_ARTIFACTS,
    MAX_NATIVE_PROOF_ROLE_ARTIFACTS,
};
use trust_mc_native::unroll::BOUNDED_UNROLL_K_LADDER;
use trust_mc_native::vc::{
    BinaryOp, BitVecWidth, ChcVc, Expr, ExprValue, OverflowCheck, RelationApp, RelationDecl, Rule,
    RuleBody, RuleTexts, Sort, SortKind, UnaryOp,
};
use trust_mc_native::verdicts::{
    fail_closed_lowering_demotion_reason, typed_chc_pdr_refutation_witness, CandidateBytes,
    ChcPdrProofEvidence, ChcPdrProofKind, FullVerificationArtifact,
    FullVerificationArtifactMaterialization, FullVerificationArtifactReference,
    FullVerificationVerdict, ReplayWording,
};

type Layer = EvidenceLayer<
    fn(&ChcProblem) -> String,
    fn(&str) -> String,
    fn(&FullVerificationCacheKeyParts) -> FullVerificationCacheKey,
    fn(&[u8]) -> EvidenceHash,
    fn(&MirChcPdrObligation, &CandidateBytes) -> Option<ChcPdrProofEvidence>,
    fn(&ArtifactBytes) -> Option<FullVerificationArtifact>,
>;
type Engines = SolverEngines<
    fn(&ChcProblem, SolveTimeout) -> Option<AcyclicDecision>,
    fn(&ChcProblem, SolveTimeout) -> Option<LoopLaneRun>,
    fn(&ChcProblem, u32) -> Option<AcyclicDecision>,
    fn(&ChcProblem, SolveTimeout) -> Option<Result<ProofRun, String>>,
>;
type Backend = BundleBackend<
    fn(&ChcProblem) -> String,
    fn(&str) -> String,
    fn(&FullVerificationCacheKeyParts) -> FullVerificationCacheKey,
    fn(&[u8]) -> EvidenceHash,
    fn(&MirChcPdrObligation, &CandidateBytes) -> Option<ChcPdrProofEvidence>,
    fn(&ArtifactBytes) -> Option<FullVerificationArtifact>,
    fn(&ChcProblem, SolveTimeout) -> Option<AcyclicDecision>,
    fn(&ChcProblem, SolveTimeout) -> Option<LoopLaneRun>,
    fn(&ChcProblem, u32) -> Option<AcyclicDecision>,
    fn(&ChcProblem, SolveTimeout) -> Option<Result<ProofRun, String>>,
    fn(&FullVerificationVerdict) -> Admission,
    fn(&FullVerificationVerdict) -> Value,
    fn(&ProofEvidenceRejection) -> String,
>;
const CHC_VALIDITY: &str = "CHC validity candidate requires a fresh consumer replay";
const PDR_INVARIANT: &str = "PDR invariant candidate requires a fresh consumer replay";
const NATIVE_ID: &str = "trust_ir-native-trust_mc-request-7-proof-0";

/// SHA-256 of bytes.
fn sha256(bytes: &[u8]) -> EvidenceHash {
    const K: [u32; 64] = [
        0x428a2f98, 0x71374491, 0xb5c0fbcf, 0xe9b5dba5, 0x3956c25b, 0x59f111f1, 0x923f82a4,
        0xab1c5ed5, 0xd807aa98, 0x12835b01, 0x243185be, 0x550c7dc3, 0x72be5d74, 0x80deb1fe,
        0x9bdc06a7, 0xc19bf174, 0xe49b69c1, 0xefbe4786, 0x0fc19dc6, 0x240ca1cc, 0x2de92c6f,
        0x4a7484aa, 0x5cb0a9dc, 0x76f988da, 0x983e5152, 0xa831c66d, 0xb00327c8, 0xbf597fc7,
        0xc6e00bf3, 0xd5a79147, 0x06ca6351, 0x14292967, 0x27b70a85, 0x2e1b2138, 0x4d2c6dfc,
        0x53380d13, 0x650a7354, 0x766a0abb, 0x81c2c92e, 0x92722c85, 0xa2bfe8a1, 0xa81a664b,
        0xc24b8b70, 0xc76c51a3, 0xd192e819, 0xd6990624, 0xf40e3585, 0x106aa070, 0x19a4c116,
        0x1e376c08, 0x2748774c, 0x34b0bcb5, 0x391c0cb3, 0x4ed8aa4a, 0x5b9cca4f, 0x682e6ff3,
        0x748f82ee, 0x78a5636f, 0x84c87814, 0x8cc70208, 0x90befffa, 0xa4506ceb, 0xbef9a3f7,
        0xc67178f2,
    ];
    let mut state: [u32; 8] = [
        0x6a09e667, 0xbb67ae85, 0x3c6ef372, 0xa54ff53a, 0x510e527f, 0x9b05688c, 0x1f83d9ab,
        0x5be0cd19,
    ];
    let mut padded = bytes.to_vec();
    padded.push(0x80);
    while padded.len() % 64 != 56 {
        padded.push(0);
    }
    padded.extend_from_slice(&(8 * bytes.len() as u64).to_be_bytes());
    for block in padded.chunks(64) {
        let mut w = [0u32; 64];
        for (i, word) in block.chunks(4).enumerate() {
            w[i] = u32::from_be_bytes([word[0], word[1], word[2], word[3]]);
        }
        for i in 16..64 {
            let s0 = w[i - 15].rotate_right(7) ^ w[i - 15].rotate_right(18) ^ (w[i - 15] >> 3);
            let s1 = w[i - 2].rotate_right(17) ^ w[i - 2].rotate_right(19) ^ (w[i - 2] >> 10);
            w[i] = w[i - 16].wrapping_add(s0).wrapping_add(w[i - 7]).wrapping_add(s1);
        }
        let [mut a, mut b, mut c, mut d, mut e, mut f, mut g, mut h] = state;
        for i in 0..64 {
            let s1 = e.rotate_right(6) ^ e.rotate_right(11) ^ e.rotate_right(25);
            let ch = (e & f) ^ (!e & g);
            let t1 =
                h.wrapping_add(s1).wrapping_add(ch).wrapping_add(K[i]).wrapping_add(w[i]);
            let s0 = a.rotate_right(2) ^ a.rotate_right(13) ^ a.rotate_right(22);
            let t2 = s0.wrapping_add((a & b) ^ (a & c) ^ (b & c));
            (h, g, f, e, d, c, b, a) = (g, f, e, d.wrapping_add(t1), c, b, a, t1.wrapping_add(t2));
        }
        for (own, add) in state.iter_mut().zip([a, b, c, d, e, f, g, h]) {
            *own = own.wrapping_add(add);
        }
    }
    let value = state.iter().map(|word| format!("{word:08x}")).collect();
    EvidenceHash { algorithm: "sha256".to_owned(), value }
}

fn render(problem: &ChcProblem) -> String {
    format!("{problem:?}")
}

fn canonicalize(input: &str) -> String {
    format!("{}\n", input.trim_end())
}

fn from_parts(parts: &FullVerificationCacheKeyParts) -> FullVerificationCacheKey {
    let rendering = format!("{parts:?}");
    FullVerificationCacheKey {
        key: sha256(rendering.as_bytes()),
        normalized_input_hash: parts.normalized_input_hash.duplicate(),
        obligation_set_hash: parts.obligation_set_hash.duplicate(),
        valid: true,
        serialized: Value::from(rendering),
    }
}

fn artifact(kind: FullVerificationArtifactKind, label: &str, bytes: &[u8]) -> FullVerificationArtifact {
    FullVerificationArtifact {
        kind,
        label: label.to_owned(),
        digest: Some(sha256(bytes)),
        byte_len: Some(bytes.len() as u64),
        materialization: Some(FullVerificationArtifactMaterialization {
            bytes: bytes.to_vec(),
            proof_binding_id: None,
            referenced_artifacts: vec![],
        }),
    }
}

fn publish(bytes: &ArtifactBytes) -> Option<FullVerificationArtifact> {
    Some(artifact(bytes.kind, &bytes.label, &bytes.bytes))
}

fn bound(
    mut artifact: FullVerificationArtifact,
    references: &[&FullVerificationArtifact],
) -> FullVerificationArtifact {
    let retained = artifact.materialization.as_mut().expect("retained");
    retained.proof_binding_id = Some("proof-set".to_owned());
    for reference in references {
        retained.referenced_artifacts.push(FullVerificationArtifactReference {
            kind: reference.kind,
            digest: reference.digest.as_ref().expect("digest").duplicate(),
        });
    }
    artifact
}

fn link(
    obligation: &MirChcPdrObligation,
    candidate: &CandidateBytes,
) -> Option<ChcPdrProofEvidence> {
    let input = bound(
        artifact(
            FullVerificationArtifactKind::NormalizedInput,
            "normalized-input",
            candidate.normalized_input.as_bytes(),
        ),
        &[],
    );
    let transcript = bound(publish(&candidate.solver_transcript)?, &[&input]);
    let replay = bound(publish(&candidate.replay_log)?, &[&transcript]);
    let report = bound(publish(&candidate.checked_report)?, &[&transcript, &replay]);
    let mut artifacts = vec![input, transcript, replay, report];
    if let Some((_, model)) = &candidate.invariant_model {
        artifacts.push(publish(model)?);
    }
    Some(ChcPdrProofEvidence {
        obligation_id: obligation.obligation_id.clone(),
        normalized_input: candidate.normalized_input.clone(),
        normalized_input_hash: sha256(candidate.normalized_input.as_bytes()),
        native_metadata: obligation.native_metadata.as_ref().map(|own| own.duplicate()),
        stats: candidate.stats,
        artifacts,
        cache_key: None,
        replay_check_status: Some(Value::from("replayed")),
    })
}

fn rejection(reason: &str) -> ProofEvidenceRejection {
    ProofEvidenceRejection {
        problem_kind: Some(FullVerificationProblemKind::ChcPdr),
        reasons: vec![reason.to_owned()],
    }
}

fn policy(verdict: &FullVerificationVerdict) -> Admission {
    match verdict {
        FullVerificationVerdict::Proved { evidence } => {
            if evidence.native_metadata.is_none() {
                return Err(rejection("missing native typed CHC obligation metadata"));
            }
            let kind = FullVerificationArtifactKind::PdrInvariantModel;
            if evidence.artifacts.iter().any(|artifact| artifact.kind == kind) {
                Ok(ChcPdrProofKind::PdrInvariant)
            } else {
                Ok(ChcPdrProofKind::ChcValidity)
            }
        }
        FullVerificationVerdict::Failed { .. } => {
            Err(rejection("counterexample evidence is not a proof"))
        }
        FullVerificationVerdict::Unknown { reason } => Err(rejection(reason)),
    }
}

fn form(answer: &FullVerificationVerdict) -> Value {
    Value::from(format!("{answer:?}"))
}

fn word(rejection: &ProofEvidenceRejection) -> String {
    rejection.reasons.join("; ")
}

fn eval_int(expr: &ChcExpr, x: i128) -> i128 {
    match expr {
        ChcExpr::Int(value) => *value,
        ChcExpr::Var(_) => x,
        ChcExpr::Op(ChcOp::Add, args) => args.iter().map(|arg| eval_int(arg, x)).sum(),
        other => panic!("unexpected term {other:?}"),
    }
}

fn eval_bool(expr: &ChcExpr, x: i128) -> bool {
    match expr {
        ChcExpr::Bool(value) => *value,
        ChcExpr::Op(ChcOp::And, args) => args.iter().all(|arg| eval_bool(arg, x)),
        ChcExpr::Op(ChcOp::Lt, args) => eval_int(&args[0], x) < eval_int(&args[1], x),
        ChcExpr::Op(ChcOp::Gt, args) => eval_int(&args[0], x) > eval_int(&args[1], x),
        other => panic!("unexpected constraint {other:?}"),
    }
}

/// An error derivation of a problem whose clauses have at most one variable, with
/// a value between -3 and 300.
fn explore(problem: &ChcProblem) -> AcyclicDecision {
    let mut facts: BTreeMap<(usize, Vec<i128>), Vec<u64>> = BTreeMap::new();
    loop {
        let before = facts.len();
        for (index, clause) in problem.clauses.iter().enumerate() {
            for x in -3..=300 {
                let constrained =
                    clause.body.constraint.as_ref().map_or(true, |own| eval_bool(own, x));
                let mut trace = vec![];
                let premises = clause.body.predicates.iter().all(|premise| {
                    let args: Vec<i128> =
                        premise.args.iter().map(|arg| eval_int(arg, x)).collect();
                    match facts.get(&(premise.predicate.index, args)) {
                        Some(own) => {
                            trace.extend(own.iter().copied());
                            true
                        }
                        None => false,
                    }
                });
                if !constrained || !premises {
                    continue;
                }
                trace.push(index as u64);
                match &clause.head {
                    ClauseHead::False => {
                        let mut model = serde_json::Map::new();
                        model.insert("last".to_owned(), Value::from(x as i64));
                        return AcyclicDecision::Unsafe(AcyclicUnsafeWitness {
                            model: Value::Object(model),
                            derivation_clause_indices: trace,
                        });
                    }
                    ClauseHead::Predicate(head) => {
                        let args: Vec<i128> =
                            head.args.iter().map(|arg| eval_int(arg, x)).collect();
                        facts.entry((head.predicate.index, args)).or_insert(trace);
                    }
                }
            }
        }
        if facts.len() == before {
            return AcyclicDecision::Safe;
        }
    }
}

fn decide(problem: &ChcProblem, _limit: SolveTimeout) -> Option<AcyclicDecision> {
    if problem.has_cycles() {
        Some(AcyclicDecision::Inconclusive)
    } else {
        Some(explore(problem))
    }
}

fn search(copy: &ChcProblem, _k: u32) -> Option<AcyclicDecision> {
    Some(explore(copy))
}

fn no_loop_lane(_problem: &ChcProblem, _limit: SolveTimeout) -> Option<LoopLaneRun> {
    None
}

fn invariant_bytes(problem: &ChcProblem) -> Vec<u8> {
    format!("invariant of {}", sha256(canonicalize(&render(problem)).as_bytes()).value).into_bytes()
}

fn run_artifact(role: &str, bytes: Vec<u8>) -> ChcProofRunArtifact {
    ChcProofRunArtifact {
        schema: "run-artifact/v1".to_owned(),
        role: role.to_owned(),
        digest: Value::from(sha256(&bytes).value),
        bytes,
    }
}

fn safe_run(problem: &ChcProblem) -> ProofRun {
    ProofRun {
        result: VerifiedChcResult::Safe { model_len: problem.predicates.len() },
        certificate: ProofRunCertificate {
            accepted_as_proof: true,
            normalized_input_sha256: sha256(canonicalize(&render(problem)).as_bytes()).value,
            proof_status: "accepted".to_owned(),
            result: "safe".to_owned(),
            quantifier_free_invariant_model: Some(run_artifact(
                "qf-model",
                invariant_bytes(problem),
            )),
            model: run_artifact("model", b"model".to_vec()),
            replay_transcript: run_artifact("transcript", b"transcript".to_vec()),
            consumer_evidence: Value::from("evidence"),
            metadata: Value::from("metadata"),
        },
    }
}

/// A proof run that knows the invariant where there is one, and nothing else.
fn prove(problem: &ChcProblem, _limit: SolveTimeout) -> Option<Result<ProofRun, String>> {
    let mut run = safe_run(problem);
    if explore(problem) != AcyclicDecision::Safe {
        run.result = VerifiedChcResult::Unknown { reason: "inconclusive".to_owned() };
    }
    Some(Ok(run))
}

fn validate(problem: &ChcProblem, model: &Vec<u8>, _limit: SolveTimeout) -> bool {
    *model == invariant_bytes(problem)
}

fn build() -> BuildIdentity {
    BuildIdentity {
        version: "0.1.0".to_owned(),
        commit: "0000000".to_owned(),
        dirty: false,
        solver_version: "1.0.0".to_owned(),
    }
}

fn wording() -> ReplayWording {
    ReplayWording {
        chc_validity: CHC_VALIDITY.to_owned(),
        pdr_invariant: PDR_INVARIANT.to_owned(),
    }
}

fn pdr_options() -> ChcPdrSolveOptions {
    ChcPdrSolveOptions {
        engine: ChcPdrEngine::Pdr,
        timeout: Some(SolveTimeout { secs: 10, nanos: 0 }),
        produce_proof_certificate: false,
    }
}

fn int_sort() -> Sort {
    Sort { kind: SortKind::Int, rendering: "Int".to_owned() }
}

fn bool_sort() -> Sort {
    Sort { kind: SortKind::Bool, rendering: "Bool".to_owned() }
}

fn x() -> Arc<Expr> {
    Arc::new(Expr { sort: int_sort(), value: ExprValue::Var { name: "x".to_owned() } })
}

fn number(value: i128) -> Arc<Expr> {
    Arc::new(Expr { sort: int_sort(), value: ExprValue::IntConst(value.to_string()) })
}

fn relates(op: BinaryOp, left: Arc<Expr>, right: Arc<Expr>) -> Arc<Expr> {
    Arc::new(Expr { sort: bool_sort(), value: ExprValue::Binary(op, left, right) })
}

fn plus(left: Arc<Expr>, right: Arc<Expr>) -> Arc<Expr> {
    Arc::new(Expr { sort: int_sort(), value: ExprValue::Binary(BinaryOp::IntAdd, left, right) })
}

fn truth() -> Arc<Expr> {
    Arc::new(Expr { sort: bool_sort(), value: ExprValue::BoolConst(true) })
}

fn app(name: &str, args: Vec<Arc<Expr>>) -> RelationApp {
    RelationApp { name: name.to_owned(), args }
}

fn rule(relation: Option<RelationApp>, constraints: Vec<Arc<Expr>>, head: RelationApp) -> Rule {
    let texts = RuleTexts {
        head_args: head.args.iter().map(|arg| format!("{:?}", arg.value)).collect(),
        relation_args: relation
            .iter()
            .flat_map(|own| own.args.iter().map(|arg| format!("{:?}", arg.value)))
            .collect(),
        constraints: constraints.iter().map(|own| format!("{:?}", own.value)).collect(),
    };
    Rule { body: RuleBody { relation, constraints }, head, texts }
}

fn nullary_relation(name: &str) -> RelationDecl {
    RelationDecl { name: name.to_owned(), arg_sorts: vec![] }
}

fn int_relation(name: &str) -> RelationDecl {
    RelationDecl { name: name.to_owned(), arg_sorts: vec![int_sort()] }
}

fn obligation_of(id: &str, relations: Vec<RelationDecl>, rules: Vec<Rule>, target: &str) -> MirChcPdrObligation {
    MirChcPdrObligation {
        obligation_id: id.to_owned(),
        function_name: "crate::harness".to_owned(),
        kind: MirObligationKind::Assertion,
        kind_name: "Assertion".to_owned(),
        kind_form: Value::from("assertion"),
        origin_name: "MirDerived".to_owned(),
        origin_form: Value::from("mir-derived"),
        vc: ChcVc { relations, rules, query_target: target.to_owned() },
        native_metadata: None,
        fault: None,
    }
}

fn metadata(complete: bool, sites: u32, reasons: &[&str]) -> NativeTypedChcObligationMetadata {
    NativeTypedChcObligationMetadata {
        producer: "tRust".to_owned(),
        verification_mode: "chc".to_owned(),
        native_request_id: 7,
        function_id: 9,
        proof_obligation_ids: vec![0],
        lineage_root_ids: vec![0],
        structural_reachability_complete: complete,
        fail_closed_lowering_site_count: sites,
        fail_closed_lowering_reasons: reasons.iter().map(|reason| reason.to_string()).collect(),
        adapter_input: Value::from("rust-mir"),
        source_digest: Value::from("11"),
        trust_ir_module_digest: Value::from("22"),
        lineage_manifest_digest: Value::from("33"),
        compiler_facts_digest: Value::from("44"),
        replay_identity: Value::from("55"),
        replay_context: Value::from("66"),
        serialized: Value::from(format!("{complete} {sites}")),
    }
}

fn typed_chc_obligation(derive_error: bool) -> MirChcPdrObligation {
    let mut rules = vec![rule(None, vec![], app("entry", vec![]))];
    if derive_error {
        rules.push(rule(None, vec![], app("error", vec![])));
    }
    let relations = vec![nullary_relation("entry"), nullary_relation("error")];
    obligation_of("typed-obligation", relations, rules, "error")
}

fn typed_native_chc_obligation(complete: bool) -> MirChcPdrObligation {
    let mut obligation = typed_chc_obligation(false);
    obligation.obligation_id = NATIVE_ID.to_owned();
    obligation.native_metadata = Some(metadata(complete, 0, &[]));
    obligation
}

fn safe_nontrivial_typed_chc_obligation() -> MirChcPdrObligation {
    obligation_of(
        "safe-nontrivial-typed-obligation",
        vec![int_relation("entry"), nullary_relation("error")],
        vec![
            rule(None, vec![], app("entry", vec![number(0)])),
            rule(
                Some(app("entry", vec![x()])),
                vec![relates(BinaryOp::IntLt, x(), number(0))],
                app("error", vec![]),
            ),
        ],
        "error",
    )
}

fn safe_native_obligation() -> MirChcPdrObligation {
    let mut obligation = safe_nontrivial_typed_chc_obligation();
    obligation.obligation_id = NATIVE_ID.to_owned();
    obligation.native_metadata = Some(metadata(false, 0, &[]));
    obligation
}

fn safe_cyclic_typed_chc_obligation(step_limit: i128) -> MirChcPdrObligation {
    let mut obligation = obligation_of(
        NATIVE_ID,
        vec![int_relation("loop"), nullary_relation("error")],
        vec![
            rule(None, vec![], app("loop", vec![number(0)])),
            rule(
                Some(app("loop", vec![x()])),
                vec![relates(BinaryOp::IntLt, x(), number(step_limit))],
                app("loop", vec![plus(x(), number(1))]),
            ),
            rule(
                Some(app("loop", vec![x()])),
                vec![relates(BinaryOp::IntLt, x(), number(0))],
                app("error", vec![]),
            ),
        ],
        "error",
    );
    obligation.native_metadata = Some(metadata(false, 0, &[]));
    obligation
}

/// A loop that adds to an accumulator while it is below a bound, and fails where
/// the accumulator exceeds a limit.
fn accumulator_obligation(addend: i128, bound: i128, limit: i128) -> MirChcPdrObligation {
    let mut obligation = obligation_of(
        "loop-accumulator",
        vec![nullary_relation("entry"), int_relation("loop"), nullary_relation("error")],
        vec![
            rule(None, vec![], app("entry", vec![])),
            rule(Some(app("entry", vec![])), vec![], app("loop", vec![number(0)])),
            rule(
                Some(app("loop", vec![x()])),
                vec![relates(BinaryOp::IntLt, x(), number(bound))],
                app("loop", vec![plus(x(), number(addend))]),
            ),
            rule(
                Some(app("loop", vec![x()])),
                vec![relates(BinaryOp::IntGt, x(), number(limit))],
                app("error", vec![]),
            ),
        ],
        "error",
    );
    obligation.native_metadata = Some(metadata(true, 0, &[]));
    obligation
}

fn layer() -> Layer {
    EvidenceLayer { render, canonicalize, from_parts, sha256, link, publish }
}

fn engines() -> Engines {
    SolverEngines { decide, loop_lane: no_loop_lane, search, prove }
}

fn backend() -> Backend {
    BundleBackend {
        build: build(),
        wording: wording(),
        layer: layer(),
        engines: engines(),
        policy,
        form,
        word,
    }
}

fn normalized(obligation: &MirChcPdrObligation) -> NativeTypedChcPdrNormalizedInput {
    normalized_typed_chc_pdr_input(obligation, &render, &canonicalize, &sha256)
        .expect("valid obligation should normalize")
}

fn solve_full(
    obligation: &MirChcPdrObligation,
    options: ChcPdrSolveOptions,
) -> NativeSolveResult<TypedChcPdrFullVerification> {
    solve_typed_chc_pdr_full_verification(
        obligation,
        options,
        &build(),
        &wording(),
        &layer(),
        &engines(),
    )
}

fn solve_graded(
    obligation: &MirChcPdrObligation,
) -> NativeSolveResult<TypedChcPdrFullVerification> {
    solve_typed_chc_pdr_native_proof_grade(
        obligation,
        ChcPdrSolveOptions::default(),
        &build(),
        &wording(),
        &layer(),
        &engines(),
        &policy,
        &form,
    )
}

fn solve_replayed(obligation: &MirChcPdrObligation) -> TypedChcPdrFullVerification {
    NativeTypedChcPdrRunner::with_options(pdr_options())
        .solve_full_verification_with_fresh_exact_replay(
            obligation,
            &build(),
            &wording(),
            &layer(),
            &engines(),
            &policy,
            &form,
            &validate,
        )
        .expect("obligation should solve and replay")
}

fn authorized(verification: &TypedChcPdrFullVerification) -> bool {
    let admission = policy(&verification.verdict);
    let verdict_form = form(&verification.verdict);
    verification
        .authorized_native_proof(&admission, &wording(), &verdict_form, &sha256)
        .is_ok()
}

fn evidence_of(verification: &TypedChcPdrFullVerification) -> &ChcPdrProofEvidence {
    match &verification.verdict {
        FullVerificationVerdict::Proved { evidence } => evidence,
        other => panic!("expected a proof candidate, got {other:?}"),
    }
}

fn evidence_of_mut(verification: &mut TypedChcPdrFullVerification) -> &mut ChcPdrProofEvidence {
    match &mut verification.verdict {
        FullVerificationVerdict::Proved { evidence } => evidence,
        other => panic!("expected a proof candidate, got {other:?}"),
    }
}

fn is_undecided_for(verification: &TypedChcPdrFullVerification, expected: &str) {
    assert_eq!(
        verification.outcome.status,
        ChcPdrSolveStatus::Unknown { reason: expected.to_owned() }
    );
}

fn witness_of(verification: &TypedChcPdrFullVerification) -> &ChcPdrRefutationWitness {
    match &verification.outcome.status {
        ChcPdrSolveStatus::Refuted { witness: Some(witness) } => witness,
        other => panic!("expected a refutation with a witness, got {other:?}"),
    }
}

fn grade(verdict: &FullVerificationVerdict) -> ProofGradeVerdict {
    let reasons = match verdict {
        FullVerificationVerdict::Proved { .. } => vec![CHC_VALIDITY.to_owned()],
        FullVerificationVerdict::Failed { .. } => vec!["counterexample".to_owned()],
        FullVerificationVerdict::Unknown { reason } => vec![reason.clone()],
    };
    let problem_kind = Some(FullVerificationProblemKind::ChcPdr);
    ProofGradeVerdict::NotProofGrade { problem_kind, reasons }
}

fn assert_uses_normalized_input(
    solved: &TypedChcPdrFullVerification,
    expected: &NativeTypedChcPdrNormalizedInput,
) {
    assert_eq!(solved.route, expected.route);
    assert_eq!(solved.cache_key.normalized_input_hash, expected.normalized_input_hash);
    assert_eq!(solved.cache_key.obligation_set_hash, expected.obligation_set_hash);
    let proof = evidence_of(solved);
    assert_eq!(proof.normalized_input, expected.normalized_input);
    assert_eq!(proof.normalized_input_hash, expected.normalized_input_hash);
}

#[test]
fn digests_are_those_of_sha256() {
    assert_eq!(
        sha256(b"abc").value,
        "ba7816bf8f01cfea414140de5dae2223b00361a396177a9cb410ff61f20015ad"
    );
}

#[test]
fn native_proof_transport_deserialization_caps_untrusted_vectors() {
    for (max, description, expected) in [
        (
            MAX_NATIVE_PROOF_ROLE_ARTIFACTS,
            "native proof role artifacts",
            "native proof role artifacts exceeds the 8-entry limit",
        ),
        (
            MAX_NATIVE_PROOF_RESPONSE_ARTIFACTS,
            "native proof response artifacts",
            "native proof response artifacts exceeds the 16-entry limit",
        ),
        (
            MAX_NATIVE_PROOF_DIAGNOSTICS,
            "native proof diagnostics",
            "native proof diagnostics exceeds the 64-entry limit",
        ),
    ] {
        let mut list: BoundedNativeVec<u32> =
            BoundedNativeVec::new(None, max, description).expect("nothing announced");
        for entry in 0..max {
            list.receive(entry as u32, description).expect("within the limit");
        }
        let error = list.receive(0, description).expect_err("one too many");
        assert_eq!(error, expected);
        assert_eq!(list.into_entries().len(), max);
        let announced: Result<BoundedNativeVec<u32>, String> =
            BoundedNativeVec::new(Some(max + 1), max, description);
        assert!(matches!(announced, Err(error) if error == expected));
        assert!(BoundedNativeVec::<u32>::new(Some(max), max, description).is_ok());
    }
}

#[test]
fn native_full_verification_classifier_rejects_public_chc_validity_candidate() {
    let solved = solve_full(&typed_chc_obligation(false), ChcPdrSolveOptions::default())
        .expect("trivial obligation solves");
    assert!(!is_proof_grade_native_full_verification_verdict(&solved.verdict, &grade));
    assert_eq!(
        classify_native_full_verification_verdict(&solved.verdict, &grade),
        ProofGradeVerdict::NotProofGrade {
            problem_kind: Some(FullVerificationProblemKind::ChcPdr),
            reasons: vec![CHC_VALIDITY.to_owned()],
        }
    );
    let graded = |_: &FullVerificationVerdict| ProofGradeVerdict::ProofGrade;
    assert!(is_proof_grade_native_full_verification_verdict(&solved.verdict, &graded));
}

#[test]
fn normalized_typed_chc_pdr_input_is_deterministic_and_selects_trivial_route() {
    let first = normalized(&typed_chc_obligation(false));
    let second = normalized(&typed_chc_obligation(false));

    assert_eq!(first.route, TypedChcPdrRoute::TriviallySafe);
    assert_eq!(first, second);
    assert_eq!(first.normalized_input_hash, sha256(first.normalized_input.as_bytes()));
    assert!(first.normalized_input.contains("trust_mc.typed-chc-pdr-obligation-set/v2"));
    assert!(first.normalized_input.contains("\"function_name\":\"crate::harness\""));
}

#[test]
fn normalized_typed_chc_pdr_input_tracks_semantics_not_constraint_storage() {
    let expected = normalized(&safe_nontrivial_typed_chc_obligation());
    assert_eq!(expected.route, TypedChcPdrRoute::PdrProof);
    assert_eq!(expected, normalized(&safe_nontrivial_typed_chc_obligation()));

    // Another error condition changes the identity.
    let mut mutation = safe_nontrivial_typed_chc_obligation();
    mutation.vc.rules[1] =
        rule(Some(app("entry", vec![x()])), vec![truth()], app("error", vec![]));
    let mutated = normalized(&mutation);
    assert_eq!(mutated.route, TypedChcPdrRoute::PdrProof);
    assert_ne!(expected.normalized_input, mutated.normalized_input);
    assert_ne!(expected.normalized_input_hash, mutated.normalized_input_hash);
    assert_ne!(expected.obligation_set_hash, mutated.obligation_set_hash);
}

fn never_solved(
    _problem: &ChcProblem,
    _engine: PlainEngine,
    _limit: SolveTimeout,
) -> Result<AyVerdict, PlainFault> {
    panic!("the engine must not run")
}

#[test]
fn solve_typed_chc_pdr_trivial_safe_returns_public_candidate_status() {
    let solved = solve_typed_chc_pdr(
        &typed_chc_obligation(false),
        &ChcPdrSolveOptions::default(),
        &wording(),
        &render,
        &canonicalize,
        &sha256,
        &never_solved,
    )
    .expect("trivial CHC should be answered");

    assert_eq!(solved.obligation_id, "typed-obligation");
    assert_eq!(solved.status, ChcPdrSolveStatus::Unknown { reason: CHC_VALIDITY.to_owned() });
    assert_eq!(solved.stats, ChcPdrStats { relation_count: 2, clause_count: 1 });
    assert!(solved.diagnostics.iter().any(|line| line.contains("`error`")));
}

#[test]
fn solve_typed_chc_pdr_full_trivial_safe_returns_reject_only_candidate() {
    let obligation = typed_chc_obligation(false);
    let expected = normalized(&obligation);
    let solved =
        solve_full(&obligation, ChcPdrSolveOptions::default()).expect("trivial CHC should solve");

    assert_eq!(solved.route, TypedChcPdrRoute::TriviallySafe);
    assert_uses_normalized_input(&solved, &expected);
    assert!(solved.cache_key.valid);
    assert!(solved.artifact_directory.ends_with(&solved.cache_key.key.value));
    is_undecided_for(&solved, CHC_VALIDITY);
    assert!(!authorized(&solved));
    let proof = evidence_of(&solved);
    assert_eq!(proof.cache_key.as_ref(), Some(&solved.cache_key.key));
    assert!(proof
        .artifacts
        .iter()
        .any(|artifact| artifact.kind == FullVerificationArtifactKind::TypedChcProblem));
}

#[test]
fn normalized_typed_chc_pdr_input_predicts_trivial_solve_identity_bytes() {
    let obligation = typed_chc_obligation(false);
    let expected = normalized(&obligation);
    assert_eq!(expected, normalized(&typed_chc_obligation(false)));
    assert_eq!(expected.route, TypedChcPdrRoute::TriviallySafe);
    let solved =
        solve_full(&obligation, ChcPdrSolveOptions::default()).expect("trivial CHC should solve");
    assert_uses_normalized_input(&solved, &expected);
}

#[test]
fn solve_typed_chc_pdr_native_proof_grade_requires_native_metadata() {
    let err = solve_graded(&typed_chc_obligation(false))
        .expect_err("metadata-free proof must not satisfy native proof admission");
    let NativeSolveError::ProofGradeRejected { rejection } = err else {
        panic!("metadata-free proof should be rejected by proof-grade admission");
    };
    assert_eq!(rejection.problem_kind, Some(FullVerificationProblemKind::ChcPdr));
    assert!(rejection
        .reasons
        .iter()
        .any(|reason| reason.contains("missing native typed CHC obligation metadata")));
}

#[test]
fn typed_full_chc_routing_uses_typed_query_target_not_text_error_scan() {
    let mut obligation = typed_chc_obligation(true);
    obligation.obligation_id = "typed-non-error-query".to_owned();
    obligation.vc.relations.push(nullary_relation("panic_target"));
    obligation.vc.query_target = "panic_target".to_owned();
    let solved =
        solve_full(&obligation, ChcPdrSolveOptions::default()).expect("query should route");

    assert_eq!(solved.route, TypedChcPdrRoute::TriviallySafe);
    assert!(solved.cache_key.valid);
    assert!(solved.outcome.diagnostics.iter().any(|line| line.contains("`panic_target`")));
    assert!(!authorized(&solved));
}

#[test]
fn native_typed_chc_pdr_runner_solves_trivial_full_verification() {
    let runner = NativeTypedChcPdrRunner::new();
    let solved = runner
        .solve_full_verification(
            &typed_chc_obligation(false),
            &build(),
            &wording(),
            &layer(),
            &engines(),
        )
        .expect("runner should solve trivial full verification");

    assert_eq!(runner.options().engine, ChcPdrEngine::Auto);
    assert_eq!(solved.route, TypedChcPdrRoute::TriviallySafe);
    assert!(solved.cache_key.valid);
    assert!(!authorized(&solved));
}

#[test]
fn native_typed_chc_pdr_runner_rejects_native_trivial_safe_proof_grade() {
    let err = NativeTypedChcPdrRunner::new()
        .solve_native_proof_grade(
            &typed_native_chc_obligation(false),
            &build(),
            &wording(),
            &layer(),
            &engines(),
            &policy,
            &form,
        )
        .expect_err("native metadata-bound trivial CHC proof must fail closed");

    match err {
        NativeSolveError::Unsupported(unsupported) => {
            assert_eq!(unsupported.operation, NativeOperation::Solve);
            assert_eq!(unsupported.reason, "native_trust_ir_trivial_safe_chc_not_proof_grade");
            assert!(unsupported.detail.contains(NATIVE_ID));
            assert!(unsupported.detail.contains("`error`"));
        }
        other => panic!("unexpected error {other:?}"),
    }
}

#[test]
fn public_structural_complete_marker_cannot_mint_private_authority() {
    let obligation = typed_native_chc_obligation(true);
    let solved = solve_full(&obligation, ChcPdrSolveOptions::default())
        .expect("the marker may produce a reject-only candidate");
    assert_eq!(solved.route, TypedChcPdrRoute::TriviallySafe);
    is_undecided_for(&solved, CHC_VALIDITY);
    assert!(policy(&solved.verdict).is_ok());
    assert!(!authorized(&solved));
    let err = solve_graded(&obligation).expect_err("the marker grants nothing");
    assert!(matches!(err, NativeSolveError::ProofGradeRejected { .. }));
}

#[test]
fn forged_marker_on_dropped_assertion_stays_fail_closed() {
    // The block that panics is reachable, but the rule that leads from it to the
    // error was dropped.
    let mut obligation = typed_native_chc_obligation(true);
    obligation.vc.relations.push(nullary_relation("panic_block"));
    obligation.vc.rules.push(rule(Some(app("entry", vec![])), vec![], app("panic_block", vec![])));
    assert!(obligation.is_trivially_safe());

    let candidate = solve_full(&obligation, ChcPdrSolveOptions::default())
        .expect("the forged marker can at most produce a candidate");
    assert!(!authorized(&candidate));
    let admission = policy(&candidate.verdict);
    let verdict_form = form(&candidate.verdict);
    assert!(candidate
        .native_proof_transport_record(&admission, &wording(), &verdict_form, &sha256)
        .is_err());
    let err = solve_graded(&obligation).expect_err("the marker grants nothing");
    assert!(matches!(err, NativeSolveError::ProofGradeRejected { .. }));
}

#[test]
fn typed_full_verification_cache_key_changes_with_options() {
    let obligation = typed_chc_obligation(false);
    let auto = solve_full(&obligation, ChcPdrSolveOptions::default()).expect("solves");
    let options = ChcPdrSolveOptions {
        engine: ChcPdrEngine::Pdr,
        timeout: Some(SolveTimeout { secs: 3, nanos: 0 }),
        produce_proof_certificate: false,
    };
    let pdr = solve_full(&obligation, options).expect("solves");

    assert_ne!(auto.cache_key.key, pdr.cache_key.key);
    assert_ne!(auto.artifact_directory, pdr.artifact_directory);
}

#[test]
fn solve_typed_chc_pdr_full_nontrivial_safe_returns_direct_smt_candidate() {
    let obligation = safe_nontrivial_typed_chc_obligation();
    let expected = normalized(&obligation);
    let solved = solve_full(&obligation, pdr_options()).expect("solves");

    assert_eq!(solved.route, TypedChcPdrRoute::PdrProof);
    assert_uses_normalized_input(&solved, &expected);
    assert!(solved.artifact_directory.ends_with(&solved.cache_key.key.value));
    is_undecided_for(&solved, CHC_VALIDITY);
    assert!(!authorized(&solved));
    let proof = evidence_of(&solved);
    assert_eq!(proof.cache_key.as_ref(), Some(&solved.cache_key.key));
    let has = |kind| proof.artifacts.iter().any(|artifact| artifact.kind == kind);
    assert!(has(FullVerificationArtifactKind::TypedChcProblem));
    assert!(!has(FullVerificationArtifactKind::PdrInvariantModel));
}

#[test]
fn native_typed_chc_pdr_runner_solves_nontrivial_pdr_without_compiler_api() {
    let solved = NativeTypedChcPdrRunner::with_options(pdr_options())
        .solve_full_verification(
            &safe_nontrivial_typed_chc_obligation(),
            &build(),
            &wording(),
            &layer(),
            &engines(),
        )
        .expect("runner should solve");
    assert_eq!(solved.route, TypedChcPdrRoute::PdrProof);
    is_undecided_for(&solved, CHC_VALIDITY);
    assert!(!authorized(&solved));
}

#[test]
fn exact_typed_pdr_fresh_replay_mints_affine_chc_authority() {
    let solved = solve_replayed(&safe_cyclic_typed_chc_obligation(10));
    is_undecided_for(&solved, PDR_INVARIANT);
    let admission = policy(&solved.verdict);
    let verdict_form = form(&solved.verdict);
    let words = wording();
    let authority = solved
        .authorized_native_proof(&admission, &words, &verdict_form, &sha256)
        .expect("fresh strict replay should retain authority");
    assert_eq!(authority.candidate().proof_kind, ChcPdrProofKind::PdrInvariant);
    assert!(!authorized(&solved.clone()), "a copy carries no seal");
}

#[test]
fn exact_typed_chc_validity_replay_mints_affine_chc_authority() {
    let solved = solve_replayed(&safe_native_obligation());
    is_undecided_for(&solved, CHC_VALIDITY);
    let admission = policy(&solved.verdict);
    let snapshot = solved
        .native_proof_transport_record(&admission, &wording(), &form(&solved.verdict), &sha256)
        .expect("fresh exhaustive replay should retain authority");
    assert_eq!(snapshot.proof_strength, NativeTypedProofStrength::ChcValidity);
    assert!(!authorized(&solved.clone()), "a copy carries no seal");
}

#[test]
fn exact_pdr_authority_rejects_live_mutations_and_foreign_verdict() {
    let solve = || solve_replayed(&safe_cyclic_typed_chc_obligation(10));
    assert!(authorized(&solve()));

    let mut outcome = solve();
    outcome.outcome.diagnostics.push("forged post-replay diagnostic".to_owned());
    assert!(!authorized(&outcome));

    let mut cache = solve();
    cache.cache_key.normalized_input_hash = sha256(b"foreign normalized input");
    assert!(!authorized(&cache));

    let mut mutated = solve();
    let kind = FullVerificationArtifactKind::PdrInvariantModel;
    for own in &mut evidence_of_mut(&mut mutated).artifacts {
        if own.kind == kind {
            *own = artifact(kind, "trust-mc://mutated-model.json", b"{}");
        }
    }
    assert!(!authorized(&mutated));

    let foreign = solve_full(&safe_cyclic_typed_chc_obligation(20), pdr_options())
        .expect("foreign candidate solves");
    let mut transplant = solve();
    transplant.verdict = foreign.verdict;
    assert!(!authorized(&transplant));
}

fn fresh(obligation: &MirChcPdrObligation, options: &ChcPdrSolveOptions) -> FreshInput {
    let prepared =
        prepare_validated_typed_chc_pdr_input(obligation, &render, &canonicalize, &sha256)
            .expect("obligation prepares");
    let cache_key = typed_full_verification_cache_key(
        &build(),
        obligation,
        options,
        &prepared.normalized,
        &from_parts,
    );
    FreshInput { prepared, cache_key }
}

#[test]
fn exact_pdr_replay_rejects_malformed_missing_duplicate_foreign_and_invalid_models() {
    let obligation = safe_cyclic_typed_chc_obligation(10);
    let candidate = || solve_full(&obligation, pdr_options()).expect("candidate solves");
    let kind = FullVerificationArtifactKind::PdrInvariantModel;
    let seal_against = |verification: TypedChcPdrFullVerification, own: &MirChcPdrObligation| {
        let input = fresh(own, &pdr_options());
        let problem = input.prepared.problem.as_ref().expect("problem");
        let model = evidence_of(&verification)
            .artifacts
            .iter()
            .find(|artifact| artifact.kind == kind)
            .and_then(|artifact| artifact.materialization.as_ref());
        let limit = SolveTimeout { secs: 10, nanos: 0 };
        let valid = model.map_or(false, |own| validate(problem, &own.bytes, limit));
        let admission = policy(&verification.verdict);
        let verdict_form = form(&verification.verdict);
        verification.with_private_exact_typed_replay_authority(
            own,
            &input,
            false,
            valid,
            &admission,
            &wording(),
            &verdict_form,
            &sha256,
        )
    };
    let seal = |verification| seal_against(verification, &obligation);
    assert!(authorized(&seal(candidate())));

    let with_model = |bytes: &[u8]| {
        let mut verification = candidate();
        for own in &mut evidence_of_mut(&mut verification).artifacts {
            if own.kind == kind {
                *own = artifact(kind, "trust-mc://replacement-model.json", bytes);
            }
        }
        verification
    };
    assert!(!authorized(&seal(with_model(b"{"))));
    let foreign = solve_full(&safe_cyclic_typed_chc_obligation(20), pdr_options())
        .expect("foreign candidate solves");
    let foreign_model = evidence_of(&foreign)
        .artifacts
        .iter()
        .find(|artifact| artifact.kind == kind)
        .and_then(|artifact| artifact.materialization.as_ref())
        .expect("foreign model");
    assert!(!authorized(&seal(with_model(&foreign_model.bytes))));

    let mut missing = candidate();
    evidence_of_mut(&mut missing).artifacts.retain(|artifact| artifact.kind != kind);
    assert!(!authorized(&seal(missing)));

    let mut duplicate = candidate();
    let proof = evidence_of_mut(&mut duplicate);
    let extra = proof
        .artifacts
        .iter()
        .find(|artifact| artifact.kind == kind)
        .expect("model")
        .duplicate();
    proof.artifacts.push(extra);
    assert!(!authorized(&seal(duplicate)));

    let mut wrong_kind = candidate();
    for own in &mut evidence_of_mut(&mut wrong_kind).artifacts {
        if own.kind == kind {
            own.kind = FullVerificationArtifactKind::DiagnosticTrace;
        }
    }
    assert!(!authorized(&seal(wrong_kind)));

    let mut mutated = safe_cyclic_typed_chc_obligation(10);
    mutated.vc.rules[2] = rule(Some(app("loop", vec![x()])), vec![truth()], app("error", vec![]));
    assert!(!authorized(&seal_against(candidate(), &mutated)));
}

#[test]
fn generic_and_whole_bundle_pdr_candidates_remain_reject_only() {
    let obligation = safe_cyclic_typed_chc_obligation(10);
    let generic = solve_full(&obligation, pdr_options()).expect("candidate solves");
    assert!(!authorized(&generic));
    assert_eq!(policy(&generic.verdict), Ok(ChcPdrProofKind::PdrInvariant));

    let input = fresh(&obligation, &pdr_options());
    let admission = policy(&generic.verdict);
    let verdict_form = form(&generic.verdict);
    let bundle_candidate = generic.with_private_native_bundle_authority(
        &obligation,
        &input,
        &admission,
        &wording(),
        &verdict_form,
        &sha256,
    );
    assert!(!authorized(&bundle_candidate), "an invariant proves no single request");
}

fn admitted_bundle() -> NativeVerificationBundle {
    bundle_with(vec![])
}

fn bundle_with(body: Vec<InstructionNode>) -> NativeVerificationBundle {
    NativeVerificationBundle {
        module_valid: true,
        module_errors: vec![],
        target_info: Some(TargetProfile {
            triple: "x86_64-unknown-linux-gnu".to_owned(),
            pointer_size: 8,
        }),
        functions: vec![Function {
            id: 0,
            name: "checked".to_owned(),
            blocks: vec![Block { id: 0, body }],
        }],
        requested: vec![0],
    }
}

fn request(obligation: MirChcPdrObligation) -> NativeTrustMcChcPdrObligation {
    NativeTrustMcChcPdrObligation { request_id: 7, obligations: vec![0], obligation }
}

type Translated = Result<Vec<NativeTrustMcChcPdrObligation>, String>;

fn translate_safe(_: &NativeVerificationBundle, _: &TranslateOptions) -> Translated {
    Ok(vec![request(safe_native_obligation())])
}

fn failing_obligation() -> MirChcPdrObligation {
    let mut obligation = typed_chc_obligation(true);
    obligation.obligation_id = "trust_ir-native-trust_mc-request-8-proof-1".to_owned();
    obligation.native_metadata = Some(metadata(false, 0, &[]));
    obligation
}

fn translate_mixed(_: &NativeVerificationBundle, _: &TranslateOptions) -> Translated {
    Ok(vec![request(safe_native_obligation()), request(failing_obligation())])
}

fn bundle_runner() -> NativeTrustIrChcPdrRunner {
    NativeTrustIrChcPdrRunner::with_solve_options(pdr_options())
}

#[test]
fn native_trust_ir_bundle_runner_returns_bound_obligation_and_evidence() {
    let evidence = bundle_runner()
        .solve_bundle_native_proof_grade(&admitted_bundle(), false, &translate_safe, &backend())
        .expect("bundle runner should return evidence");

    assert_eq!(evidence.obligations.len(), 1);
    let proof = &evidence.obligations[0];
    assert_eq!(proof.translated.request_id, 7);
    assert_eq!(proof.translated.obligations, vec![0]);
    assert_eq!(proof.verification.route, TypedChcPdrRoute::PdrProof);
    is_undecided_for(&proof.verification, CHC_VALIDITY);
    assert!(authorized(&proof.verification));
    let transport = &proof.transport;
    assert_eq!(transport.request_id, 7);
    assert_eq!(transport.proof_id, Some(0));
    assert_eq!(transport.native_id, NATIVE_ID);
    assert_eq!(transport.suite, "tRust");
    assert_eq!(transport.backend, "trust_mc::typed-chc-pdr::chc::pdr-proof");
    assert_eq!(transport.proof_status, NativeTypedProofStatus::Proved);
    assert_eq!(transport.proof_strength, NativeTypedProofStrength::ChcValidity);
    assert_eq!(transport.diagnostics, proof.verification.outcome.diagnostics);
    let [solver] = transport.solver_artifacts.as_slice() else {
        panic!("snapshot must expose exactly one solver transcript");
    };
    let [replay] = transport.replay_artifacts.as_slice() else {
        panic!("snapshot must expose exactly one replay log");
    };
    let [check] = transport.check_artifacts.as_slice() else {
        panic!("snapshot must expose exactly one checked report");
    };
    for artifact in [solver, replay, check] {
        assert!(artifact.digest.is_some() && artifact.byte_len.is_some());
        assert!(!artifact.materialized_bytes(&sha256).expect("bytes").is_empty());
        assert_eq!(artifact.materialized_byte_len(&sha256).map(|len| len > 0), Some(true));
        assert_eq!(artifact.proof_binding_id(&sha256), Some("proof-set"));
    }
    let [input_reference] = solver.referenced_artifacts(&sha256) else {
        panic!("transcript must reference exactly one normalized input");
    };
    assert_eq!(input_reference.kind, FullVerificationArtifactKind::NormalizedInput);
    let inputs: Vec<&NativeTypedProofArtifactRef> = transport
        .response_artifacts
        .iter()
        .filter(|artifact| artifact.kind == FullVerificationArtifactKind::NormalizedInput)
        .collect();
    assert_eq!(inputs.len(), 1);
    assert_eq!(inputs[0].digest.as_ref(), Some(&input_reference.digest));
    assert_eq!(check.referenced_artifacts(&sha256).len(), 2);
}

/// The obligation of a checked branch as a compiler translates it: four blocks, of
/// which the last cannot be reached.
fn checked_branch_obligation() -> MirChcPdrObligation {
    let mut obligation = obligation_of(
        NATIVE_ID,
        vec![
            int_relation("block_0"),
            int_relation("block_1"),
            int_relation("block_2"),
            nullary_relation("error"),
        ],
        vec![
            rule(None, vec![], app("block_0", vec![number(7)])),
            rule(
                Some(app("block_0", vec![x()])),
                vec![relates(BinaryOp::IntGt, x(), number(0))],
                app("block_1", vec![x()]),
            ),
            rule(
                Some(app("block_0", vec![x()])),
                vec![relates(BinaryOp::IntLt, x(), number(0))],
                app("block_2", vec![x()]),
            ),
            rule(Some(app("block_2", vec![x()])), vec![], app("error", vec![])),
        ],
        "error",
    );
    obligation.function_name = "trust_ir_native_checked_branch".to_owned();
    obligation.native_metadata = Some(metadata(false, 0, &[]));
    obligation
}

fn from_parts_with_snapshot(parts: &FullVerificationCacheKeyParts) -> FullVerificationCacheKey {
    assert!(parts.trust_ir_snapshot.is_some(), "metadata contributes a compiler snapshot");
    from_parts(parts)
}

#[test]
fn source_unbound_translated_chc_cannot_mint_direct_smt_authority() {
    let translate_branch = |_: &NativeVerificationBundle, _: &TranslateOptions| -> Translated {
        Ok(vec![request(checked_branch_obligation())])
    };
    let obligations = bundle_runner()
        .translate_obligations(&admitted_bundle(), &translate_branch)
        .expect("bundle should translate");
    assert_eq!(obligations.len(), 1);
    let translated = obligations.into_iter().next().expect("one translated obligation");
    assert_eq!(translated.request_id, 7);
    assert_eq!(translated.obligations, vec![0]);
    assert_eq!(translated.obligation.function_name, "trust_ir_native_checked_branch");
    assert!(translated.obligation.fault.is_none());
    assert!(!translated.obligation.is_trivially_safe());
    assert!(translated.obligation.vc.rules.iter().any(|rule| rule.head.name == "error"));

    let bound_layer = Layer { from_parts: from_parts_with_snapshot, ..layer() };
    let solved = NativeTypedChcPdrRunner::with_options(pdr_options())
        .solve_full_verification(
            &translated.obligation,
            &build(),
            &wording(),
            &bound_layer,
            &engines(),
        )
        .expect("a source-unbound candidate");
    assert_eq!(solved.route, TypedChcPdrRoute::PdrProof);
    assert!(solved.cache_key.valid);
    is_undecided_for(&solved, CHC_VALIDITY);
    assert_eq!(solved.outcome.stats, ChcPdrStats { relation_count: 4, clause_count: 4 });
    assert!(!is_proof_grade_native_full_verification_verdict(&solved.verdict, &grade));
    assert!(!authorized(&solved));

    assert_eq!(policy(&solved.verdict), Ok(ChcPdrProofKind::ChcValidity));
    let proof = evidence_of(&solved);
    assert_eq!(proof.cache_key.as_ref(), Some(&solved.cache_key.key));
    assert_eq!(proof.obligation_id, "trust_ir-native-trust_mc-request-7-proof-0");
    let kept = proof.native_metadata.as_ref().expect("proof keeps the bundle metadata");
    assert_eq!(kept.producer, "tRust");
    assert_eq!(kept.adapter_input, Value::from("rust-mir"));
    assert_eq!(kept.native_request_id, 7);
    assert_eq!(kept.verification_mode, "chc");
    assert_eq!(kept.proof_obligation_ids, vec![0]);
    assert_eq!(kept.lineage_root_ids, vec![0]);
    assert!(proof.artifacts.iter().all(|artifact| artifact.digest.is_some()));
    assert!(proof.artifacts.iter().all(|artifact| artifact.byte_len.is_some()));
    let has = |kind| proof.artifacts.iter().any(|artifact| artifact.kind == kind);
    assert!(has(FullVerificationArtifactKind::TypedChcProblem));
    assert!(!has(FullVerificationArtifactKind::PdrInvariantModel));
}

#[test]
fn panic_free_whole_function_is_credited_through_native_bundle_transport() {
    let translate_panic_free = |_: &NativeVerificationBundle, _: &TranslateOptions| -> Translated {
        Ok(vec![request(typed_native_chc_obligation(true))])
    };
    let obligations = bundle_runner()
        .translate_obligations(&admitted_bundle(), &translate_panic_free)
        .expect("panic-free bundle should translate");
    assert_eq!(obligations.len(), 1);
    assert!(obligations[0].obligation.is_trivially_safe());
    let certified = obligations[0].obligation.native_metadata.as_ref().expect("metadata");
    assert!(certified.structural_reachability_complete);

    let evidence = bundle_runner()
        .solve_bundle_native_proof_grade(
            &admitted_bundle(),
            false,
            &translate_panic_free,
            &backend(),
        )
        .expect("panic-free bundle must produce exact-module authority");
    assert_eq!(evidence.obligations.len(), 1);
    let solved = &evidence.obligations[0].verification;
    assert_eq!(solved.route, TypedChcPdrRoute::TriviallySafe);
    is_undecided_for(solved, CHC_VALIDITY);
    assert!(authorized(solved), "the structural derivation keeps its authority");
}

#[test]
fn bytes_that_do_not_match_their_descriptor_are_not_shown() {
    let evidence = bundle_runner()
        .solve_bundle_native_proof_grade(&admitted_bundle(), false, &translate_safe, &backend())
        .expect("bundle solves");
    let mut transport = evidence.obligations.into_iter().next().expect("proof").transport;
    let solver = &mut transport.solver_artifacts[0];
    solver.materialization.as_mut().expect("retained").bytes.push(0);
    assert!(solver.materialized_bytes(&sha256).is_none());
    assert!(solver.materialized_byte_len(&sha256).is_none());
    assert!(solver.proof_binding_id(&sha256).is_none());
    assert!(solver.referenced_artifacts(&sha256).is_empty());
}

#[test]
fn bundle_not_proved_rows_carry_reasons_and_keep_proved_siblings() {
    let evidence = bundle_runner()
        .solve_bundle_native_proof_grade(&admitted_bundle(), false, &translate_mixed, &backend())
        .expect("mixed bundle must return evidence");

    assert_eq!(evidence.obligations.len(), 1, "exactly the safe request proves");
    assert_eq!(evidence.obligations[0].transport.native_id, NATIVE_ID);
    assert!(authorized(&evidence.obligations[0].verification));
    assert_eq!(evidence.not_proved.len(), 1, "exactly the refuted request is not proved");
    let row = &evidence.not_proved[0];
    assert_eq!(
        row.translated.obligation.obligation_id,
        "trust_ir-native-trust_mc-request-8-proof-1"
    );
    assert_eq!(
        row.reason,
        "native proof-grade evidence rejected: counterexample evidence is not a proof"
    );
    assert!(evidence.refuted.is_empty(), "a direct witness does not ride the refuted channel");
}

#[test]
fn bundle_with_no_proved_requests_returns_ok_with_full_not_proved_map() {
    let translate = |_: &NativeVerificationBundle, _: &TranslateOptions| -> Translated {
        Ok(vec![request(failing_obligation()), request(typed_native_chc_obligation(false))])
    };
    let evidence = bundle_runner()
        .solve_bundle_native_proof_grade(&admitted_bundle(), false, &translate, &backend())
        .expect("an all-not-proved bundle must still return evidence");

    assert!(evidence.obligations.is_empty());
    assert_eq!(evidence.not_proved.len(), 2);
    assert!(evidence.not_proved[1].reason.starts_with("native solve is unsupported: "));
}

#[test]
fn bundle_structural_translation_error_stays_fatal() {
    let corrupt = |_: &NativeVerificationBundle, _: &TranslateOptions| -> Translated {
        Err("request 8 references missing proof obligation 9".to_owned())
    };
    let error = bundle_runner()
        .solve_bundle_native_proof_grade(&admitted_bundle(), false, &corrupt, &backend())
        .err()
        .expect("a corrupt bundle must fail closed");
    assert_eq!(
        error,
        NativeSolveError::InvalidInput {
            field: "native_trust_ir_bundle".to_owned(),
            detail: "request 8 references missing proof obligation 9".to_owned(),
        }
    );
    // A malformed obligation costs the bundle, too, with its proved siblings.
    let malformed = |_: &NativeVerificationBundle, _: &TranslateOptions| -> Translated {
        let mut broken = failing_obligation();
        broken.fault = Some("obligation is not MIR-derived".to_owned());
        Ok(vec![request(safe_native_obligation()), request(broken)])
    };
    let error = bundle_runner()
        .solve_bundle_native_proof_grade(&admitted_bundle(), false, &malformed, &backend())
        .err()
        .expect("a malformed obligation must fail closed");
    assert!(matches!(error, NativeSolveError::InvalidInput { field, .. } if field == "request.obligation"));
}

#[test]
fn per_request_not_proved_classification_keeps_structural_errors_fatal() {
    assert!(native_solve_error_is_per_request_not_proved(&NativeSolveError::ProofGradeRejected {
        rejection: rejection("counterexample evidence is not a proof"),
    }));
    assert!(native_solve_error_is_per_request_not_proved(&NativeSolveError::SolverFailed {
        reason: "ay-chc engine failed on this request".to_owned(),
    }));
    assert!(native_solve_error_is_per_request_not_proved(&NativeSolveError::Unsupported(
        NativeSolveUnsupported {
            operation: NativeOperation::Solve,
            reason: "native_trust_ir_trivial_safe_chc_not_proof_grade".to_owned(),
            detail: "no Horn rule derives the query target".to_owned(),
        }
    )));
    assert!(!native_solve_error_is_per_request_not_proved(&NativeSolveError::InvalidInput {
        field: "native_trust_ir_bundle.evidence.native_id".to_owned(),
        detail: "transport native id mismatch".to_owned(),
    }));
}

#[test]
fn proof_grade_bundle_rejects_every_disabled_safety_option() {
    for disabled in [
        "check_signed_overflow",
        "check_unsigned_overflow",
        "check_div_by_zero",
        "check_memory_bounds",
    ] {
        let mut options = TranslateOptions::default();
        match disabled {
            "check_signed_overflow" => options.check_signed_overflow = false,
            "check_unsigned_overflow" => options.check_unsigned_overflow = false,
            "check_div_by_zero" => options.check_div_by_zero = false,
            "check_memory_bounds" => options.check_memory_bounds = false,
            _ => unreachable!(),
        }
        let error = NativeTrustIrChcPdrRunner::new()
            .with_translate_options(options)
            .solve_bundle_native_proof_grade(&admitted_bundle(), false, &translate_safe, &backend())
            .err()
            .expect("disabling any safety family must block authority");
        let NativeSolveError::InvalidInput { field, detail } = error else {
            panic!("{disabled} must fail at the translation profile");
        };
        assert_eq!(field, "translate_options");
        assert_eq!(
            detail,
            format!("native bundle proof authority requires the full safety profile; disabled: {disabled}")
        );
    }

    let mut custom = TranslateOptions::default();
    custom.logic = Some("HORN".to_owned());
    custom.timeout_ms = Some(10_000);
    let evidence = NativeTrustIrChcPdrRunner::new()
        .with_translate_options(custom)
        .solve_bundle_native_proof_grade(&admitted_bundle(), false, &translate_safe, &backend())
        .expect("logic and limit must not disable a safety family");
    assert_eq!(evidence.obligations.len(), 1);
    assert!(authorized(&evidence.obligations[0].verification));
}

#[test]
fn public_bundle_entrypoints_default_deny_and_thread_exact_source_authority() {
    let node = InstructionNode { annotations: vec![], instruction: Instruction::Assume };
    let bundle = bundle_with(vec![node]);
    let runner = NativeTrustIrChcPdrRunner::new();
    let error = runner
        .solve_bundle_native_proof_grade(&bundle, false, &translate_safe, &backend())
        .err()
        .expect("the ordinary entry point must keep Assume out");
    let NativeSolveError::InvalidInput { field, detail } = error else {
        panic!("Assume must be refused structurally");
    };
    assert_eq!(field, "native_trust_ir_bundle.module.functions.instructions");
    assert!(detail.contains("unauthenticated Assume"), "{detail}");
    let refused = runner.solve_bundle_native_proof_grade_with_source_authority(
        &bundle,
        false,
        false,
        &translate_safe,
        &backend(),
    );
    assert!(refused.is_err(), "an authority over another bundle grants nothing");
    let evidence = runner
        .solve_bundle_native_proof_grade_with_source_authority(
            &bundle,
            true,
            false,
            &translate_safe,
            &backend(),
        )
        .expect("the exact authority admits Assume");
    assert_eq!(evidence.obligations.len(), 1);
}

#[test]
fn snapshots_are_bound_to_their_requests() {
    let evidence = bundle_runner()
        .solve_bundle_native_proof_grade(&admitted_bundle(), false, &translate_safe, &backend())
        .expect("bundle solves");
    let row = evidence.obligations.into_iter().next().expect("proof");
    let refused = |translated: &NativeTrustMcChcPdrObligation| {
        match validate_native_trust_ir_transport_binding(translated, &row.transport) {
            Err(NativeSolveError::InvalidInput { field, detail }) => (field, detail),
            other => panic!("expected a refusal, got {other:?}"),
        }
    };
    let mut other_request = request(safe_native_obligation());
    other_request.request_id = 8;
    assert_eq!(
        refused(&other_request),
        (
            "native_trust_ir_bundle.evidence.request_id".to_owned(),
            "transport request id 7 does not match translated request id 8".to_owned()
        )
    );
    let mut other_proofs = request(safe_native_obligation());
    other_proofs.obligations = vec![0, 3];
    assert_eq!(
        refused(&other_proofs),
        (
            "native_trust_ir_bundle.evidence.proof_id".to_owned(),
            "transport proof id Some(0) does not match translated proof ids [0, 3]".to_owned()
        )
    );
    let (field, _) = refused(&request(failing_obligation()));
    assert_eq!(field, "native_trust_ir_bundle.evidence.native_id");
}

#[test]
fn private_chc_validity_seal_rejects_mutation_reconstruction_and_transplant() {
    let solve_primary = || {
        bundle_runner()
            .solve_bundle_native_proof_grade(&admitted_bundle(), false, &translate_safe, &backend())
            .expect("primary bundle should prove")
            .obligations
            .into_iter()
            .next()
            .expect("primary proof row")
            .verification
    };
    let original = solve_primary();
    assert!(authorized(&original));
    let copy = original.clone();
    assert_eq!(copy.verdict, original.verdict);
    assert_eq!(copy.outcome, original.outcome);
    assert!(!authorized(&copy), "copying must drop the authority");

    let mut directory = solve_primary();
    directory.artifact_directory.push_str("-tampered");
    assert!(!authorized(&directory));

    let mut diagnostics = solve_primary();
    diagnostics.outcome.diagnostics.push("forged diagnostic".to_owned());
    assert!(!authorized(&diagnostics));

    let reconstructed = TypedChcPdrFullVerification::unsealed(
        original.route,
        original.cache_key.duplicate(),
        original.artifact_directory.clone(),
        original.outcome.duplicate(),
        original.verdict.duplicate(),
    );
    assert!(!authorized(&reconstructed), "public fields do not restore the seal");

    let other = |_: &NativeVerificationBundle, _: &TranslateOptions| -> Translated {
        let mut obligation = safe_native_obligation();
        obligation.vc.rules[0] = rule(None, vec![], app("entry", vec![number(1)]));
        Ok(vec![request(obligation)])
    };
    let secondary = bundle_runner()
        .solve_bundle_native_proof_grade(&admitted_bundle(), false, &other, &backend())
        .expect("secondary bundle should prove");
    let mut transplanted = solve_primary();
    transplanted.verdict = secondary.obligations[0].verification.verdict.duplicate();
    assert!(!authorized(&transplanted), "another verdict must not transplant");
}

#[test]
fn copies_equal_their_response_where_neither_has_a_seal() {
    let sealed = solve_replayed(&safe_native_obligation());
    assert!(authorized(&sealed));
    let copy = sealed.clone();
    assert!(copy != sealed, "the seal is not copied");
    assert!(copy.clone() == copy, "without a seal a copy is the same");
    assert!(authorized(&sealed), "the response keeps its own seal");

    let mut altered = solve_replayed(&safe_native_obligation());
    altered.cache_key.serialized = Value::from("another key");
    assert!(!authorized(&altered));
}

/// What a run emits for a record whose digest may not be that of its text.
fn emitted_for(record: &NativeTypedChcPdrNormalizedInput) -> Option<FullVerificationVerdict> {
    let obligation = safe_nontrivial_typed_chc_obligation();
    let prepared =
        prepare_validated_typed_chc_pdr_input(&obligation, &render, &canonicalize, &sha256)
            .expect("obligation should prepare");
    let run = safe_run(&prepared.problem.expect("lowered problem"));
    let solved = solve_full(&obligation, pdr_options()).expect("obligation should solve");
    emit_pdr_invariant_from_run(
        &run.result,
        &run.certificate,
        &obligation,
        obligation.stats(),
        record,
        &solved.cache_key,
        &wording(),
        &sha256,
        &link,
        &publish,
    )
    .map(|(_, answer)| answer)
}

#[test]
fn proof_runs_are_held_against_the_input_itself() {
    let mut record = normalized(&safe_nontrivial_typed_chc_obligation());
    assert!(emitted_for(&record).is_some());

    record.normalized_input_hash.value = "0".repeat(64);
    assert!(emitted_for(&record).is_some(), "the text is digested anew");

    record.normalized_input.push('x');
    assert!(emitted_for(&record).is_none(), "the run is about another input");
}

fn plain(
    obligation: &MirChcPdrObligation,
    engine: ChcPdrEngine,
    reply: fn() -> Result<AyVerdict, PlainFault>,
) -> NativeSolveResult<trust_mc_native::evidence::ChcPdrSolveOutcome> {
    let options = ChcPdrSolveOptions { engine, ..pdr_options() };
    let answer = |_: &ChcProblem, _: PlainEngine, limit: SolveTimeout| {
        assert_eq!(limit, SolveTimeout { secs: 10, nanos: 0 });
        reply()
    };
    solve_typed_chc_pdr(
        obligation,
        &options,
        &wording(),
        &render,
        &canonicalize,
        &sha256,
        &answer,
    )
}

#[test]
fn solve_typed_chc_pdr_nontrivial_safe_runs_pdr() {
    let obligation = safe_nontrivial_typed_chc_obligation();
    let solved = plain(&obligation, ChcPdrEngine::Pdr, || Ok(AyVerdict::Proved)).expect("solves");

    assert_eq!(solved.obligation_id, "safe-nontrivial-typed-obligation");
    assert!(matches!(solved.status, ChcPdrSolveStatus::Unknown { .. }));
    assert!(solved.diagnostics.iter().any(|line| line.contains("private consumer replay")));
}

#[test]
fn solve_typed_chc_pdr_reachable_error_is_not_proved() {
    let obligation = typed_chc_obligation(true);
    let unknown = || Ok(AyVerdict::Unknown { detail: Some("inconclusive".to_owned()) });
    let solved = plain(&obligation, ChcPdrEngine::Pdr, unknown).expect("solves");
    assert_eq!(solved.obligation_id, "typed-obligation");
    assert_eq!(solved.status, ChcPdrSolveStatus::Unknown { reason: "inconclusive".to_owned() });
}

fn violated() -> Result<AyVerdict, PlainFault> {
    Ok(AyVerdict::Violated { step_count: 2, rendering: "trace".to_owned() })
}

#[test]
fn solve_typed_chc_pdr_reachable_error_mints_bound_refutation_witness() {
    let obligation = typed_chc_obligation(true);
    let engine = ChcPdrEngine::AdaptivePortfolio;
    let solved = plain(&obligation, engine, violated).expect("solves");
    let ChcPdrSolveStatus::Refuted { witness: Some(witness) } = &solved.status else {
        panic!("reachable error must refute with a witness, got {:?}", solved.status);
    };

    assert_eq!(witness.obligation_id, "typed-obligation");
    let expected = normalized(&obligation);
    assert_eq!(expected.route, TypedChcPdrRoute::PdrProof);
    assert_eq!(witness.encoded_formula_sha256, expected.normalized_input_hash.value);
    assert_eq!(
        witness.semantic_config_sha256,
        typed_chc_pdr_semantic_config_sha256(engine, expected.route, &sha256)
    );
    assert!(witness.concreteness.is_exact_with_zero_counts());
    assert_eq!(
        witness.verification,
        ChcPdrCexVerification::AyChcReplayVerified { step_count: 2 }
    );
    assert!(witness.counterexample_json.contains("trust_mc.typed-chc-pdr-counterexample/v1"));
}

#[test]
fn refutations_with_unsupported_constructs_are_demoted() {
    let mut obligation = typed_chc_obligation(true);
    obligation.native_metadata = Some(metadata(true, 2, &["Cast", "Switch"]));
    let solved = plain(&obligation, ChcPdrEngine::Pdr, violated).expect("solves");
    let expected = fail_closed_lowering_demotion_reason(2, &["Cast".to_owned(), "Switch".to_owned()]);
    assert_eq!(solved.status, ChcPdrSolveStatus::Unknown { reason: expected.clone() });
    let full = solve_full(&obligation, pdr_options()).expect("solves");
    is_undecided_for(&full, &expected);
    assert!(matches!(full.verdict, FullVerificationVerdict::Unknown { .. }));
}

fn decode(content: &String) -> Result<DirectSmtRefutationReplayPayload, String> {
    let value: Value = serde_json::from_str(content).map_err(|fault| fault.to_string())?;
    let fields = value.as_object().ok_or("expected an object")?;
    let known =
        ["schema", "source", "unroll_k", "derivation_clause_indices", "witness_model"];
    for field in fields.keys() {
        if !known.contains(&field.as_str()) {
            return Err(format!("unknown field `{field}`"));
        }
    }
    let text = |field: &str| value[field].as_str().map(str::to_owned).ok_or("missing text");
    let indices = value["derivation_clause_indices"].as_array().ok_or("missing trace")?;
    Ok(DirectSmtRefutationReplayPayload {
        schema: text("schema")?,
        source: text("source")?,
        unroll_k: value["unroll_k"].as_u64().map(|k| k as u32),
        derivation_clause_indices: indices.iter().filter_map(Value::as_u64).collect(),
        witness_model: value["witness_model"].clone(),
    })
}

/// Accepts exactly the derivation that the search finds.
fn check(problem: &ChcProblem, found: &AcyclicUnsafeWitness) -> Result<(), String> {
    match explore(problem) {
        AcyclicDecision::Unsafe(own) if own == *found => Ok(()),
        _ => Err("derivation or model does not replay".to_owned()),
    }
}

fn replay(
    obligation: &MirChcPdrObligation,
    engine: ChcPdrEngine,
    witness: &ChcPdrRefutationWitness,
) -> NativeSolveResult<String> {
    independently_replay_typed_chc_pdr_refutation_witness(
        obligation,
        engine,
        witness,
        &render,
        &canonicalize,
        &sha256,
        &decode,
        &check,
    )
}

#[test]
fn solve_typed_chc_pdr_full_reachable_error_mints_bound_refutation_witness() {
    let obligation = typed_chc_obligation(true);
    let solved = solve_full(&obligation, pdr_options()).expect("solves");
    assert!(matches!(solved.verdict, FullVerificationVerdict::Failed { .. }));
    let witness = witness_of(&solved);
    assert_eq!(witness.obligation_id, "typed-obligation");
    let expected = normalized(&obligation);
    assert_eq!(witness.encoded_formula_sha256, expected.normalized_input_hash.value);
    assert_eq!(
        witness.semantic_config_sha256,
        typed_chc_pdr_semantic_config_sha256(ChcPdrEngine::Pdr, expected.route, &sha256)
    );
    assert!(witness.concreteness.is_exact_with_zero_counts());
    assert_eq!(witness.verification, ChcPdrCexVerification::DirectSmtModel);
    assert!(witness.counterexample_json.contains("trust_mc.typed-chc-pdr-counterexample/v1"));
    let replayed = replay(&obligation, ChcPdrEngine::Pdr, witness).expect("witness replays");
    assert!(replayed.contains("acyclic derivation"), "{replayed}");
}

fn mutate_payload(witness: &mut ChcPdrRefutationWitness, mutate: &dyn Fn(&mut Value)) {
    let mut payload: Value =
        serde_json::from_str(&witness.counterexample_json).expect("fixture payload");
    mutate(&mut payload);
    witness.counterexample_json = payload.to_string();
}

fn repeat_first_step(payload: &mut Value) {
    let trace = payload["derivation_clause_indices"].as_array_mut().expect("trace array");
    let repeated = trace.first().expect("nonempty trace").clone();
    trace.push(repeated);
}

#[test]
fn independent_direct_smt_refutation_replay_rejects_mutations() {
    let obligation = typed_chc_obligation(true);
    let solved = solve_full(&obligation, pdr_options()).expect("solves");
    let original = witness_of(&solved);
    replay(&obligation, ChcPdrEngine::Pdr, original).expect("unmodified witness replays");
    let detail = |mutated: &ChcPdrRefutationWitness| {
        match replay(&obligation, ChcPdrEngine::Pdr, mutated) {
            Err(NativeSolveError::InvalidInput { field, detail }) => {
                assert_eq!(field, "refutation_witness");
                detail
            }
            other => panic!("mutation must fail closed, got {other:?}"),
        }
    };

    let mut mutated = original.duplicate();
    mutated.encoded_formula_sha256 = "00".repeat(32);
    assert_eq!(detail(&mutated), "encoded-formula digest differs from the fresh exact lowering");

    let mut mutated = original.duplicate();
    mutated.semantic_config_sha256 = "11".repeat(32);
    assert_eq!(
        detail(&mutated),
        "semantic-configuration digest differs from the consumer configuration"
    );
    assert!(replay(&obligation, ChcPdrEngine::AdaptivePortfolio, original).is_err());

    let mut mutated = original.duplicate();
    mutated.obligation_id.push('x');
    assert!(detail(&mutated).contains("differs from retained obligation"));

    let mut mutated = original.duplicate();
    mutated.verification = ChcPdrCexVerification::BoundedUnrollDirectSmtModel { k: 4 };
    assert!(detail(&mutated).contains("does not match its proof class"));

    let mut mutated = original.duplicate();
    mutated.verification = ChcPdrCexVerification::AyChcReplayVerified { step_count: 3 };
    assert_eq!(
        detail(&mutated),
        "counterexample verification kind AyChcReplayVerified { step_count: 3 } has no independent replay surface"
    );

    let mut mutated = original.duplicate();
    mutated.concreteness = ChcPdrEncodingConcreteness::ExactEncoding {
        translation_drops: 0,
        havocs: 1,
        undef_diagnostic_havocs: 0,
    };
    assert_eq!(
        detail(&mutated),
        "witness does not carry an all-zero exact-encoding attestation"
    );

    let mut mutated = original.duplicate();
    mutate_payload(&mut mutated, &|payload| {
        payload["unrecognized_authority"] = Value::from(true);
    });
    assert!(detail(&mutated).contains("does not match the strict JSON schema: unknown field"));

    let mut mutated = original.duplicate();
    mutate_payload(&mut mutated, &|payload| payload["schema"] = Value::from("v2"));
    assert_eq!(detail(&mutated), "unsupported counterexample schema `v2`");

    let mut mutated = original.duplicate();
    mutate_payload(&mut mutated, &repeat_first_step);
    assert_eq!(detail(&mutated), "derivation or model does not replay");

    let mut mutated = original.duplicate();
    mutate_payload(&mut mutated, &|payload| {
        payload["witness_model"]["forged_extra_binding"] = Value::from(true);
    });
    assert_eq!(detail(&mutated), "derivation or model does not replay");

    let mut mutated = original.duplicate();
    mutated.counterexample_json = "x".repeat(MAX_REFUTATION_REPLAY_PAYLOAD_BYTES + 1);
    assert_eq!(
        detail(&mutated),
        "counterexample payload has 16777217 bytes, above the replay budget"
    );

    let trivial = typed_chc_obligation(false);
    assert!(matches!(
        replay(&trivial, ChcPdrEngine::Pdr, original),
        Err(NativeSolveError::InvalidInput { detail, .. })
            if detail == "retained obligation does not select the typed CHC/PDR route"
    ));
    let mut malformed = typed_chc_obligation(true);
    malformed.fault = Some("not MIR-derived".to_owned());
    assert!(matches!(
        replay(&malformed, ChcPdrEngine::Pdr, original),
        Err(NativeSolveError::InvalidInput { field, .. }) if field == "obligation"
    ));
}

#[test]
fn typed_chc_pdr_refutation_witness_requires_exact_lowering_accounting() {
    let hash = sha256(b"formula");
    let cex = Value::from("counterexample");
    let mint = |lowering: Option<TypedChcLoweringAccounting>| {
        typed_chc_pdr_refutation_witness(
            "typed-obligation",
            &hash,
            ChcPdrEngine::Pdr,
            TypedChcPdrRoute::PdrProof,
            &cex,
            ChcPdrCexVerification::DirectSmtModel,
            lowering,
            &sha256,
        )
    };

    let exact = TypedChcLoweringAccounting::default();
    let witness = mint(Some(exact)).expect("exact accounting mints a witness");
    assert!(witness.concreteness.is_exact_with_zero_counts());
    assert_eq!(witness.encoded_formula_sha256, hash.value);
    assert_eq!(witness.counterexample_json, "\"counterexample\"");

    for dirty in [
        TypedChcLoweringAccounting { translation_drops: 1, ..exact },
        TypedChcLoweringAccounting { havocs: 1, ..exact },
        TypedChcLoweringAccounting { undef_diagnostic_havocs: 1, ..exact },
    ] {
        assert!(mint(Some(dirty)).is_none(), "{dirty:?}");
    }
    assert!(mint(None).is_none());
}

#[test]
fn typed_chc_pdr_semantic_config_digest_is_deterministic_and_config_bound() {
    let digest = |engine, route| typed_chc_pdr_semantic_config_sha256(engine, route, &sha256);
    let pdr = ChcPdrEngine::Pdr;
    let portfolio = ChcPdrEngine::AdaptivePortfolio;

    assert_eq!(
        digest(pdr, TypedChcPdrRoute::PdrProof),
        digest(pdr, TypedChcPdrRoute::PdrProof)
    );
    assert_eq!(
        digest(pdr, TypedChcPdrRoute::PdrProof),
        sha256(typed_chc_pdr_semantic_config(pdr, TypedChcPdrRoute::PdrProof).as_bytes()).value
    );
    assert_ne!(
        digest(pdr, TypedChcPdrRoute::PdrProof),
        digest(portfolio, TypedChcPdrRoute::PdrProof)
    );
    assert_ne!(
        digest(pdr, TypedChcPdrRoute::PdrProof),
        digest(pdr, TypedChcPdrRoute::TriviallySafe)
    );
    let value = digest(pdr, TypedChcPdrRoute::PdrProof);
    assert_eq!(value.len(), 64);
    assert!(value.bytes().all(|byte| byte.is_ascii_hexdigit() && !byte.is_ascii_uppercase()));
    assert_eq!(
        typed_chc_pdr_semantic_config(pdr, TypedChcPdrRoute::PdrProof),
        "{\"schema\":\"trust_mc.typed-chc-pdr-semantic-config/v1\",\"engine\":\"Pdr\",\"route\":\"PdrProof\",\"typed_lowering\":\"typed-chc-ay/exact-or-reject/v1\"}"
    );
}

#[test]
fn solve_typed_chc_pdr_rejects_placeholders() {
    let mut placeholder = typed_chc_obligation(false);
    placeholder.fault = Some("obligation is not MIR-derived".to_owned());
    let err = plain(&placeholder, ChcPdrEngine::Pdr, violated)
        .expect_err("placeholders must not solve as proof input");
    match err {
        NativeSolveError::InvalidInput { field, detail } => {
            assert_eq!(field, "request.obligation");
            assert!(detail.contains("not MIR-derived"));
        }
        other => panic!("placeholder should fail validation: {other:?}"),
    }
}

#[test]
fn certificates_are_not_exported_and_engines_may_fail() {
    let obligation = typed_chc_obligation(true);
    let options = ChcPdrSolveOptions { produce_proof_certificate: true, ..pdr_options() };
    let err = solve_full(&obligation, options).expect_err("no certificate is exported");
    assert!(matches!(
        err,
        NativeSolveError::Unsupported(own) if own.reason == "proof_certificate_not_supported"
    ));
    let failing: Engines = SolverEngines {
        decide,
        loop_lane: no_loop_lane,
        search,
        prove: |_: &ChcProblem, _: SolveTimeout| Some(Err("engine crashed".to_owned())),
    };
    let err = solve_typed_chc_pdr_full_verification(
        &safe_cyclic_typed_chc_obligation(10),
        pdr_options(),
        &build(),
        &wording(),
        &layer(),
        &failing,
    )
    .expect_err("a failed engine is an error");
    assert_eq!(
        err,
        NativeSolveError::SolverFailed {
            reason: "ay-chc PDR proof run failed: engine crashed".to_owned()
        }
    );
}

#[test]
fn searches_that_do_not_return_leave_the_request_undecided() {
    let silent: Engines = SolverEngines {
        decide: |_: &ChcProblem, _: SolveTimeout| None,
        loop_lane: no_loop_lane,
        search,
        prove,
    };
    let solved = solve_typed_chc_pdr_full_verification(
        &safe_cyclic_typed_chc_obligation(10),
        pdr_options(),
        &build(),
        &wording(),
        &layer(),
        &silent,
    )
    .expect("silence is no error");
    is_undecided_for(
        &solved,
        "native direct-SMT decision search exceeded the 12s wall-clock ceiling",
    );
    assert!(matches!(solved.verdict, FullVerificationVerdict::Unknown { .. }));
}

#[test]
fn the_watchdog_allows_two_more_seconds() {
    let ceiling = watchdog_ceiling(SolveTimeout { secs: 8, nanos: 5 });
    assert_eq!(ceiling, SolveTimeout { secs: 10, nanos: 5 });
    let most = watchdog_ceiling(SolveTimeout { secs: u64::MAX, nanos: 0 });
    assert_eq!(most, SolveTimeout { secs: u64::MAX, nanos: 999_999_999 });
}

fn typed_solve<'a>(
    obligation: &'a MirChcPdrObligation,
    words: &'a ReplayWording,
) -> TypedSolve<'a> {
    let options = ChcPdrSolveOptions { timeout: None, ..pdr_options() };
    let input = fresh(obligation, &options);
    assert_eq!(input.prepared.normalized.route, TypedChcPdrRoute::PdrProof);
    TypedSolve::start(obligation, options, input.prepared, input.cache_key, words)
        .expect("solve starts")
}

fn run_lane(obligation: &MirChcPdrObligation, ladder: &[u32]) -> Option<TypedChcPdrFullVerification> {
    let words = wording();
    let solve = typed_solve(obligation, &words);
    try_bounded_unroll_refutation_lane_with_ladder(&solve, ladder, &search, &sha256)
}

#[test]
fn ic3_loop_lane_admits_bv64_realcall_parity() {
    // A cyclic problem with an invariant that passed every clause.
    let obligation = safe_cyclic_typed_chc_obligation(10);
    let words = wording();
    let solve = typed_solve(&obligation, &words);
    let lane = |problem: &ChcProblem, _: SolveTimeout| {
        Some(LoopLaneRun { validated: true, run: Some(safe_run(problem)) })
    };
    let verification = try_ic3_loop_lane(&solve, &lane, &sha256, &link, &publish)
        .expect("the lane transports the invariant");
    assert_eq!(verification.route, TypedChcPdrRoute::PdrProof);
    is_undecided_for(&verification, PDR_INVARIANT);
    let model = evidence_of(&verification)
        .artifacts
        .iter()
        .find(|artifact| artifact.kind == FullVerificationArtifactKind::PdrInvariantModel)
        .and_then(|artifact| artifact.materialization.as_ref())
        .expect("lane evidence carries the invariant");
    assert_eq!(model.bytes, invariant_bytes(&solve.problem));
}

#[test]
fn ic3_loop_lane_rejects_false_parity() {
    let obligation = safe_cyclic_typed_chc_obligation(10);
    let words = wording();
    let solve = typed_solve(&obligation, &words);
    let rejected = |problem: &ChcProblem, _: SolveTimeout| {
        Some(LoopLaneRun { validated: false, run: Some(safe_run(problem)) })
    };
    assert!(try_ic3_loop_lane(&solve, &rejected, &sha256, &link, &publish).is_none());
    let foreign = |problem: &ChcProblem, _: SolveTimeout| {
        let mut run = safe_run(problem);
        run.certificate.normalized_input_sha256 = "00".repeat(32);
        Some(LoopLaneRun { validated: true, run: Some(run) })
    };
    assert!(try_ic3_loop_lane(&solve, &foreign, &sha256, &link, &publish).is_none());
}

#[test]
fn bounded_unroll_lane_refutes_a_loop_overflow() {
    // The accumulator exceeds 239 after fifteen additions of sixteen.
    let obligation = accumulator_obligation(16, 300, 239);
    let verification =
        run_lane(&obligation, &BOUNDED_UNROLL_K_LADDER).expect("refutes inside the ladder");
    assert!(matches!(verification.verdict, FullVerificationVerdict::Failed { .. }));
    let witness = witness_of(&verification);
    assert_eq!(
        witness.verification,
        ChcPdrCexVerification::BoundedUnrollDirectSmtModel { k: 16 }
    );
    let payload: Value = serde_json::from_str(&witness.counterexample_json).expect("JSON");
    assert_eq!(payload["source"], "direct-smt-bounded-unroll-error-derivation");
    assert_eq!(payload["unroll_k"], 16);
    assert_eq!(
        witness.encoded_formula_sha256,
        normalized(&obligation).normalized_input_hash.value
    );
    let replayed = replay(&obligation, ChcPdrEngine::Pdr, witness).expect("witness replays");
    assert!(replayed.contains("k=16"), "{replayed}");
}

/// Bits of a term, lowest first.
type Bits = Vec<bool>;

fn bits_of(value: u128, width: usize) -> Bits {
    (0..width).map(|at| at < 128 && (value >> at) & 1 == 1).collect()
}

fn unsigned_of(bits: &Bits) -> u128 {
    bits.iter().rev().fold(0, |value, bit| value * 2 + u128::from(*bit))
}

fn eval_bits(expr: &ChcExpr, env: &BTreeMap<String, Bits>) -> Bits {
    let at = |args: &Vec<Arc<ChcExpr>>, index: usize| eval_bits(&args[index], env);
    match expr {
        ChcExpr::BitVec(value, width) => bits_of(*value, *width as usize),
        ChcExpr::Var(own) => env[&own.name].clone(),
        ChcExpr::Op(ChcOp::BvNot, args) => at(args, 0).iter().map(|bit| !bit).collect(),
        ChcExpr::Op(ChcOp::BvAdd, args) => {
            let mut carry = false;
            let sum = |(left, right): (&bool, &bool)| {
                let total = u8::from(*left) + u8::from(*right) + u8::from(carry);
                carry = total >= 2;
                total % 2 == 1
            };
            at(args, 0).iter().zip(at(args, 1).iter()).map(sum).collect()
        }
        ChcExpr::Op(ChcOp::BvShl, args) => {
            let own = at(args, 0);
            let by = (unsigned_of(&at(args, 1)) as usize).min(own.len());
            let mut shifted = vec![false; by];
            shifted.extend_from_slice(&own[..own.len() - by]);
            shifted
        }
        ChcExpr::Op(ChcOp::BvSignExtend(by), args) => {
            let mut own = at(args, 0);
            let sign = *own.last().expect("a bit");
            own.extend(vec![sign; *by as usize]);
            own
        }
        ChcExpr::Op(ChcOp::BvExtract(high, low), args) => {
            at(args, 0)[*low as usize..=*high as usize].to_vec()
        }
        other => panic!("unexpected term {other:?}"),
    }
}

fn eval_constraint(expr: &ChcExpr, env: &BTreeMap<String, Bits>) -> bool {
    let at = |args: &Vec<Arc<ChcExpr>>, index: usize| eval_bits(&args[index], env);
    match expr {
        ChcExpr::Bool(value) => *value,
        ChcExpr::Op(ChcOp::And, args) => args.iter().all(|arg| eval_constraint(arg, env)),
        ChcExpr::Op(ChcOp::Not, args) => !eval_constraint(&args[0], env),
        ChcExpr::Op(ChcOp::Eq, args) => at(args, 0) == at(args, 1),
        ChcExpr::Op(ChcOp::BvULt, args) => unsigned_of(&at(args, 0)) < unsigned_of(&at(args, 1)),
        ChcExpr::Op(ChcOp::BvULe, args) => unsigned_of(&at(args, 0)) <= unsigned_of(&at(args, 1)),
        other => panic!("unexpected constraint {other:?}"),
    }
}

fn model_of(env: &BTreeMap<String, Bits>) -> Value {
    let mut model = serde_json::Map::new();
    for (name, bits) in env {
        let mut assigned = serde_json::Map::new();
        assigned.insert("kind".to_owned(), Value::from("bit_vec"));
        assigned.insert("width".to_owned(), Value::from(bits.len() as u64));
        assigned.insert("value".to_owned(), Value::from(unsigned_of(bits).to_string()));
        model.insert(name.clone(), Value::Object(assigned));
    }
    Value::Object(model)
}

/// An error derivation of a problem whose clauses take all variables from their
/// premise, for one of the given inputs.
fn explore_inputs(problem: &ChcProblem, width: usize, inputs: &[u128]) -> AcyclicDecision {
    for input in inputs {
        let mut facts: BTreeMap<(usize, Vec<Bits>), Vec<u64>> = BTreeMap::new();
        loop {
            let before = facts.len();
            for (index, clause) in problem.clauses.iter().enumerate() {
                let mut matched: Vec<(BTreeMap<String, Bits>, Vec<u64>)> = vec![];
                match clause.body.predicates.first() {
                    None => {
                        let env = BTreeMap::from([("x".to_owned(), bits_of(*input, width))]);
                        matched.push((env, vec![]));
                    }
                    Some(premise) => {
                        for ((predicate, args), trace) in &facts {
                            if *predicate == premise.predicate.index {
                                let named = premise.args.iter().map(|arg| match arg.as_ref() {
                                    ChcExpr::Var(own) => own.name.clone(),
                                    other => panic!("unexpected argument {other:?}"),
                                });
                                let env = named.zip(args.iter().cloned()).collect();
                                matched.push((env, trace.clone()));
                            }
                        }
                    }
                }
                for (env, mut trace) in matched {
                    let constraint = clause.body.constraint.as_ref();
                    if !constraint.map_or(true, |own| eval_constraint(own, &env)) {
                        continue;
                    }
                    trace.push(index as u64);
                    match &clause.head {
                        ClauseHead::False => {
                            return AcyclicDecision::Unsafe(AcyclicUnsafeWitness {
                                model: model_of(&BTreeMap::from([(
                                    "x".to_owned(),
                                    bits_of(*input, width),
                                )])),
                                derivation_clause_indices: trace,
                            });
                        }
                        ClauseHead::Predicate(head) => {
                            let args = head.args.iter().map(|arg| eval_bits(arg, &env)).collect();
                            facts.entry((head.predicate.index, args)).or_insert(trace);
                        }
                    }
                }
            }
            if facts.len() == before {
                break;
            }
        }
    }
    AcyclicDecision::Safe
}

fn bits_sort(width: u32) -> Sort {
    let own = BitVecWidth::new(width).expect("a width");
    Sort { kind: SortKind::BitVec(own), rendering: format!("(_ BitVec {width})") }
}

fn bits_var(name: &str, width: u32) -> Arc<Expr> {
    let value = ExprValue::Var { name: name.to_owned() };
    Arc::new(Expr { sort: bits_sort(width), value })
}

fn bits_number(number: u128, width: u32) -> Arc<Expr> {
    let value = ExprValue::BitVecConst { value: number.to_string(), width };
    Arc::new(Expr { sort: bits_sort(width), value })
}

fn bits_op(op: BinaryOp, left: Arc<Expr>, right: Arc<Expr>, width: u32) -> Arc<Expr> {
    Arc::new(Expr { sort: bits_sort(width), value: ExprValue::Binary(op, left, right) })
}

/// `t = 0; for i in 0..rounds { t += addend(x) }` on bit-vectors of a width, which
/// fails where the addition overflows.
fn loop_accumulator_obligation(
    width: u32,
    rounds: u128,
    overflow: OverflowCheck,
    addend: fn(u32) -> Arc<Expr>,
) -> MirChcPdrObligation {
    let x = || bits_var("x", width);
    let t = || bits_var("t", width);
    let i = || bits_var("i", 64);
    let header = || app("header", vec![x(), i(), t()]);
    let fits = || {
        let value = ExprValue::NoOverflow(overflow, t(), addend(width));
        Arc::new(Expr { sort: bool_sort(), value })
    };
    let overflows = Arc::new(Expr {
        sort: bool_sort(),
        value: ExprValue::Unary(UnaryOp::Not, fits()),
    });
    let goes_on = || relates(BinaryOp::BvULt, i(), bits_number(rounds, 64));
    let next = app(
        "header",
        vec![
            x(),
            bits_op(BinaryOp::BvAdd, i(), bits_number(1, 64), 64),
            bits_op(BinaryOp::BvAdd, t(), addend(width), width),
        ],
    );
    let start = app("header", vec![x(), bits_number(0, 64), bits_number(0, width)]);
    let header_sorts = vec![bits_sort(width), bits_sort(64), bits_sort(width)];
    let mut obligation = obligation_of(
        "bounded-unroll-fixture",
        vec![
            RelationDecl { name: "entry".to_owned(), arg_sorts: vec![bits_sort(width)] },
            RelationDecl { name: "header".to_owned(), arg_sorts: header_sorts },
            nullary_relation("error"),
        ],
        vec![
            rule(None, vec![], app("entry", vec![x()])),
            rule(Some(app("entry", vec![x()])), vec![], start),
            rule(Some(header()), vec![goes_on(), fits()], next),
            rule(Some(header()), vec![goes_on(), overflows], app("error", vec![])),
        ],
        "error",
    );
    obligation.native_metadata = Some(metadata(true, 0, &[]));
    obligation
}

fn collect_bitvec_model_values(model: &Value, width: u64, out: &mut Vec<u128>) {
    for assigned in model.as_object().expect("model object").values() {
        if assigned["kind"] == "bit_vec" && assigned["width"] == width {
            let value = assigned["value"].as_str().expect("numeral");
            out.push(value.parse().expect("numeral"));
        }
    }
}

fn unpack_bounded_unroll_refutation(
    verification: &TypedChcPdrFullVerification,
) -> (&ChcPdrRefutationWitness, u64, Value) {
    let witness = witness_of(verification);
    let ChcPdrCexVerification::BoundedUnrollDirectSmtModel { k } = witness.verification else {
        panic!("lane witness must carry the bounded-unroll kind: {:?}", witness.verification);
    };
    let counterexample: Value =
        serde_json::from_str(&witness.counterexample_json).expect("witness payload is JSON");
    assert_eq!(counterexample["source"], "direct-smt-bounded-unroll-error-derivation");
    assert_eq!(counterexample["unroll_k"], k);
    (witness, k, counterexample["witness_model"].clone())
}

/// The first round in which `t += x << 4` overflows, of 64.
fn u8_shift_reduction_overflow_iteration(x: u8) -> Option<usize> {
    let addend = x << 4;
    let mut t: u8 = 0;
    for iteration in 1..=64usize {
        match t.checked_add(addend) {
            Some(next) => t = next,
            None => return Some(iteration),
        }
    }
    None
}

/// The first round in which `t += x` overflows, of four.
fn i128_accumulator_overflow_iteration(x: i128) -> Option<usize> {
    let mut t: i128 = 0;
    for iteration in 1..=4usize {
        match t.checked_add(x) {
            Some(next) => t = next,
            None => return Some(iteration),
        }
    }
    None
}

#[test]
fn bounded_unroll_lane_refutes_u8_shift_reduction_overflow() {
    let shifted = |width| {
        bits_op(BinaryOp::BvShl, bits_var("x", width), bits_number(4, width), width)
    };
    let obligation = loop_accumulator_obligation(8, 64, OverflowCheck::UnsignedAdd, shifted);
    let inputs: Vec<u128> = (0..=255).collect();
    let words = wording();
    let solve = typed_solve(&obligation, &words);
    let own_search = |copy: &ChcProblem, _: u32| Some(explore_inputs(copy, 8, &inputs));
    let verification = try_bounded_unroll_refutation_lane_with_ladder(
        &solve,
        &BOUNDED_UNROLL_K_LADDER,
        &own_search,
        &sha256,
    )
    .expect("u8 shift-reduction overflow must refute inside the ladder");
    assert!(matches!(verification.verdict, FullVerificationVerdict::Failed { .. }));
    let (witness, k, model) = unpack_bounded_unroll_refutation(&verification);

    let own_check = |problem: &ChcProblem, found: &AcyclicUnsafeWitness| {
        match explore_inputs(problem, 8, &inputs) {
            AcyclicDecision::Unsafe(own) if own == *found => Ok(()),
            _ => Err("derivation or model does not replay".to_owned()),
        }
    };
    let replayed = independently_replay_typed_chc_pdr_refutation_witness(
        &obligation,
        ChcPdrEngine::Pdr,
        witness,
        &render,
        &canonicalize,
        &sha256,
        &decode,
        &own_check,
    )
    .expect("consumer must independently rebuild and replay the bounded unroll");
    assert!(replayed.contains(&format!("k={k}")), "{replayed}");

    let expected = normalized(&obligation);
    assert_eq!(witness.encoded_formula_sha256, expected.normalized_input_hash.value);
    assert!(witness.concreteness.is_exact_with_zero_counts());

    let mut candidates = Vec::new();
    collect_bitvec_model_values(&model, 8, &mut candidates);
    assert!(!candidates.is_empty(), "witness model carries u8 assignments: {model}");
    let earliest = candidates
        .iter()
        .filter_map(|&value| {
            u8::try_from(value).ok().and_then(u8_shift_reduction_overflow_iteration)
        })
        .min()
        .expect("an input of the witness model must really overflow");
    assert!(earliest <= usize::try_from(k).expect("budget fits") + 1);
}

#[test]
fn bounded_unroll_lane_refutes_i128_accumulator_overflow() {
    let plain_input = |width| bits_var("x", width);
    let obligation = loop_accumulator_obligation(128, 4, OverflowCheck::SignedAdd, plain_input);
    let inputs = [0, 1, u128::MAX, i128::MAX as u128, i128::MIN as u128];
    let words = wording();
    let solve = typed_solve(&obligation, &words);
    let own_search = |copy: &ChcProblem, _: u32| Some(explore_inputs(copy, 128, &inputs));
    let verification = try_bounded_unroll_refutation_lane_with_ladder(
        &solve,
        &BOUNDED_UNROLL_K_LADDER,
        &own_search,
        &sha256,
    )
    .expect("i128 accumulator overflow must refute inside the ladder");
    let (witness, k, model) = unpack_bounded_unroll_refutation(&verification);

    let expected = normalized(&obligation);
    assert_eq!(witness.encoded_formula_sha256, expected.normalized_input_hash.value);
    assert!(witness.concreteness.is_exact_with_zero_counts());

    let mut candidates = Vec::new();
    collect_bitvec_model_values(&model, 128, &mut candidates);
    assert!(!candidates.is_empty(), "witness model carries i128 assignments: {model}");
    let earliest = candidates
        .iter()
        .filter_map(|&value| i128_accumulator_overflow_iteration(value as i128))
        .min()
        .expect("an input of the witness model must really overflow");
    assert!(earliest <= usize::try_from(k).expect("budget fits") + 1);
}

#[test]
fn independent_bounded_unroll_refutation_replay_rejects_mutations() {
    let obligation = accumulator_obligation(16, 300, 239);
    let verification = run_lane(&obligation, &BOUNDED_UNROLL_K_LADDER).expect("refutes");
    let original = witness_of(&verification);
    let rejects = |label: &str, mutated: &ChcPdrRefutationWitness| {
        assert!(replay(&obligation, ChcPdrEngine::Pdr, mutated).is_err(), "{label}");
    };

    let mut mutated = original.duplicate();
    mutated.verification = ChcPdrCexVerification::DirectSmtModel;
    rejects("proof class", &mutated);

    let mut mutated = original.duplicate();
    mutated.verification = ChcPdrCexVerification::BoundedUnrollDirectSmtModel { k: 2 };
    mutate_payload(&mut mutated, &|payload| payload["unroll_k"] = Value::from(2));
    rejects("out-of-ladder budget", &mutated);

    let mut mutated = original.duplicate();
    mutated.verification =
        ChcPdrCexVerification::BoundedUnrollDirectSmtModel { k: (1u64 << 32) + 4 };
    rejects("unrepresentable budget", &mutated);

    let mut mutated = original.duplicate();
    mutate_payload(&mut mutated, &|payload| payload["unroll_k"] = Value::from(4));
    rejects("payload budget", &mutated);

    let mut mutated = original.duplicate();
    mutate_payload(&mut mutated, &repeat_first_step);
    rejects("transition trace", &mutated);

    let mut mutated = original.duplicate();
    mutate_payload(&mut mutated, &|payload| {
        payload["witness_model"].as_object_mut().expect("model object").remove("last");
    });
    rejects("partial model", &mutated);

    let mut other = accumulator_obligation(16, 300, 239);
    other.kind = MirObligationKind::Other;
    assert!(replay(&other, ChcPdrEngine::Pdr, original).is_err());
}

#[test]
fn bounded_unroll_lane_never_refutes_a_safe_loop() {
    let obligation = accumulator_obligation(1, 10, 255);
    assert!(run_lane(&obligation, &BOUNDED_UNROLL_K_LADDER).is_none());
}

#[test]
fn bounded_unroll_lane_stays_unknown_beyond_its_budget() {
    // Additions of 64 exceed 191 after three back edges.
    let obligation = accumulator_obligation(64, 300, 191);
    assert!(run_lane(&obligation, &[2]).is_none());
    let verification = run_lane(&obligation, &[4]).expect("refutes once the ladder covers it");
    assert_eq!(
        witness_of(&verification).verification,
        ChcPdrCexVerification::BoundedUnrollDirectSmtModel { k: 4 }
    );
    assert_eq!(BOUNDED_UNROLL_K_LADDER.last(), Some(&64));
}

#[test]
fn bounded_unroll_lane_declines_non_assertion_kinds() {
    let mut obligation = accumulator_obligation(16, 300, 239);
    obligation.kind = MirObligationKind::Other;
    assert!(run_lane(&obligation, &BOUNDED_UNROLL_K_LADDER).is_none());
}

#[test]
fn bounded_unroll_lane_declines_fail_closed_lowering_sites() {
    let mut obligation = accumulator_obligation(16, 300, 239);
    obligation.native_metadata = Some(metadata(true, 1, &[]));
    assert!(run_lane(&obligation, &BOUNDED_UNROLL_K_LADDER).is_none());
}

#[test]
fn demotion_reason_names_the_distinct_blocking_constructs() {
    let message = fail_closed_lowering_demotion_reason(
        3,
        &[String::from("Cast"), String::from("HeapAllocation"), String::from("IndirectCall")],
    );
    assert!(
        message.contains("3 unsupported trust_ir construct(s)"),
        "the count must survive verbatim: {message}"
    );
    assert!(
        message.contains("(constructs: Cast, HeapAllocation, IndirectCall)"),
        "the distinct reasons must be named: {message}"
    );
}

#[test]
fn demotion_reason_without_reasons_is_byte_identical_to_the_historical_text() {
    let historical = "fail-closed lowering reachable: 2 unsupported trust_ir construct(s) \
                      lowered to unconditional error rules; refutation demoted to unknown";
    assert_eq!(fail_closed_lowering_demotion_reason(2, &[]), historical);

    let mut obligation = typed_native_chc_obligation(false);
    obligation.native_metadata = None;
    assert!(fail_closed_lowering_reasons(&obligation).is_empty());
    assert_eq!(fail_closed_lowering_sites(&obligation), 0);
}

#[test]
fn reason_labels_alone_never_demote_and_never_alter_the_gate() {
    let mut obligation = accumulator_obligation(16, 300, 239);
    obligation.native_metadata =
        Some(metadata(true, 0, &["Cast", "IndirectCall", "HeapAllocation"]));
    assert_eq!(fail_closed_lowering_sites(&obligation), 0);
    assert_eq!(fail_closed_lowering_reasons(&obligation).len(), 3);
    assert!(run_lane(&obligation, &BOUNDED_UNROLL_K_LADDER).is_some());

    obligation.native_metadata = Some(metadata(true, 1, &[]));
    assert!(run_lane(&obligation, &BOUNDED_UNROLL_K_LADDER).is_none());

    obligation.native_metadata = Some(metadata(true, 1, &["Switch"]));
    assert!(run_lane(&obligation, &BOUNDED_UNROLL_K_LADDER).is_none());
    assert!(fail_closed_lowering_demotion_reason(
        fail_closed_lowering_sites(&obligation),
        &fail_closed_lowering_reasons(&obligation),
    )
    .contains("(constructs: Switch)"));
}

#[test]
fn bounded_unroll_lane_declines_without_completeness_marker() {
    let mut obligation = accumulator_obligation(16, 300, 239);
    obligation.native_metadata = None;
    assert!(run_lane(&obligation, &BOUNDED_UNROLL_K_LADDER).is_none());
    obligation.native_metadata = Some(metadata(false, 0, &[]));
    assert!(run_lane(&obligation, &BOUNDED_UNROLL_K_LADDER).is_none());
}

#[test]
fn native_bundle_delivers_witnessed_loop_refutation_on_refuted_channel() {
    let translate = |_: &NativeVerificationBundle, _: &TranslateOptions| -> Translated {
        Ok(vec![request(accumulator_obligation(16, 300, 239))])
    };
    let evidence = bundle_runner()
        .solve_bundle_native_proof_grade(&admitted_bundle(), false, &translate, &backend())
        .expect("bundle solve completes");
    assert!(evidence.obligations.is_empty());
    assert!(evidence.not_proved.is_empty());
    assert_eq!(evidence.refuted.len(), 1);
    let row = &evidence.refuted[0];
    let witness = witness_of(&row.verification);
    let expected = normalized(&row.translated.obligation);
    assert_eq!(witness.encoded_formula_sha256, expected.normalized_input_hash.value);
    assert!(witness.concreteness.is_exact_with_zero_counts());
    assert!(matches!(
        witness.verification,
        ChcPdrCexVerification::BoundedUnrollDirectSmtModel { .. }
    ));
    assert!(!authorized(&row.verification));
}

#[test]
fn profiles_of_entry_points_differ_in_authority_alone() {
    let borrow = InstructionNode { annotations: vec![], instruction: Instruction::Borrow };
    let bundle = bundle_with(vec![borrow]);
    let runner = bundle_runner();
    for admit_borrows in [false, true] {
        let answer =
            runner.solve_bundle_native_proof_grade(&bundle, admit_borrows, &translate_safe, &backend());
        assert_eq!(answer.is_ok(), admit_borrows);
    }
    let profile = AdmissionProfile { source_generation_authorized: true, admit_borrows: false };
    assert!(trust_mc_native::admission::validate_native_bundle_proof_authority_input(
        &bundle, profile
    )
    .is_err());
    assert_eq!(runner.solve_options(), &pdr_options());
    assert!(runner.translate_options().check_memory_bounds);
}
