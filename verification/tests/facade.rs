use std::time::Duration;

use serde_json::Value;
use trust_mc_native::error::{
    FullVerificationProblemKind, NativeOperation, NativeSolveError, NativeSolveUnsupported,
    ProofEvidenceRejection,
};
use trust_mc_native::facade::{
    classify_solver_output, conclude_execution, interpret_bmc_execution, interpret_solver_outputs,
    proof_mode_from_payload, solve_native, validate_solve_request, ExecutorEnd,
    NativeBmcExecution, NativeEncodedArtifact, NativeProofMode, NativeProofProvenance,
    NativeSolveRequest, NativeSolverVerdict, NativeVcKind, SmtLibBmcPayload, SmtLibBmcProvenance,
};

fn smtlib_bmc_payload(
    obligation_id: &str,
    function_name: &str,
    script: &str,
    provenance: &NativeProofProvenance,
) -> Vec<u8> {
    let mode = match provenance.proof_mode {
        NativeProofMode::Bmc => "bmc",
        NativeProofMode::FiniteAcyclicBmc => "finite_acyclic_bmc",
        NativeProofMode::Chc => "chc",
        NativeProofMode::PdrIc3 => "pdr_ic3",
    };
    let mut origin = serde_json::Map::new();
    origin.insert("proof_mode".to_owned(), Value::from(mode));
    origin.insert("bmc_depth".to_owned(), Value::from(provenance.bmc_depth));
    origin.insert("finite_acyclic".to_owned(), Value::from(provenance.finite_acyclic));
    origin.insert("producer".to_owned(), Value::from(provenance.producer.clone()));
    let mut envelope = serde_json::Map::new();
    envelope.insert("format".to_owned(), Value::from("trust_mc.native.smtlib-bmc"));
    envelope.insert("version".to_owned(), Value::from(1));
    envelope.insert("kind".to_owned(), Value::from("bmc"));
    envelope.insert("obligation_id".to_owned(), Value::from(obligation_id));
    envelope.insert("function_name".to_owned(), Value::from(function_name));
    envelope.insert("script".to_owned(), Value::from(script));
    envelope.insert("provenance".to_owned(), Value::Object(origin));
    serde_json::to_vec(&Value::Object(envelope)).expect("test payload serialization")
}

fn parse_envelope(content: &String) -> Result<SmtLibBmcPayload, String> {
    let value: Value = serde_json::from_str(content).map_err(|fault| fault.to_string())?;
    let text = |value: &Value, field: &str| {
        value[field].as_str().map(str::to_owned).ok_or_else(|| format!("missing {field}"))
    };
    let origin = &value["provenance"];
    Ok(SmtLibBmcPayload {
        format: text(&value, "format")?,
        version: value["version"].as_u64().ok_or("missing version")? as u32,
        kind: text(&value, "kind")?,
        obligation_id: text(&value, "obligation_id")?,
        function_name: text(&value, "function_name")?,
        script: text(&value, "script")?,
        provenance: SmtLibBmcProvenance {
            proof_mode: text(origin, "proof_mode")?,
            bmc_depth: origin["bmc_depth"].as_u64().map(|depth| depth as u32),
            finite_acyclic: origin["finite_acyclic"].as_bool().unwrap_or(false),
            producer: text(origin, "producer")?,
        },
    })
}

fn asks_for_check(script: &String) -> Result<bool, String> {
    if script.matches('(').count() != script.matches(')').count() {
        return Err("unbalanced parentheses".to_owned());
    }
    Ok(script.contains("(check-sat)"))
}

/// Answers for a script that asserts a constant.
fn run_script(script: &String, _limit: Option<Duration>) -> ExecutorEnd {
    if script.contains("(assert false)") {
        ExecutorEnd::Finished(vec!["unsat".to_owned()])
    } else {
        ExecutorEnd::Finished(vec!["sat".to_owned()])
    }
}

fn artifact(
    payload: Vec<u8>,
    kind: NativeVcKind,
    provenance: NativeProofProvenance,
) -> NativeEncodedArtifact {
    NativeEncodedArtifact::new(
        "obligation-1".to_owned(),
        "crate::harness".to_owned(),
        kind,
        payload,
        provenance,
    )
}

fn artifact_with_script(script: &str, provenance: NativeProofProvenance) -> NativeEncodedArtifact {
    artifact(
        smtlib_bmc_payload("obligation-1", "crate::harness", script, &provenance),
        NativeVcKind::Bmc,
        provenance,
    )
}

fn sample_artifact(provenance: NativeProofProvenance) -> NativeEncodedArtifact {
    artifact_with_script("(set-logic QF_LIA)\n(assert false)\n(check-sat)\n", provenance)
}

fn refused_field(request: NativeSolveRequest) -> String {
    match solve_native(request, &parse_envelope, &asks_for_check, &run_script) {
        Err(NativeSolveError::InvalidInput { field, detail }) => format!("{field}: {detail}"),
        other => panic!("expected a refusal, got {other:?}"),
    }
}

#[test]
fn finite_acyclic_bmc_provenance_is_explicit() {
    let provenance = NativeProofProvenance::finite_acyclic_bmc(5);

    assert_eq!(provenance.proof_mode, NativeProofMode::FiniteAcyclicBmc);
    assert_eq!(provenance.bmc_depth, Some(5));
    assert!(provenance.finite_acyclic);
    assert!(provenance.proof_mode.is_finite_acyclic_bmc());
    assert!(!provenance.proof_mode.is_bounded());
}

#[test]
fn solve_native_keeps_chc_payloads_unsupported_after_validation() {
    let chc = artifact(
        b"opaque-chc".to_vec(),
        NativeVcKind::Chc,
        NativeProofProvenance::unbounded(NativeProofMode::Chc),
    );
    let request = NativeSolveRequest::new(chc);
    let err = solve_native(request, &parse_envelope, &asks_for_check, &run_script)
        .expect_err("CHC payload should fail closed for now");

    match err {
        NativeSolveError::Unsupported(unsupported) => {
            assert_eq!(unsupported.operation, NativeOperation::Solve);
            assert_eq!(unsupported.reason, "chc_native_payload_not_supported");
        }
        other => panic!("request should validate: {other:?}"),
    }
}

#[test]
fn solve_native_smtlib_bmc_unsat_is_proved() {
    let provenance = NativeProofProvenance {
        proof_mode: NativeProofMode::Bmc,
        bmc_depth: Some(3),
        finite_acyclic: false,
        producer: "trust-mc-compiler-native".to_owned(),
    };
    let request = NativeSolveRequest::new(sample_artifact(provenance.clone()));
    let solved = solve_native(request, &parse_envelope, &asks_for_check, &run_script)
        .expect("SMT-LIB BMC should solve natively");

    assert_eq!(solved.obligation_id, "obligation-1");
    assert_eq!(solved.verdict, NativeSolverVerdict::Proved);
    assert_eq!(solved.provenance, provenance);
    assert_eq!(solved.proof_certificate, None);
}

#[test]
fn solve_native_smtlib_bmc_sat_is_failed() {
    let provenance = NativeProofProvenance::bmc(2);
    let script = "(set-logic QF_LIA)\n(assert true)\n(check-sat)\n";
    let request = NativeSolveRequest::new(artifact_with_script(script, provenance));
    let solved = solve_native(request, &parse_envelope, &asks_for_check, &run_script)
        .expect("satisfiable SMT-LIB BMC should solve natively");

    assert_eq!(solved.verdict, NativeSolverVerdict::Failed);
}

#[test]
fn solve_native_rejects_payload_provenance_mismatch() {
    let payload = smtlib_bmc_payload(
        "obligation-1",
        "crate::harness",
        "(set-logic QF_LIA)\n(assert false)\n(check-sat)\n",
        &NativeProofProvenance::bmc(4),
    );
    let mismatched = artifact(payload, NativeVcKind::Bmc, NativeProofProvenance::bmc(3));
    let refused = refused_field(NativeSolveRequest::new(mismatched));
    assert!(refused.starts_with("artifact.payload.provenance.bmc_depth: "), "{refused}");
}

#[test]
fn solve_native_rejects_proof_certificate_request_for_bmc() {
    let request = NativeSolveRequest::new(sample_artifact(NativeProofProvenance::bmc(3)))
        .with_proof_certificate(true);
    let err = solve_native(request, &parse_envelope, &asks_for_check, &run_script)
        .expect_err("proof certificates are not implemented yet");

    assert!(
        matches!(err, NativeSolveError::Unsupported(unsupported) if unsupported.reason == "proof_certificate_not_supported")
    );
}

#[test]
fn solve_native_rejects_empty_payload() {
    let empty = artifact(Vec::new(), NativeVcKind::Bmc, NativeProofProvenance::bmc(3));
    let refused = refused_field(NativeSolveRequest::new(empty));
    assert_eq!(refused, "artifact.payload: must not be empty");
}

#[test]
fn a_payload_must_be_text_and_an_envelope() {
    let provenance = NativeProofProvenance::bmc(3);
    let bytes = artifact(vec![0x7b, 0xff], NativeVcKind::Bmc, provenance.clone());
    assert_eq!(
        refused_field(NativeSolveRequest::new(bytes)),
        "artifact.payload: payload is not valid UTF-8 JSON: invalid utf-8 sequence of 1 bytes from index 1"
    );
    let other = artifact(b"{}".to_vec(), NativeVcKind::Bmc, provenance);
    assert_eq!(
        refused_field(NativeSolveRequest::new(other)),
        "artifact.payload: payload is not a native SMT-LIB BMC envelope: missing format"
    );
}

#[test]
fn a_script_must_parse_and_ask_for_a_check() {
    let provenance = NativeProofProvenance::bmc(3);
    let open = artifact_with_script("(assert false", provenance.clone());
    assert_eq!(
        refused_field(NativeSolveRequest::new(open)),
        "artifact.payload.script: SMT-LIB parse error: unbalanced parentheses"
    );
    let silent = artifact_with_script("(assert false)", provenance.clone());
    assert_eq!(
        refused_field(NativeSolveRequest::new(silent)),
        "artifact.payload.script: must contain a check-sat command"
    );
    let empty = artifact_with_script(" \n\t", provenance);
    assert_eq!(
        refused_field(NativeSolveRequest::new(empty)),
        "artifact.payload.script: must not be empty"
    );
}

#[test]
fn ends_of_the_executor_are_concluded() {
    assert_eq!(
        conclude_execution(ExecutorEnd::Disconnected),
        Ok(NativeBmcExecution::Completed(vec!["unknown".to_owned()]))
    );
    assert_eq!(conclude_execution(ExecutorEnd::TimedOut), Ok(NativeBmcExecution::TimedOut));
    assert_eq!(
        conclude_execution(ExecutorEnd::Panicked("boom".to_owned())),
        Ok(NativeBmcExecution::Completed(vec![
            "unknown\n; native AY executor panic: boom".to_owned()
        ]))
    );
    assert_eq!(
        conclude_execution(ExecutorEnd::Failed("bad sort".to_owned())),
        Err(NativeSolveError::InvalidInput {
            field: "artifact.payload.script".to_owned(),
            detail: "native AY executor error: bad sort".to_owned(),
        })
    );
}

#[test]
fn a_panicking_or_late_executor_decides_nothing() {
    let request = || NativeSolveRequest::new(sample_artifact(NativeProofProvenance::bmc(1)));
    let panics =
        |_: &String, _: Option<Duration>| ExecutorEnd::Panicked("index out of range".to_owned());
    let solved = solve_native(request(), &parse_envelope, &asks_for_check, &panics)
        .expect("a panic is no error");
    assert_eq!(
        solved.verdict,
        NativeSolverVerdict::Unknown { reason: "native AY executor returned unknown".to_owned() }
    );
    let late = |_: &String, limit: Option<Duration>| {
        assert_eq!(limit, Some(Duration::from_secs(9)));
        ExecutorEnd::TimedOut
    };
    let limited = request().with_timeout(Duration::from_secs(9));
    let solved = solve_native(limited, &parse_envelope, &asks_for_check, &late)
        .expect("a timeout is no error");
    assert_eq!(solved.verdict, NativeSolverVerdict::Timeout);
    assert_eq!(solved.diagnostics, vec!["native AY executor timed out".to_owned()]);
}

#[test]
fn requests_are_checked_as_they_stand() {
    let mut request = NativeSolveRequest::new(sample_artifact(NativeProofProvenance::bmc(1)));
    assert_eq!(validate_solve_request(&request), Ok(()));
    request.artifact.provenance.bmc_depth = None;
    assert!(validate_solve_request(&request).is_err());
    request.artifact.provenance.proof_mode = NativeProofMode::PdrIc3;
    assert_eq!(validate_solve_request(&request), Ok(()));
    assert!(refused_field(request.clone()).starts_with("artifact.provenance.proof_mode: "));
    request.artifact.function_name = "\u{2003} ".to_owned();
    assert!(refused_field(request.clone()).starts_with("artifact.function_name: "));
    request.artifact.obligation_id = String::new();
    assert!(refused_field(request).starts_with("artifact.obligation_id: "));
}

#[test]
fn every_field_of_an_envelope_is_compared() {
    let request = |change: &dyn Fn(&mut SmtLibBmcPayload)| {
        let artifact = sample_artifact(NativeProofProvenance::finite_acyclic_bmc(3));
        let parse = |content: &String| {
            let mut payload = parse_envelope(content)?;
            change(&mut payload);
            Ok(payload)
        };
        match solve_native(NativeSolveRequest::new(artifact), &parse, &asks_for_check, &run_script)
        {
            Err(NativeSolveError::InvalidInput { field, .. }) => field,
            other => panic!("expected a refusal, got {other:?}"),
        }
    };
    assert_eq!(request(&|p| p.format.push('x')), "artifact.payload.format");
    assert_eq!(request(&|p| p.version = 2), "artifact.payload.version");
    assert_eq!(request(&|p| p.kind = "chc".to_owned()), "artifact.payload.kind");
    assert_eq!(request(&|p| p.obligation_id.push('x')), "artifact.payload.obligation_id");
    assert_eq!(request(&|p| p.function_name.push('x')), "artifact.payload.function_name");
    assert_eq!(
        request(&|p| p.provenance.proof_mode = "ic3".to_owned()),
        "artifact.payload.provenance.proof_mode"
    );
    assert_eq!(
        request(&|p| p.provenance.proof_mode = "bmc".to_owned()),
        "artifact.payload.provenance.proof_mode"
    );
    assert_eq!(
        request(&|p| p.provenance.finite_acyclic = false),
        "artifact.payload.provenance.finite_acyclic"
    );
    assert_eq!(
        request(&|p| p.provenance.producer.push('x')),
        "artifact.payload.provenance.producer"
    );
}

#[test]
fn solver_outputs_are_classified_by_their_first_line() {
    assert_eq!(classify_solver_output(" unsat \n(model)"), Some(NativeSolverVerdict::Proved));
    assert_eq!(classify_solver_output("sat"), Some(NativeSolverVerdict::Failed));
    assert_eq!(classify_solver_output("success"), None);
    let outputs = |lines: &[&str]| lines.iter().map(|line| line.to_string()).collect();
    let (verdict, rest) = interpret_solver_outputs(outputs(&["sat", "note", "unsat"]));
    assert_eq!(verdict, NativeSolverVerdict::Proved);
    assert_eq!(rest, vec!["note".to_owned()]);
    let (verdict, _) = interpret_bmc_execution(NativeBmcExecution::Completed(outputs(&["note"])));
    assert_eq!(
        verdict,
        NativeSolverVerdict::Unknown {
            reason: "native AY executor emitted no check-sat result".to_owned()
        }
    );
}

#[test]
fn proof_modes_are_named() {
    assert_eq!(proof_mode_from_payload("pdr_ic3"), Ok(NativeProofMode::PdrIc3));
    assert!(proof_mode_from_payload("PDR").is_err());
    assert!(NativeProofMode::Bmc.is_bounded());
}

#[test]
fn blank_texts_are_those_of_white_space() {
    for code in 0..0x11_0000u32 {
        if let Some(c) = char::from_u32(code) {
            let mut request =
                NativeSolveRequest::new(sample_artifact(NativeProofProvenance::bmc(1)));
            request.artifact.payload = vec![1];
            request.artifact.function_name = c.to_string();
            assert_eq!(validate_solve_request(&request).is_err(), c.is_whitespace(), "{code:#x}");
        }
        if code == 0x3100 {
            break;
        }
    }
}

#[test]
fn errors_have_messages() {
    let invalid = NativeSolveError::InvalidInput {
        field: "artifact.payload".to_owned(),
        detail: "must not be empty".to_owned(),
    };
    assert_eq!(
        invalid.message(""),
        "invalid native solve input `artifact.payload`: must not be empty"
    );
    let unsupported = NativeSolveError::Unsupported(NativeSolveUnsupported {
        operation: NativeOperation::Solve,
        reason: "why".to_owned(),
        detail: "more".to_owned(),
    });
    assert_eq!(unsupported.message(""), "native solve is unsupported: why (more)");
    let failed = NativeSolveError::SolverFailed { reason: "crash".to_owned() };
    assert_eq!(failed.message(""), "native solver failed: crash");
    let rejected = NativeSolveError::ProofGradeRejected {
        rejection: ProofEvidenceRejection {
            problem_kind: Some(FullVerificationProblemKind::ChcPdr),
            reasons: vec!["no".to_owned()],
        },
    };
    assert_eq!(rejected.message("no"), "native proof-grade evidence rejected: no");
}
