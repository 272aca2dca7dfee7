//! Solving of encoded verification artifacts.
use std::time::Duration;

use vstd::prelude::*;
use vstd::string::*;

use crate::error;
use crate::error::{invalid_input, unsupported, ErrorModel, NativeSolveError, NativeSolveResult};
use crate::text;
use crate::text::{
    assemble, blank, concat2, decode_utf8, same_text, trimmed_first_line,
};

verus! {

/// Version of the payload envelope that is understood.
pub const SMTLIB_BMC_PAYLOAD_VERSION: u32 = 1;

/// Kind of encoded verification condition.
#[derive(Debug, Clone, Copy, PartialEq, Eq, Structural)]
pub enum NativeVcKind {
    /// Bounded model checking artifact.
    Bmc,
    /// Constrained Horn clause artifact.
    Chc,
}

/// Proof mode recorded in solver provenance.
#[derive(Debug, Clone, Copy, PartialEq, Eq, Structural)]
pub enum NativeProofMode {
    /// Ordinary bounded model checking.
    Bmc,
    /// Bounded model checking of a finite acyclic transition system, complete
    /// only where the producer proved that the explored state graph is one.
    FiniteAcyclicBmc,
    /// Constrained Horn clause solving.
    Chc,
    /// Property-directed reachability.
    PdrIc3,
}

impl Default for NativeProofMode {
    fn default() -> (mode: NativeProofMode)
        ensures
            mode == NativeProofMode::Bmc,
    {
        NativeProofMode::Bmc
    }
}

impl NativeProofMode {
    /// Whether this mode is ordinary depth-bounded evidence.
    pub fn is_bounded(self) -> (bounded: bool)
        ensures
            bounded == (self == NativeProofMode::Bmc),
    {
        matches!(self, NativeProofMode::Bmc)
    }

    /// Whether bounded checking is complete because the state graph is finite
    /// and acyclic.
    pub fn is_finite_acyclic_bmc(self) -> (complete: bool)
        ensures
            complete == (self == NativeProofMode::FiniteAcyclicBmc),
    {
        matches!(self, NativeProofMode::FiniteAcyclicBmc)
    }
}

/// Provenance carried from encoding through solving.
#[derive(Debug, Clone, PartialEq, Eq)]
pub struct NativeProofProvenance {
    /// Proof mode used or requested.
    pub proof_mode: NativeProofMode,
    /// Depth of bounded and finite acyclic checking.
    pub bmc_depth: Option<u32>,
    /// Whether a producer proved that the transition system is finite and acyclic.
    pub finite_acyclic: bool,
    /// Name of the component that produced or solved the artifact.
    pub producer: String,
}

/// Mathematical content of a [`NativeProofProvenance`].
pub struct ProvenanceModel {
    pub proof_mode: NativeProofMode,
    pub bmc_depth: Option<u32>,
    pub finite_acyclic: bool,
    pub producer: Seq<char>,
}

impl View for NativeProofProvenance {
    type V = ProvenanceModel;

    open spec fn view(&self) -> ProvenanceModel {
        ProvenanceModel {
            proof_mode: self.proof_mode,
            bmc_depth: self.bmc_depth,
            finite_acyclic: self.finite_acyclic,
            producer: self.producer@,
        }
    }
}

impl NativeProofProvenance {
    /// Provenance of an ordinary bounded solve.
    pub fn bmc(depth: u32) -> (provenance: NativeProofProvenance)
        ensures
            provenance@ == (ProvenanceModel {
                proof_mode: NativeProofMode::Bmc,
                bmc_depth: Some(depth),
                finite_acyclic: false,
                producer: "trust-mc-driver-native"@,
            }),
    {
        NativeProofProvenance {
            proof_mode: NativeProofMode::Bmc,
            bmc_depth: Some(depth),
            finite_acyclic: false,
            producer: "trust-mc-driver-native".to_owned(),
        }
    }

    /// Provenance of an exhaustive solve of a finite acyclic system.
    pub fn finite_acyclic_bmc(depth: u32) -> (provenance: NativeProofProvenance)
        ensures
            provenance@ == (ProvenanceModel {
                proof_mode: NativeProofMode::FiniteAcyclicBmc,
                bmc_depth: Some(depth),
                finite_acyclic: true,
                producer: "trust-mc-driver-native"@,
            }),
    {
        NativeProofProvenance {
            proof_mode: NativeProofMode::FiniteAcyclicBmc,
            bmc_depth: Some(depth),
            finite_acyclic: true,
            producer: "trust-mc-driver-native".to_owned(),
        }
    }

    /// Provenance of an unbounded solve.
    pub fn unbounded(proof_mode: NativeProofMode) -> (provenance: NativeProofProvenance)
        ensures
            provenance@ == (ProvenanceModel {
                proof_mode,
                bmc_depth: None,
                finite_acyclic: false,
                producer: "trust-mc-driver-native"@,
            }),
    {
        NativeProofProvenance {
            proof_mode,
            bmc_depth: None,
            finite_acyclic: false,
            producer: "trust-mc-driver-native".to_owned(),
        }
    }
}

/// Encoded artifact accepted by the driver.
#[derive(Debug, Clone, PartialEq, Eq)]
pub struct NativeEncodedArtifact {
    /// Stable identifier of the obligation being solved.
    pub obligation_id: String,
    /// Display name of the function or harness.
    pub function_name: String,
    /// Artifact kind.
    pub kind: NativeVcKind,
    /// Opaque artifact payload.
    pub payload: Vec<u8>,
    /// Encoding provenance.
    pub provenance: NativeProofProvenance,
}

impl NativeEncodedArtifact {
    /// An artifact of the given parts.
    pub fn new(
        obligation_id: String,
        function_name: String,
        kind: NativeVcKind,
        payload: Vec<u8>,
        provenance: NativeProofProvenance,
    ) -> (artifact: NativeEncodedArtifact)
        ensures
            artifact == (NativeEncodedArtifact {
                obligation_id,
                function_name,
                kind,
                payload,
                provenance,
            }),
    {
        NativeEncodedArtifact { obligation_id, function_name, kind, payload, provenance }
    }
}

/// Request to solve one artifact.
#[derive(Debug, Clone, PartialEq, Eq)]
pub struct NativeSolveRequest {
    /// Artifact to solve.
    pub artifact: NativeEncodedArtifact,
    /// Wall-clock limit of the solve.
    pub timeout: Option<Duration>,
    /// Whether a proof certificate should be produced.
    pub produce_proof_certificate: bool,
}

impl NativeSolveRequest {
    /// A request without a limit or a certificate.
    pub fn new(artifact: NativeEncodedArtifact) -> (request: NativeSolveRequest)
        ensures
            request == (NativeSolveRequest {
                artifact,
                timeout: None,
                produce_proof_certificate: false,
            }),
    {
        NativeSolveRequest { artifact, timeout: None, produce_proof_certificate: false }
    }

    /// The request with a wall-clock limit.
    pub fn with_timeout(self, timeout: Duration) -> (request: NativeSolveRequest)
        ensures
            request == (NativeSolveRequest { timeout: Some(timeout), ..self }),
    {
        NativeSolveRequest { timeout: Some(timeout), ..self }
    }

    /// The request with or without proof-certificate production.
    pub fn with_proof_certificate(self, produce: bool) -> (request: NativeSolveRequest)
        ensures
            request == (NativeSolveRequest { produce_proof_certificate: produce, ..self }),
    {
        NativeSolveRequest { produce_proof_certificate: produce, ..self }
    }
}

/// Solver verdict.
#[derive(Debug, Clone, PartialEq, Eq)]
pub enum NativeSolverVerdict {
    /// The property was proved.
    Proved,
    /// The property was refuted.
    Failed,
    /// The solver could not conclude.
    Unknown { reason: String },
    /// The solve exceeded its limit.
    Timeout,
}

/// Mathematical content of a [`NativeSolverVerdict`].
pub enum VerdictModel {
    Proved,
    Failed,
    Unknown(Seq<char>),
    Timeout,
}

impl View for NativeSolverVerdict {
    type V = VerdictModel;

    open spec fn view(&self) -> VerdictModel {
        match self {
            NativeSolverVerdict::Proved => VerdictModel::Proved,
            NativeSolverVerdict::Failed => VerdictModel::Failed,
            NativeSolverVerdict::Unknown { reason } => VerdictModel::Unknown(reason@),
            NativeSolverVerdict::Timeout => VerdictModel::Timeout,
        }
    }
}

/// Response to a solve request.
#[derive(Debug, Clone, PartialEq, Eq)]
pub struct NativeSolvedArtifact {
    /// Obligation identifier of the request.
    pub obligation_id: String,
    /// Solver verdict.
    pub verdict: NativeSolverVerdict,
    /// Final proof provenance.
    pub provenance: NativeProofProvenance,
    /// Proof certificate bytes.
    pub proof_certificate: Option<Vec<u8>>,
    /// Messages captured during solving.
    pub diagnostics: Vec<String>,
}

/// Envelope decoded from an artifact payload.
#[derive(Debug, Clone, PartialEq, Eq)]
pub struct SmtLibBmcPayload {
    pub format: String,
    pub version: u32,
    pub kind: String,
    pub obligation_id: String,
    pub function_name: String,
    pub script: String,
    pub provenance: SmtLibBmcProvenance,
}

/// Provenance recorded in a payload envelope.
#[derive(Debug, Clone, PartialEq, Eq)]
pub struct SmtLibBmcProvenance {
    pub proof_mode: String,
    pub bmc_depth: Option<u32>,
    pub finite_acyclic: bool,
    pub producer: String,
}

/// What running a script gave.
#[derive(Debug, Clone, PartialEq, Eq)]
pub enum NativeBmcExecution {
    /// The solver's outputs, one per command.
    Completed(Vec<String>),
    /// The limit passed first.
    TimedOut,
}

/// Whether a proof mode is a bounded-checking mode.
pub open spec fn is_bmc_mode(mode: NativeProofMode) -> bool {
    mode == NativeProofMode::Bmc || mode == NativeProofMode::FiniteAcyclicBmc
}

/// Why a request is refused as it stands, if it is.
pub open spec fn request_fault(request: NativeSolveRequest) -> Option<ErrorModel> {
    let artifact = request.artifact;
    if text::is_blank(artifact.obligation_id@) {
        Some(error::invalid_model("artifact.obligation_id"@, "must not be empty"@))
    } else if text::is_blank(artifact.function_name@) {
        Some(error::invalid_model("artifact.function_name"@, "must not be empty"@))
    } else if artifact.payload@.len() == 0 {
        Some(error::invalid_model("artifact.payload"@, "must not be empty"@))
    } else if is_bmc_mode(artifact.provenance.proof_mode) && artifact.provenance.bmc_depth is None {
        Some(
            error::invalid_model(
                "artifact.provenance.bmc_depth"@,
                "must be set for BMC proof modes"@,
            ),
        )
    } else {
        None
    }
}

/// Checks a request as it stands.
pub fn validate_solve_request(request: &NativeSolveRequest) -> (checked: NativeSolveResult<()>)
    ensures
        error::failure(checked) == request_fault(*request),
{
    let artifact = &request.artifact;
    if blank(artifact.obligation_id.as_str()) {
        return Err(invalid_input("artifact.obligation_id", "must not be empty"));
    }
    if blank(artifact.function_name.as_str()) {
        return Err(invalid_input("artifact.function_name", "must not be empty"));
    }
    if artifact.payload.len() == 0 {
        return Err(invalid_input("artifact.payload", "must not be empty"));
    }
    match artifact.provenance.proof_mode {
        NativeProofMode::Bmc | NativeProofMode::FiniteAcyclicBmc => {
            if artifact.provenance.bmc_depth.is_none() {
                return Err(
                    invalid_input(
                        "artifact.provenance.bmc_depth",
                        "must be set for BMC proof modes",
                    ),
                );
            }
        },
        NativeProofMode::Chc | NativeProofMode::PdrIc3 => {},
    }
    Ok(())
}

/// The proof mode that a payload names.
pub open spec fn named_mode(mode: Seq<char>) -> Option<NativeProofMode> {
    if mode == "bmc"@ {
        Some(NativeProofMode::Bmc)
    } else if mode == "finite_acyclic_bmc"@ {
        Some(NativeProofMode::FiniteAcyclicBmc)
    } else if mode == "chc"@ {
        Some(NativeProofMode::Chc)
    } else if mode == "pdr_ic3"@ {
        Some(NativeProofMode::PdrIc3)
    } else {
        None
    }
}

/// The refusal of a payload field.
pub open spec fn payload_error(field: Seq<char>, detail: Seq<char>) -> ErrorModel {
    error::invalid_model(text::concat(seq!["artifact.payload."@, field]), detail)
}

fn invalid_payload(field: &str, detail: &str) -> (refusal: NativeSolveError)
    ensures
        refusal@ == payload_error(field@, detail@),
{
    let mut parts: Vec<&str> = Vec::new();
    parts.push("artifact.payload.");
    parts.push(field);
    assert(text::texts(parts@) =~= seq!["artifact.payload."@, field@]);
    let name = assemble(&parts);
    invalid_input(name.as_str(), detail)
}

/// The proof mode that a payload names.
pub fn proof_mode_from_payload(mode: &str) -> (found: NativeSolveResult<NativeProofMode>)
    ensures
        match named_mode(mode@) {
            Some(own) => found == Ok::<NativeProofMode, NativeSolveError>(own),
            None => error::failure(found) == Some(
                payload_error("provenance.proof_mode"@, "unknown proof mode"@),
            ),
        },
{
    if same_text(mode, "bmc") {
        Ok(NativeProofMode::Bmc)
    } else if same_text(mode, "finite_acyclic_bmc") {
        Ok(NativeProofMode::FiniteAcyclicBmc)
    } else if same_text(mode, "chc") {
        Ok(NativeProofMode::Chc)
    } else if same_text(mode, "pdr_ic3") {
        Ok(NativeProofMode::PdrIc3)
    } else {
        Err(invalid_payload("provenance.proof_mode", "unknown proof mode"))
    }
}

/// Why an envelope does not fit the artifact that carried it, if it does not.
pub open spec fn payload_fault(
    payload: SmtLibBmcPayload,
    artifact: NativeEncodedArtifact,
) -> Option<ErrorModel> {
    let named = named_mode(payload.provenance.proof_mode@);
    if payload.format@ != "trust_mc.native.smtlib-bmc"@ {
        Some(payload_error("format"@, "must be `trust-mc.native.smtlib-bmc`"@))
    } else if payload.version != SMTLIB_BMC_PAYLOAD_VERSION {
        Some(payload_error("version"@, "unsupported native SMT-LIB BMC payload version"@))
    } else if payload.kind@ != "bmc"@ {
        Some(payload_error("kind"@, "must be `bmc`"@))
    } else if payload.obligation_id@ != artifact.obligation_id@ {
        Some(payload_error("obligation_id"@, "must match artifact.obligation_id"@))
    } else if payload.function_name@ != artifact.function_name@ {
        Some(payload_error("function_name"@, "must match artifact.function_name"@))
    } else if text::is_blank(payload.script@) {
        Some(payload_error("script"@, "must not be empty"@))
    } else if named is None {
        Some(payload_error("provenance.proof_mode"@, "unknown proof mode"@))
    } else if named != Some(artifact.provenance.proof_mode) {
        Some(payload_error("provenance.proof_mode"@, "must match artifact provenance"@))
    } else if payload.provenance.bmc_depth != artifact.provenance.bmc_depth {
        Some(payload_error("provenance.bmc_depth"@, "must match artifact provenance"@))
    } else if payload.provenance.finite_acyclic != artifact.provenance.finite_acyclic {
        Some(payload_error("provenance.finite_acyclic"@, "must match artifact provenance"@))
    } else if payload.provenance.producer@ != artifact.provenance.producer@ {
        Some(payload_error("provenance.producer"@, "must match artifact provenance"@))
    } else {
        None
    }
}

fn same_depth(left: &Option<u32>, right: &Option<u32>) -> (equal: bool)
    ensures
        equal == (*left == *right),
{
    match (left, right) {
        (Some(l), Some(r)) => *l == *r,
        (None, None) => true,
        _ => false,
    }
}

/// Checks that an envelope fits the artifact that carried it.
pub fn validate_payload_matches_artifact(
    payload: &SmtLibBmcPayload,
    artifact: &NativeEncodedArtifact,
) -> (checked: NativeSolveResult<()>)
    ensures
        error::failure(checked) == payload_fault(*payload, *artifact),
{
    if !same_text(payload.format.as_str(), "trust_mc.native.smtlib-bmc") {
        return Err(invalid_payload("format", "must be `trust-mc.native.smtlib-bmc`"));
    }
    if payload.version != SMTLIB_BMC_PAYLOAD_VERSION {
        return Err(
            invalid_payload("version", "unsupported native SMT-LIB BMC payload version"),
        );
    }
    if !same_text(payload.kind.as_str(), "bmc") {
        return Err(invalid_payload("kind", "must be `bmc`"));
    }
    if !(payload.obligation_id == artifact.obligation_id) {
        return Err(invalid_payload("obligation_id", "must match artifact.obligation_id"));
    }
    if !(payload.function_name == artifact.function_name) {
        return Err(invalid_payload("function_name", "must match artifact.function_name"));
    }
    if blank(payload.script.as_str()) {
        return Err(invalid_payload("script", "must not be empty"));
    }
    let mode = match proof_mode_from_payload(payload.provenance.proof_mode.as_str()) {
        Ok(mode) => mode,
        Err(refusal) => {
            return Err(refusal);
        },
    };
    if mode != artifact.provenance.proof_mode {
        return Err(invalid_payload("provenance.proof_mode", "must match artifact provenance"));
    }
    if !same_depth(&payload.provenance.bmc_depth, &artifact.provenance.bmc_depth) {
        return Err(invalid_payload("provenance.bmc_depth", "must match artifact provenance"));
    }
    if payload.provenance.finite_acyclic != artifact.provenance.finite_acyclic {
        return Err(
            invalid_payload("provenance.finite_acyclic", "must match artifact provenance"),
        );
    }
    if !(payload.provenance.producer == artifact.provenance.producer) {
        return Err(invalid_payload("provenance.producer", "must match artifact provenance"));
    }
    Ok(())
}

/// The verdict that one solver output reports, if it reports one.
pub open spec fn output_verdict(output: Seq<char>) -> Option<VerdictModel> {
    let line = text::trimmed(text::first_line(output));
    if line == "unsat"@ {
        Some(VerdictModel::Proved)
    } else if line == "sat"@ {
        Some(VerdictModel::Failed)
    } else if line == "unknown"@ {
        Some(VerdictModel::Unknown("native AY executor returned unknown"@))
    } else {
        None
    }
}

/// The verdict, where there is one, as its model.
pub open spec fn option_verdict(verdict: Option<NativeSolverVerdict>) -> Option<VerdictModel> {
    match verdict {
        Some(verdict) => Some(verdict@),
        None => None,
    }
}

/// The verdict that one solver output reports, if it reports one.
pub fn classify_solver_output(output: &str) -> (verdict: Option<NativeSolverVerdict>)
    ensures
        option_verdict(verdict) == output_verdict(output@),
{
    let line = trimmed_first_line(output);
    if same_text(line.as_str(), "unsat") {
        Some(NativeSolverVerdict::Proved)
    } else if same_text(line.as_str(), "sat") {
        Some(NativeSolverVerdict::Failed)
    } else if same_text(line.as_str(), "unknown") {
        Some(
            NativeSolverVerdict::Unknown {
                reason: "native AY executor returned unknown".to_owned(),
            },
        )
    } else {
        None
    }
}

/// The last verdict that the outputs report.
pub open spec fn last_verdict(outputs: Seq<Seq<char>>) -> Option<VerdictModel>
    decreases outputs.len(),
{
    if outputs.len() == 0 {
        None
    } else {
        match output_verdict(outputs.last()) {
            Some(verdict) => Some(verdict),
            None => last_verdict(outputs.drop_last()),
        }
    }
}

/// The outputs that report no verdict, in order.
pub open spec fn plain_outputs(outputs: Seq<Seq<char>>) -> Seq<Seq<char>>
    decreases outputs.len(),
{
    if outputs.len() == 0 {
        Seq::empty()
    } else if output_verdict(outputs.last()) is None {
        plain_outputs(outputs.drop_last()).push(outputs.last())
    } else {
        plain_outputs(outputs.drop_last())
    }
}

/// The verdict that the outputs of a script amount to.
pub open spec fn overall_verdict(outputs: Seq<Seq<char>>) -> VerdictModel {
    match last_verdict(outputs) {
        Some(verdict) => verdict,
        None => VerdictModel::Unknown("native AY executor emitted no check-sat result"@),
    }
}

/// The verdict and the remaining messages that the outputs of a script amount to.
pub fn interpret_solver_outputs(outputs: Vec<String>) -> (interpreted: (
    NativeSolverVerdict,
    Vec<String>,
))
    ensures
        interpreted.0@ == overall_verdict(text::owned_texts(outputs@)),
        text::owned_texts(interpreted.1@) == plain_outputs(text::owned_texts(outputs@)),
{
    let ghost all = text::owned_texts(outputs@);
    let mut verdict: Option<NativeSolverVerdict> = None;
    let mut diagnostics: Vec<String> = Vec::new();
    for i in 0..outputs.len()
        invariant
            all == text::owned_texts(outputs@),
            option_verdict(verdict) == last_verdict(all.take(i as int)),
            text::owned_texts(diagnostics@) == plain_outputs(all.take(i as int)),
    {
        let ghost next = all.take(i + 1);
        assert(next.drop_last() =~= all.take(i as int));
        assert(next.last() == outputs@[i as int]@);
        match classify_solver_output(outputs[i].as_str()) {
            Some(own) => {
                verdict = Some(own);
            },
            None => {
                let ghost before = text::owned_texts(diagnostics@);
                diagnostics.push(outputs[i].clone());
                assert(text::owned_texts(diagnostics@) =~= before.push(outputs@[i as int]@));
            },
        }
    }
    assert(all.take(outputs@.len() as int) =~= all);
    match verdict {
        Some(own) => (own, diagnostics),
        None => (
            NativeSolverVerdict::Unknown {
                reason: "native AY executor emitted no check-sat result".to_owned(),
            },
            diagnostics,
        ),
    }
}

/// The verdict that an execution amounts to.
pub open spec fn execution_verdict(execution: NativeBmcExecution) -> VerdictModel {
    match execution {
        NativeBmcExecution::Completed(outputs) => overall_verdict(text::owned_texts(outputs@)),
        NativeBmcExecution::TimedOut => VerdictModel::Timeout,
    }
}

/// The messages that an execution leaves.
pub open spec fn execution_messages(execution: NativeBmcExecution) -> Seq<Seq<char>> {
    match execution {
        NativeBmcExecution::Completed(outputs) => plain_outputs(text::owned_texts(outputs@)),
        NativeBmcExecution::TimedOut => seq!["native AY executor timed out"@],
    }
}

/// The verdict and the messages that an execution amounts to.
pub fn interpret_bmc_execution(execution: NativeBmcExecution) -> (interpreted: (
    NativeSolverVerdict,
    Vec<String>,
))
    ensures
        interpreted.0@ == execution_verdict(execution),
        text::owned_texts(interpreted.1@) == execution_messages(execution),
{
    match execution {
        NativeBmcExecution::Completed(outputs) => interpret_solver_outputs(outputs),
        NativeBmcExecution::TimedOut => {
            let mut messages: Vec<String> = Vec::new();
            messages.push("native AY executor timed out".to_owned());
            assert(text::owned_texts(messages@) =~= seq!["native AY executor timed out"@]);
            (NativeSolverVerdict::Timeout, messages)
        },
    }
}

/// Why a request is refused before its payload is decoded, if it is.
pub open spec fn admission_fault(request: NativeSolveRequest) -> Option<ErrorModel> {
    if request_fault(request) is Some {
        request_fault(request)
    } else if request.produce_proof_certificate {
        Some(
            error::unsupported_model(
                "proof_certificate_not_supported"@,
                "native SMT-LIB BMC solving does not yet export proof certificates"@,
            ),
        )
    } else if request.artifact.kind == NativeVcKind::Chc {
        Some(
            error::unsupported_model(
                "chc_native_payload_not_supported"@,
                "the native driver currently solves only SMT-LIB BMC payloads"@,
            ),
        )
    } else if !is_bmc_mode(request.artifact.provenance.proof_mode) {
        Some(
            error::invalid_model(
                "artifact.provenance.proof_mode"@,
                "BMC artifacts require BMC proof provenance"@,
            ),
        )
    } else {
        None
    }
}

fn admit_request(request: &NativeSolveRequest) -> (admitted: NativeSolveResult<()>)
    ensures
        error::failure(admitted) == admission_fault(*request),
{
    match validate_solve_request(request) {
        Ok(()) => {},
        Err(refusal) => {
            return Err(refusal);
        },
    }
    if request.produce_proof_certificate {
        return Err(
            unsupported(
                "proof_certificate_not_supported",
                "native SMT-LIB BMC solving does not yet export proof certificates",
            ),
        );
    }
    match request.artifact.kind {
        NativeVcKind::Bmc => {},
        NativeVcKind::Chc => {
            return Err(
                unsupported(
                    "chc_native_payload_not_supported",
                    "the native driver currently solves only SMT-LIB BMC payloads",
                ),
            );
        },
    }
    match request.artifact.provenance.proof_mode {
        NativeProofMode::Bmc | NativeProofMode::FiniteAcyclicBmc => Ok(()),
        _ => Err(
            invalid_input(
                "artifact.provenance.proof_mode",
                "BMC artifacts require BMC proof provenance",
            ),
        ),
    }
}

/// Whether a decoded envelope is what an artifact carries.
pub open spec fn decodes<D: Fn(&String) -> Result<SmtLibBmcPayload, String>>(
    artifact: NativeEncodedArtifact,
    parse: D,
    decoded: NativeSolveResult<SmtLibBmcPayload>,
) -> bool {
    if !vstd::utf8::valid_utf8(artifact.payload@) {
        error::failure(decoded) == Some(
            error::invalid_model(
                "artifact.payload"@,
                text::concat(
                    seq![
                        "payload is not valid UTF-8 JSON: "@,
                        text::utf8_rejection(artifact.payload@),
                    ],
                ),
            ),
        )
    } else {
        exists|content: String, parsed: Result<SmtLibBmcPayload, String>| #[trigger]
            parse.ensures((&content,), parsed) && vstd::utf8::encode_utf8(content@)
                == artifact.payload@ && match parsed {
                Ok(payload) => decoded == Ok::<SmtLibBmcPayload, NativeSolveError>(payload),
                Err(fault) => error::failure(decoded) == Some(
                    error::invalid_model(
                        "artifact.payload"@,
                        text::concat(
                            seq!["payload is not a native SMT-LIB BMC envelope: "@, fault@],
                        ),
                    ),
                ),
            }
    }
}

/// Decodes the envelope that an artifact carries. `parse` reads it from its text.
pub fn decode_smtlib_bmc_payload<D>(artifact: &NativeEncodedArtifact, parse: &D) -> (decoded:
    NativeSolveResult<SmtLibBmcPayload>) where
    D: Fn(&String) -> Result<SmtLibBmcPayload, String>,

    requires
        forall|content: &String| #[trigger] parse.requires((content,)),
    ensures
        decodes(*artifact, *parse, decoded),
{
    let content = match decode_utf8(artifact.payload.as_slice()) {
        Ok(content) => content,
        Err(fault) => {
            let detail = concat2("payload is not valid UTF-8 JSON: ", fault.as_str());
            return Err(invalid_input("artifact.payload", detail.as_str()));
        },
    };
    let parsed = parse(&content);
    assert(parse.ensures((&content,), parsed));
    match parsed {
        Ok(payload) => Ok(payload),
        Err(fault) => {
            let detail = concat2("payload is not a native SMT-LIB BMC envelope: ", fault.as_str());
            Err(invalid_input("artifact.payload", detail.as_str()))
        },
    }
}

/// How a run of the executor ended.
#[derive(Debug, PartialEq, Eq)]
pub enum ExecutorEnd {
    /// It printed outputs.
    Finished(Vec<String>),
    /// It refused the script.
    Failed(String),
    /// It panicked.
    Panicked(String),
    /// It exceeded the limit.
    TimedOut,
    /// It went away without a result.
    Disconnected,
}

/// The refusal of a script.
pub open spec fn script_refusal(before: Seq<char>, fault: Seq<char>) -> ErrorModel {
    error::invalid_model("artifact.payload.script"@, text::concat(seq![before, fault]))
}

fn refuse_script(before: &str, fault: &str) -> (refused: NativeSolveError)
    ensures
        refused@ == script_refusal(before@, fault@),
{
    let detail = concat2(before, fault);
    invalid_input("artifact.payload.script", detail.as_str())
}

/// Whether an execution is what a run that ended so amounts to.
pub open spec fn concludes(
    end: ExecutorEnd,
    execution: NativeSolveResult<NativeBmcExecution>,
) -> bool {
    match end {
        ExecutorEnd::Finished(outputs) => execution == Ok::<NativeBmcExecution, NativeSolveError>(
            NativeBmcExecution::Completed(outputs),
        ),
        ExecutorEnd::Failed(fault) => error::failure(execution) == Some(
            script_refusal("native AY executor error: "@, fault@),
        ),
        ExecutorEnd::Panicked(reason) => execution matches Ok(
            NativeBmcExecution::Completed(outputs),
        ) && text::owned_texts(outputs@) == seq![
            text::concat(seq!["unknown\n; native AY executor panic: "@, reason@]),
        ],
        ExecutorEnd::TimedOut => execution == Ok::<NativeBmcExecution, NativeSolveError>(
            NativeBmcExecution::TimedOut,
        ),
        ExecutorEnd::Disconnected => execution matches Ok(NativeBmcExecution::Completed(outputs))
            && text::owned_texts(outputs@) == seq!["unknown"@],
    }
}

/// The execution that a run amounts to.
pub fn conclude_execution(end: ExecutorEnd) -> (execution: NativeSolveResult<NativeBmcExecution>)
    ensures
        concludes(end, execution),
{
    match end {
        ExecutorEnd::Finished(outputs) => Ok(NativeBmcExecution::Completed(outputs)),
        ExecutorEnd::Failed(fault) => Err(
            refuse_script("native AY executor error: ", fault.as_str()),
        ),
        ExecutorEnd::Panicked(reason) => {
            let outputs: Vec<String> = vec![
                concat2("unknown\n; native AY executor panic: ", reason.as_str()),
            ];
            assert(text::owned_texts(outputs@) =~= seq![outputs@[0]@]);
            Ok(NativeBmcExecution::Completed(outputs))
        },
        ExecutorEnd::TimedOut => Ok(NativeBmcExecution::TimedOut),
        ExecutorEnd::Disconnected => {
            let outputs: Vec<String> = vec!["unknown".to_owned()];
            assert(text::owned_texts(outputs@) =~= seq!["unknown"@]);
            Ok(NativeBmcExecution::Completed(outputs))
        },
    }
}

/// Whether an execution is the one of a script.
pub open spec fn executes<Q, E>(
    script: String,
    timeout: Option<Duration>,
    checks: Q,
    run: E,
    execution: NativeSolveResult<NativeBmcExecution>,
) -> bool where
    Q: Fn(&String) -> Result<bool, String>,
    E: Fn(&String, Option<Duration>) -> ExecutorEnd,
 {
    exists|found: Result<bool, String>| #[trigger]
        checks.ensures((&script,), found) && match found {
            Err(fault) => error::failure(execution) == Some(
                script_refusal("SMT-LIB parse error: "@, fault@),
            ),
            Ok(false) => error::failure(execution) == Some(
                error::invalid_model(
                    "artifact.payload.script"@,
                    "must contain a check-sat command"@,
                ),
            ),
            Ok(true) => exists|end: ExecutorEnd| #[trigger]
                run.ensures((&script, timeout), end) && concludes(end, execution),
        }
}

/// Executes a script. `checks` parses it and tells whether it asks for a check,
/// `run` has it executed within the limit.
pub fn execute_smtlib_bmc<Q, E>(
    script: &String,
    timeout: Option<Duration>,
    checks: &Q,
    run: &E,
) -> (execution: NativeSolveResult<NativeBmcExecution>) where
    Q: Fn(&String) -> Result<bool, String>,
    E: Fn(&String, Option<Duration>) -> ExecutorEnd,

    requires
        forall|script: &String| #[trigger] checks.requires((script,)),
        forall|script: &String, timeout: Option<Duration>| #[trigger]
            run.requires((script, timeout)),
    ensures
        executes(*script, timeout, *checks, *run, execution),
{
    let found = checks(script);
    assert(checks.ensures((script,), found));
    match found {
        Err(fault) => {
            return Err(refuse_script("SMT-LIB parse error: ", fault.as_str()));
        },
        Ok(false) => {
            return Err(
                invalid_input("artifact.payload.script", "must contain a check-sat command"),
            );
        },
        Ok(true) => {},
    }
    let end = run(script, timeout);
    assert(run.ensures((script, timeout), end));
    conclude_execution(end)
}

/// Solves an encoded artifact. `parse` reads the payload envelope, `checks` parses
/// its script and tells whether it asks for a check, and `run` has it executed.
pub fn solve_native<D, Q, E>(request: NativeSolveRequest, parse: &D, checks: &Q, run: &E) -> (solved:
    NativeSolveResult<NativeSolvedArtifact>) where
    D: Fn(&String) -> Result<SmtLibBmcPayload, String>,
    Q: Fn(&String) -> Result<bool, String>,
    E: Fn(&String, Option<Duration>) -> ExecutorEnd,

    requires
        forall|content: &String| #[trigger] parse.requires((content,)),
        forall|script: &String| #[trigger] checks.requires((script,)),
        forall|script: &String, timeout: Option<Duration>| #[trigger]
            run.requires((script, timeout)),
    ensures
        match admission_fault(request) {
            Some(fault) => error::failure(solved) == Some(fault),
            None => exists|decoded: NativeSolveResult<SmtLibBmcPayload>| #[trigger]
                decodes(request.artifact, *parse, decoded) && match decoded {
                    Err(fault) => solved == Err::<NativeSolvedArtifact, NativeSolveError>(fault),
                    Ok(payload) => match payload_fault(payload, request.artifact) {
                        Some(fault) => error::failure(solved) == Some(fault),
                        None => exists|execution: NativeSolveResult<NativeBmcExecution>| #[trigger]
                            executes(payload.script, request.timeout, *checks, *run, execution)
                                && answers(request, execution, solved),
                    },
                },
        },
{
    match admit_request(&request) {
        Ok(()) => {},
        Err(refusal) => {
            return Err(refusal);
        },
    }
    let decoded = decode_smtlib_bmc_payload(&request.artifact, parse);
    let ghost kept = decoded;
    assert(decodes(request.artifact, *parse, kept));
    let payload = match decoded {
        Ok(payload) => payload,
        Err(refusal) => {
            return Err(refusal);
        },
    };
    match validate_payload_matches_artifact(&payload, &request.artifact) {
        Ok(()) => {},
        Err(refusal) => {
            return Err(refusal);
        },
    }
    let executed = execute_smtlib_bmc(&payload.script, request.timeout, checks, run);
    let ghost kept_execution = executed;
    assert(executes(payload.script, request.timeout, *checks, *run, kept_execution));
    match executed {
        Ok(execution) => {
            let (verdict, diagnostics) = interpret_bmc_execution(execution);
            Ok(
                NativeSolvedArtifact {
                    obligation_id: request.artifact.obligation_id,
                    verdict,
                    provenance: request.artifact.provenance,
                    proof_certificate: None,
                    diagnostics,
                },
            )
        },
        Err(failure) => Err(failure),
    }
}

/// Whether a response answers a request whose script ran as given.
pub open spec fn answers(
    request: NativeSolveRequest,
    execution: NativeSolveResult<NativeBmcExecution>,
    solved: NativeSolveResult<NativeSolvedArtifact>,
) -> bool {
    match execution {
        Err(fault) => solved == Err::<NativeSolvedArtifact, NativeSolveError>(fault),
        Ok(execution) => solved matches Ok(response) && {
            &&& response.obligation_id == request.artifact.obligation_id
            &&& response.verdict@ == execution_verdict(execution)
            &&& response.provenance == request.artifact.provenance
            &&& response.proof_certificate is None
            &&& text::owned_texts(response.diagnostics@) == execution_messages(execution)
        },
    }
}

} // verus!
