//! The documents that accompany verdicts.
//!
//! A transcript says how a decision was reached, a replay log refers to it, and a
//! checked report refers to both. Each reference is by digest. None of them
//! grants authority: a candidate is accepted only after a fresh replay.
use serde_json::Value;
use vstd::prelude::*;
use vstd::string::*;

use crate::evidence::{ChcPdrStats, EvidenceHash, HashModel, MirChcPdrObligation};
use crate::identity;
use crate::identity::stats_value;
use crate::json;
use crate::json::{
    json_array, json_copy, json_object, json_set, set_bool, set_number, set_text, JsonModel,
};

verus! {

/// A reference to an artifact by its digest.
pub open spec fn reference(kind: Seq<char>, hash: HashModel) -> JsonModel {
    JsonModel::Object(
        map![
            "kind"@ => JsonModel::Text(kind),
            "algorithm"@ => JsonModel::Text(hash.algorithm),
            "value"@ => JsonModel::Text(hash.value),
        ],
    )
}

fn reference_value(kind: &str, hash: &EvidenceHash) -> (value: Value)
    ensures
        json::json_content(value) == reference(kind@, hash@),
{
    let mut document = json_object();
    set_text(&mut document, "kind", kind);
    set_text(&mut document, "algorithm", hash.algorithm.as_str());
    set_text(&mut document, "value", hash.value.as_str());
    document
}

/// The transcript of the finding that no rule derives the query target.
pub open spec fn trivial_transcript(
    obligation: MirChcPdrObligation,
    input_hash: HashModel,
) -> JsonModel {
    JsonModel::Object(
        map![
            "schema"@ => JsonModel::Text("trust_mc.typed-chc-solver-transcript/v1"@),
            "route"@ => JsonModel::Text("typed-trivial-safe"@),
            "obligation_id"@ => JsonModel::Text(obligation.obligation_id@),
            "function_name"@ => JsonModel::Text(obligation.function_name@),
            "query_target"@ => JsonModel::Text(obligation.vc.query_target@),
            "decision"@ => JsonModel::Text("candidate-safe"@),
            "reason"@ => JsonModel::Text("no Horn rule derives the typed query target"@),
            "normalized_input_sha256"@ => JsonModel::Text(input_hash.value),
        ],
    )
}

pub(crate) fn trivial_transcript_value(
    obligation: &MirChcPdrObligation,
    input_hash: &EvidenceHash,
) -> (value: Value)
    ensures
        json::json_content(value) == trivial_transcript(*obligation, input_hash@),
{
    let mut document = json_object();
    set_text(&mut document, "schema", "trust_mc.typed-chc-solver-transcript/v1");
    set_text(&mut document, "route", "typed-trivial-safe");
    set_text(&mut document, "obligation_id", obligation.obligation_id.as_str());
    set_text(&mut document, "function_name", obligation.function_name.as_str());
    set_text(&mut document, "query_target", obligation.vc.query_target.as_str());
    set_text(&mut document, "decision", "candidate-safe");
    set_text(&mut document, "reason", "no Horn rule derives the typed query target");
    set_text(&mut document, "normalized_input_sha256", input_hash.value.as_str());
    document
}

/// The step of a replay that looks for rules with the query target as head.
pub open spec fn head_scan(query_target: Seq<char>) -> JsonModel {
    JsonModel::Object(
        map![
            "check"@ => JsonModel::Text("typed-rule-head-scan"@),
            "query_target"@ => JsonModel::Text(query_target),
            "matching_head_count"@ => JsonModel::Number(0),
        ],
    )
}

/// The replay log of the finding that no rule derives the query target.
pub open spec fn trivial_replay(query_target: Seq<char>, transcript_hash: HashModel) -> JsonModel {
    JsonModel::Object(
        map![
            "schema"@ => JsonModel::Text("trust_mc.typed-chc-replay-log/v1"@),
            "route"@ => JsonModel::Text("typed-trivial-safe"@),
            "referenced_solver_transcript"@ => reference("solver_transcript"@, transcript_hash),
            "steps"@ => JsonModel::Array(seq![head_scan(query_target)]),
        ],
    )
}

pub(crate) fn trivial_replay_value(query_target: &str, transcript_hash: &EvidenceHash) -> (value:
    Value)
    ensures
        json::json_content(value) == trivial_replay(query_target@, transcript_hash@),
{
    let mut step = json_object();
    set_text(&mut step, "check", "typed-rule-head-scan");
    set_text(&mut step, "query_target", query_target);
    set_number(&mut step, "matching_head_count", 0);
    let steps: Vec<Value> = vec![step];
    assert(json::json_contents(steps@) =~= seq![head_scan(query_target@)]);
    let mut document = json_object();
    set_text(&mut document, "schema", "trust_mc.typed-chc-replay-log/v1");
    set_text(&mut document, "route", "typed-trivial-safe");
    json_set(
        &mut document,
        "referenced_solver_transcript",
        reference_value("solver_transcript", transcript_hash),
    );
    json_set(&mut document, "steps", json_array(steps));
    document
}

/// The checked report of the finding that no rule derives the query target.
pub open spec fn trivial_report(
    transcript_hash: HashModel,
    replay_hash: HashModel,
    stats: ChcPdrStats,
) -> JsonModel {
    JsonModel::Object(
        map![
            "schema"@ => JsonModel::Text("trust_mc.typed-chc-checked-proof-report/v1"@),
            "accepted_as_candidate"@ => JsonModel::Bool(true),
            "accepted_as_proof"@ => JsonModel::Bool(false),
            "authoritative"@ => JsonModel::Bool(false),
            "private_authority_not_serialized"@ => JsonModel::Bool(true),
            "problem_kind"@ => JsonModel::Text("chc-pdr"@),
            "proof_kind"@ => JsonModel::Text("chc-validity"@),
            "route"@ => JsonModel::Text("typed-trivial-safe"@),
            "referenced_solver_transcript"@ => reference("solver_transcript"@, transcript_hash),
            "referenced_replay_log"@ => reference("replay_log"@, replay_hash),
            "stats"@ => identity::stats_document(stats),
        ],
    )
}

pub(crate) fn trivial_report_value(
    transcript_hash: &EvidenceHash,
    replay_hash: &EvidenceHash,
    stats: ChcPdrStats,
) -> (value: Value)
    ensures
        json::json_content(value) == trivial_report(transcript_hash@, replay_hash@, stats),
{
    let mut document = json_object();
    set_text(&mut document, "schema", "trust_mc.typed-chc-checked-proof-report/v1");
    set_bool(&mut document, "accepted_as_candidate", true);
    set_bool(&mut document, "accepted_as_proof", false);
    set_bool(&mut document, "authoritative", false);
    set_bool(&mut document, "private_authority_not_serialized", true);
    set_text(&mut document, "problem_kind", "chc-pdr");
    set_text(&mut document, "proof_kind", "chc-validity");
    set_text(&mut document, "route", "typed-trivial-safe");
    json_set(
        &mut document,
        "referenced_solver_transcript",
        reference_value("solver_transcript", transcript_hash),
    );
    json_set(
        &mut document,
        "referenced_replay_log",
        reference_value("replay_log", replay_hash),
    );
    json_set(&mut document, "stats", stats_value(stats));
    document
}

/// The certificate of an exhaustive search without an error derivation.
pub open spec fn acyclic_certificate(predicate_count: nat, input_hash: HashModel) -> JsonModel {
    JsonModel::Object(
        map![
            "schema"@ => JsonModel::Text("trust_mc.typed-chc-acyclic-safe-certificate/v1"@),
            "source"@ => JsonModel::Text("acyclic-direct-smt-exhaustive-no-error-derivation"@),
            "decision"@ => JsonModel::Text("safe"@),
            "complete_encoding"@ => JsonModel::Bool(true),
            "predicate_count"@ => JsonModel::Number(predicate_count),
            "normalized_input_sha256"@ => JsonModel::Text(input_hash.value),
        ],
    )
}

pub(crate) fn acyclic_certificate_value(predicate_count: usize, input_hash: &EvidenceHash) -> (value:
    Value)
    ensures
        json::json_content(value) == acyclic_certificate(predicate_count as nat, input_hash@),
{
    let mut document = json_object();
    set_text(&mut document, "schema", "trust_mc.typed-chc-acyclic-safe-certificate/v1");
    set_text(&mut document, "source", "acyclic-direct-smt-exhaustive-no-error-derivation");
    set_text(&mut document, "decision", "safe");
    set_bool(&mut document, "complete_encoding", true);
    set_number(&mut document, "predicate_count", predicate_count as u64);
    set_text(&mut document, "normalized_input_sha256", input_hash.value.as_str());
    document
}

/// The replay log of an exhaustive search without an error derivation.
pub open spec fn acyclic_replay(
    predicate_count: nat,
    input_hash: HashModel,
    certificate_hash: HashModel,
) -> JsonModel {
    JsonModel::Object(
        map![
            "schema"@ => JsonModel::Text("trust_mc.typed-chc-pdr-replay-log/v2"@),
            "source"@ => JsonModel::Text("acyclic-direct-smt-exhaustive-safe-complete-encoding"@),
            "accepted_as_candidate"@ => JsonModel::Bool(true),
            "accepted_as_proof"@ => JsonModel::Bool(false),
            "authoritative"@ => JsonModel::Bool(false),
            "private_authority_not_serialized"@ => JsonModel::Bool(true),
            "normalized_input_sha256"@ => JsonModel::Text(input_hash.value),
            "certificate"@ => acyclic_certificate(predicate_count, input_hash),
            "referenced_solver_transcript"@ => reference("solver_transcript"@, certificate_hash),
        ],
    )
}

pub(crate) fn acyclic_replay_value(
    predicate_count: usize,
    input_hash: &EvidenceHash,
    certificate_hash: &EvidenceHash,
) -> (value: Value)
    ensures
        json::json_content(value) == acyclic_replay(
            predicate_count as nat,
            input_hash@,
            certificate_hash@,
        ),
{
    let mut document = json_object();
    set_text(&mut document, "schema", "trust_mc.typed-chc-pdr-replay-log/v2");
    set_text(&mut document, "source", "acyclic-direct-smt-exhaustive-safe-complete-encoding");
    set_bool(&mut document, "accepted_as_candidate", true);
    set_bool(&mut document, "accepted_as_proof", false);
    set_bool(&mut document, "authoritative", false);
    set_bool(&mut document, "private_authority_not_serialized", true);
    set_text(&mut document, "normalized_input_sha256", input_hash.value.as_str());
    json_set(
        &mut document,
        "certificate",
        acyclic_certificate_value(predicate_count, input_hash),
    );
    json_set(
        &mut document,
        "referenced_solver_transcript",
        reference_value("solver_transcript", certificate_hash),
    );
    document
}

/// The status of a replay that nobody ran.
pub open spec fn open_replay_status() -> JsonModel {
    JsonModel::Object(
        map![
            "replay"@ => JsonModel::Text("unknown"@),
            "check"@ => JsonModel::Text("unknown"@),
        ],
    )
}

/// The checked report of an exhaustive search without an error derivation.
pub open spec fn acyclic_report(
    certificate_hash: HashModel,
    replay_hash: HashModel,
    stats: ChcPdrStats,
) -> JsonModel {
    JsonModel::Object(
        map![
            "schema"@ => JsonModel::Text("trust_mc.typed-chc-pdr-checked-proof-report/v2"@),
            "accepted_as_candidate"@ => JsonModel::Bool(true),
            "accepted_as_proof"@ => JsonModel::Bool(false),
            "authoritative"@ => JsonModel::Bool(false),
            "private_authority_not_serialized"@ => JsonModel::Bool(true),
            "problem_kind"@ => JsonModel::Text("chc-acyclic-exhaustive-complete-encoding"@),
            "proof_status"@ => JsonModel::Text("safe"@),
            "result"@ => JsonModel::Text("safe"@),
            "replay_check_status"@ => open_replay_status(),
            "referenced_solver_transcript"@ => reference("solver_transcript"@, certificate_hash),
            "referenced_replay_log"@ => reference("replay_log"@, replay_hash),
            "stats"@ => identity::stats_document(stats),
        ],
    )
}

pub(crate) fn acyclic_report_value(
    certificate_hash: &EvidenceHash,
    replay_hash: &EvidenceHash,
    stats: ChcPdrStats,
) -> (value: Value)
    ensures
        json::json_content(value) == acyclic_report(certificate_hash@, replay_hash@, stats),
{
    let mut status = json_object();
    set_text(&mut status, "replay", "unknown");
    set_text(&mut status, "check", "unknown");
    let mut document = json_object();
    set_text(&mut document, "schema", "trust_mc.typed-chc-pdr-checked-proof-report/v2");
    set_bool(&mut document, "accepted_as_candidate", true);
    set_bool(&mut document, "accepted_as_proof", false);
    set_bool(&mut document, "authoritative", false);
    set_bool(&mut document, "private_authority_not_serialized", true);
    set_text(&mut document, "problem_kind", "chc-acyclic-exhaustive-complete-encoding");
    set_text(&mut document, "proof_status", "safe");
    set_text(&mut document, "result", "safe");
    json_set(&mut document, "replay_check_status", status);
    json_set(
        &mut document,
        "referenced_solver_transcript",
        reference_value("solver_transcript", certificate_hash),
    );
    json_set(
        &mut document,
        "referenced_replay_log",
        reference_value("replay_log", replay_hash),
    );
    json_set(&mut document, "stats", stats_value(stats));
    document
}

/// Artifact of a proof run.
#[derive(Debug, PartialEq, Eq)]
pub struct ChcProofRunArtifact {
    pub schema: String,
    pub role: String,
    /// Serialized form of the digest.
    pub digest: Value,
    pub bytes: Vec<u8>,
}

/// Certificate of a proof run.
#[derive(Debug, PartialEq, Eq)]
pub struct ProofRunCertificate {
    /// Whether the engine accepts the run as a proof.
    pub accepted_as_proof: bool,
    /// Digest of the input that the run was about.
    pub normalized_input_sha256: String,
    pub proof_status: String,
    pub result: String,
    /// The strict invariant, where there is one.
    pub quantifier_free_invariant_model: Option<ChcProofRunArtifact>,
    /// Diagnostic model metadata.
    pub model: ChcProofRunArtifact,
    pub replay_transcript: ChcProofRunArtifact,
    /// Serialized form of the consumer evidence.
    pub consumer_evidence: Value,
    /// Serialized form of the run's metadata.
    pub metadata: Value,
}

/// An artifact of a proof run, as a document.
pub open spec fn run_artifact_descriptor(artifact: ChcProofRunArtifact) -> JsonModel {
    JsonModel::Object(
        map![
            "schema"@ => JsonModel::Text(artifact.schema@),
            "role"@ => JsonModel::Text(artifact.role@),
            "digest"@ => json::json_content(artifact.digest),
        ],
    )
}

/// An artifact of a proof run, as a document.
pub fn ay_chc_proof_run_artifact_descriptor(artifact: &ChcProofRunArtifact) -> (value: Value)
    ensures
        json::json_content(value) == run_artifact_descriptor(*artifact),
{
    let mut document = json_object();
    set_text(&mut document, "schema", artifact.schema.as_str());
    set_text(&mut document, "role", artifact.role.as_str());
    json_set(&mut document, "digest", json_copy(&artifact.digest));
    document
}

/// The artifacts of a proof run, as a document.
pub open spec fn run_artifacts(
    certificate: ProofRunCertificate,
    strict_model: ChcProofRunArtifact,
) -> JsonModel {
    JsonModel::Object(
        map![
            "quantifier_free_invariant_model"@ => run_artifact_descriptor(strict_model),
            "diagnostic_model_metadata"@ => run_artifact_descriptor(certificate.model),
            "replay_transcript"@ => run_artifact_descriptor(certificate.replay_transcript),
        ],
    )
}

fn run_artifacts_value(
    certificate: &ProofRunCertificate,
    strict_model: &ChcProofRunArtifact,
) -> (value: Value)
    ensures
        json::json_content(value) == run_artifacts(*certificate, *strict_model),
{
    let mut document = json_object();
    json_set(
        &mut document,
        "quantifier_free_invariant_model",
        ay_chc_proof_run_artifact_descriptor(strict_model),
    );
    json_set(
        &mut document,
        "diagnostic_model_metadata",
        ay_chc_proof_run_artifact_descriptor(&certificate.model),
    );
    json_set(
        &mut document,
        "replay_transcript",
        ay_chc_proof_run_artifact_descriptor(&certificate.replay_transcript),
    );
    document
}

/// The replay log of a proof run.
pub open spec fn run_replay(
    certificate: ProofRunCertificate,
    strict_model: ChcProofRunArtifact,
    transcript_hash: HashModel,
) -> JsonModel {
    JsonModel::Object(
        map![
            "schema"@ => JsonModel::Text("trust_mc.typed-chc-pdr-replay-log/v3"@),
            "source"@ => JsonModel::Text("ay_chc::ChcPdrProofRun::proof_run_artifacts"@),
            "ay_candidate_accepted"@ => JsonModel::Bool(certificate.accepted_as_proof),
            "normalized_input_sha256"@ => JsonModel::Text(certificate.normalized_input_sha256@),
            "referenced_solver_transcript"@ => reference("solver_transcript"@, transcript_hash),
            "ay_artifacts"@ => run_artifacts(certificate, strict_model),
            "ay_consumer_evidence"@ => json::json_content(certificate.consumer_evidence),
            "ay_transcript_metadata"@ => json::json_content(certificate.metadata),
        ],
    )
}

pub(crate) fn run_replay_value(
    certificate: &ProofRunCertificate,
    strict_model: &ChcProofRunArtifact,
    transcript_hash: &EvidenceHash,
) -> (value: Value)
    ensures
        json::json_content(value) == run_replay(*certificate, *strict_model, transcript_hash@),
{
    let mut document = json_object();
    set_text(&mut document, "schema", "trust_mc.typed-chc-pdr-replay-log/v3");
    set_text(&mut document, "source", "ay_chc::ChcPdrProofRun::proof_run_artifacts");
    set_bool(&mut document, "ay_candidate_accepted", certificate.accepted_as_proof);
    set_text(
        &mut document,
        "normalized_input_sha256",
        certificate.normalized_input_sha256.as_str(),
    );
    json_set(
        &mut document,
        "referenced_solver_transcript",
        reference_value("solver_transcript", transcript_hash),
    );
    json_set(&mut document, "ay_artifacts", run_artifacts_value(certificate, strict_model));
    json_set(
        &mut document,
        "ay_consumer_evidence",
        json_copy(&certificate.consumer_evidence),
    );
    json_set(&mut document, "ay_transcript_metadata", json_copy(&certificate.metadata));
    document
}

/// The status of a run that still has to be replayed afresh.
pub open spec fn pending_replay_status() -> JsonModel {
    JsonModel::Object(
        map![
            "replay"@ => JsonModel::Text("not-run-by-private-consumer"@),
            "check"@ => JsonModel::Text("unknown"@),
            "fresh_private_consumer_replay_required"@ => JsonModel::Bool(true),
            "authoritative"@ => JsonModel::Bool(false),
        ],
    )
}

/// The replay log of a run among its checked artifacts.
pub open spec fn checked_replay_log(replay_hash: HashModel, replay_len: nat) -> JsonModel {
    JsonModel::Object(
        map![
            "algorithm"@ => JsonModel::Text(replay_hash.algorithm),
            "value"@ => JsonModel::Text(replay_hash.value),
            "bytes"@ => JsonModel::Number(replay_len),
        ],
    )
}

/// The artifacts that a run's report is about.
pub open spec fn checked_artifacts(
    certificate: ProofRunCertificate,
    strict_model: ChcProofRunArtifact,
    replay_hash: HashModel,
    replay_len: nat,
) -> JsonModel {
    JsonModel::Object(
        map![
            "quantifier_free_invariant_model"@ => run_artifact_descriptor(strict_model),
            "diagnostic_model_metadata"@ => run_artifact_descriptor(certificate.model),
            "replay_transcript"@ => run_artifact_descriptor(certificate.replay_transcript),
            "replay_log"@ => checked_replay_log(replay_hash, replay_len),
        ],
    )
}

/// The checked report of a proof run.
pub open spec fn run_report(
    certificate: ProofRunCertificate,
    strict_model: ChcProofRunArtifact,
    transcript_hash: HashModel,
    replay_hash: HashModel,
    replay_len: nat,
    stats: ChcPdrStats,
) -> JsonModel {
    JsonModel::Object(
        map![
            "schema"@ => JsonModel::Text("trust_mc.typed-chc-pdr-checked-proof-report/v3"@),
            "ay_candidate_accepted"@ => JsonModel::Bool(certificate.accepted_as_proof),
            "problem_kind"@ => JsonModel::Text("chc-pdr"@),
            "proof_status"@ => JsonModel::Text(certificate.proof_status@),
            "result"@ => JsonModel::Text(certificate.result@),
            "replay_check_status"@ => pending_replay_status(),
            "checked_artifacts"@ => checked_artifacts(
                certificate,
                strict_model,
                replay_hash,
                replay_len,
            ),
            "referenced_solver_transcript"@ => reference("solver_transcript"@, transcript_hash),
            "referenced_replay_log"@ => reference("replay_log"@, replay_hash),
            "stats"@ => identity::stats_document(stats),
            "ay_consumer_evidence"@ => json::json_content(certificate.consumer_evidence),
            "ay_transcript_metadata"@ => json::json_content(certificate.metadata),
        ],
    )
}

fn checked_artifacts_value(
    certificate: &ProofRunCertificate,
    strict_model: &ChcProofRunArtifact,
    replay_hash: &EvidenceHash,
    replay_len: usize,
) -> (value: Value)
    ensures
        json::json_content(value) == checked_artifacts(
            *certificate,
            *strict_model,
            replay_hash@,
            replay_len as nat,
        ),
{
    let mut log = json_object();
    set_text(&mut log, "algorithm", replay_hash.algorithm.as_str());
    set_text(&mut log, "value", replay_hash.value.as_str());
    set_number(&mut log, "bytes", replay_len as u64);
    let mut document = run_artifacts_value(certificate, strict_model);
    json_set(&mut document, "replay_log", log);
    document
}

pub(crate) fn run_report_value(
    certificate: &ProofRunCertificate,
    strict_model: &ChcProofRunArtifact,
    transcript_hash: &EvidenceHash,
    replay_hash: &EvidenceHash,
    replay_len: usize,
    stats: ChcPdrStats,
) -> (value: Value)
    ensures
        json::json_content(value) == run_report(
            *certificate,
            *strict_model,
            transcript_hash@,
            replay_hash@,
            replay_len as nat,
            stats,
        ),
{
    let mut status = json_object();
    set_text(&mut status, "replay", "not-run-by-private-consumer");
    set_text(&mut status, "check", "unknown");
    set_bool(&mut status, "fresh_private_consumer_replay_required", true);
    set_bool(&mut status, "authoritative", false);
    let mut document = json_object();
    set_text(&mut document, "schema", "trust_mc.typed-chc-pdr-checked-proof-report/v3");
    set_bool(&mut document, "ay_candidate_accepted", certificate.accepted_as_proof);
    set_text(&mut document, "problem_kind", "chc-pdr");
    set_text(&mut document, "proof_status", certificate.proof_status.as_str());
    set_text(&mut document, "result", certificate.result.as_str());
    json_set(&mut document, "replay_check_status", status);
    json_set(
        &mut document,
        "checked_artifacts",
        checked_artifacts_value(certificate, strict_model, replay_hash, replay_len),
    );
    json_set(
        &mut document,
        "referenced_solver_transcript",
        reference_value("solver_transcript", transcript_hash),
    );
    json_set(
        &mut document,
        "referenced_replay_log",
        reference_value("replay_log", replay_hash),
    );
    json_set(&mut document, "stats", stats_value(stats));
    json_set(
        &mut document,
        "ay_consumer_evidence",
        json_copy(&certificate.consumer_evidence),
    );
    json_set(&mut document, "ay_transcript_metadata", json_copy(&certificate.metadata));
    document
}

/// The counterexample of an error derivation of an acyclic problem.
pub open spec fn acyclic_counterexample(indices: Seq<u64>, model: JsonModel) -> JsonModel {
    JsonModel::Object(
        map![
            "schema"@ => JsonModel::Text("trust_mc.typed-chc-pdr-counterexample/v1"@),
            "source"@ => JsonModel::Text("direct-smt-acyclic-error-derivation"@),
            "derivation_clause_indices"@ => index_array(indices),
            "witness_model"@ => model,
        ],
    )
}

/// The clauses of a derivation, as a document.
pub open spec fn index_array(indices: Seq<u64>) -> JsonModel {
    JsonModel::Array(Seq::new(indices.len(), |i: int| JsonModel::Number(indices[i] as nat)))
}

fn index_value(indices: &Vec<u64>) -> (value: Value)
    ensures
        json::json_content(value) == index_array(indices@),
{
    let mut items: Vec<Value> = Vec::new();
    for i in 0..indices.len()
        invariant
            items@.len() == i,
            forall|j: int|
                0 <= j < i ==> json::json_content(#[trigger] items@[j]) == JsonModel::Number(
                    indices@[j] as nat,
                ),
    {
        items.push(json::json_number(indices[i]));
    }
    assert(json::json_contents(items@) =~= Seq::new(
        indices@.len(),
        |i: int| JsonModel::Number(indices@[i] as nat),
    ));
    json_array(items)
}

pub(crate) fn acyclic_counterexample_value(indices: &Vec<u64>, model: &Value) -> (value: Value)
    ensures
        json::json_content(value) == acyclic_counterexample(indices@, json::json_content(*model)),
{
    let mut document = json_object();
    set_text(&mut document, "schema", "trust_mc.typed-chc-pdr-counterexample/v1");
    set_text(&mut document, "source", "direct-smt-acyclic-error-derivation");
    json_set(&mut document, "derivation_clause_indices", index_value(indices));
    json_set(&mut document, "witness_model", json_copy(model));
    document
}

/// The counterexample of an error derivation of a bounded unrolling.
pub open spec fn unrolled_counterexample(
    k: u32,
    indices: Seq<u64>,
    model: JsonModel,
) -> JsonModel {
    JsonModel::Object(
        map![
            "schema"@ => JsonModel::Text("trust_mc.typed-chc-pdr-counterexample/v1"@),
            "source"@ => JsonModel::Text("direct-smt-bounded-unroll-error-derivation"@),
            "unroll_k"@ => JsonModel::Number(k as nat),
            "derivation_clause_indices"@ => index_array(indices),
            "witness_model"@ => model,
        ],
    )
}

pub(crate) fn unrolled_counterexample_value(k: u32, indices: &Vec<u64>, model: &Value) -> (value:
    Value)
    ensures
        json::json_content(value) == unrolled_counterexample(
            k,
            indices@,
            json::json_content(*model),
        ),
{
    let mut document = json_object();
    set_text(&mut document, "schema", "trust_mc.typed-chc-pdr-counterexample/v1");
    set_text(&mut document, "source", "direct-smt-bounded-unroll-error-derivation");
    set_number(&mut document, "unroll_k", k as u64);
    json_set(&mut document, "derivation_clause_indices", index_value(indices));
    json_set(&mut document, "witness_model", json_copy(model));
    document
}

/// The counterexample that the engine replayed itself.
pub open spec fn replayed_counterexample(step_count: u64, rendering: Seq<char>) -> JsonModel {
    JsonModel::Object(
        map![
            "schema"@ => JsonModel::Text("trust_mc.typed-chc-pdr-counterexample/v1"@),
            "source"@ => JsonModel::Text("ay-chc-replay-verified-counterexample"@),
            "step_count"@ => JsonModel::Number(step_count as nat),
            "counterexample_debug"@ => JsonModel::Text(rendering),
        ],
    )
}

pub(crate) fn replayed_counterexample_value(step_count: u64, rendering: &str) -> (value: Value)
    ensures
        json::json_content(value) == replayed_counterexample(step_count, rendering@),
{
    let mut document = json_object();
    set_text(&mut document, "schema", "trust_mc.typed-chc-pdr-counterexample/v1");
    set_text(&mut document, "source", "ay-chc-replay-verified-counterexample");
    set_number(&mut document, "step_count", step_count);
    set_text(&mut document, "counterexample_debug", rendering);
    document
}

/// The counterexample of a proof run.
pub open spec fn run_counterexample(
    step_count: u64,
    rendering: Seq<char>,
    metadata: JsonModel,
) -> JsonModel {
    JsonModel::Object(
        map![
            "schema"@ => JsonModel::Text("trust_mc.typed-chc-pdr-counterexample/v1"@),
            "step_count"@ => JsonModel::Number(step_count as nat),
            "counterexample_debug"@ => JsonModel::Text(rendering),
            "ay_metadata"@ => metadata,
        ],
    )
}

pub(crate) fn run_counterexample_value(step_count: u64, rendering: &str, metadata: &Value) -> (value:
    Value)
    ensures
        json::json_content(value) == run_counterexample(
            step_count,
            rendering@,
            json::json_content(*metadata),
        ),
{
    let mut document = json_object();
    set_text(&mut document, "schema", "trust_mc.typed-chc-pdr-counterexample/v1");
    set_number(&mut document, "step_count", step_count);
    set_text(&mut document, "counterexample_debug", rendering);
    json_set(&mut document, "ay_metadata", json_copy(metadata));
    document
}

} // verus!
