//! What the documents of a candidate tell.
//!
//! The report of a candidate names its transcript and its replay log by their digests,
//! the replay log names the transcript, and whatever is about an input names the digest
//! of that input. No document grants authority.
use vstd::prelude::*;

use crate::candidates;
use crate::documents;
use crate::documents::{ChcProofRunArtifact, ProofRunCertificate};
use crate::evidence;
use crate::evidence::{ChcPdrStats, EvidenceHash, HashModel, MirChcPdrObligation};
use crate::json;
use crate::json::JsonModel;
use crate::verdicts::CandidateDocuments;

verus! {

/// Whether a document has a field with a value.
pub open spec fn has_field(document: JsonModel, key: Seq<char>, value: JsonModel) -> bool {
    document matches JsonModel::Object(fields) && fields.dom().contains(key) && fields[key]
        == value
}

/// Whether a field of a document names an artifact by its kind and digest.
pub open spec fn names(
    document: JsonModel,
    key: Seq<char>,
    kind: Seq<char>,
    hash: HashModel,
) -> bool {
    document matches JsonModel::Object(fields) && fields.dom().contains(key) && {
        &&& has_field(fields[key], "kind"@, JsonModel::Text(kind))
        &&& has_field(fields[key], "algorithm"@, JsonModel::Text(hash.algorithm))
        &&& has_field(fields[key], "value"@, JsonModel::Text(hash.value))
    }
}

/// Whether a document says of itself that it is no proof and has no authority.
pub open spec fn claims_nothing(document: JsonModel) -> bool {
    &&& has_field(document, "accepted_as_candidate"@, JsonModel::Bool(true))
    &&& has_field(document, "accepted_as_proof"@, JsonModel::Bool(false))
    &&& has_field(document, "authoritative"@, JsonModel::Bool(false))
    &&& has_field(document, "private_authority_not_serialized"@, JsonModel::Bool(true))
}

/// Whether the documents of a candidate are chained by the digests that were measured of
/// them: the log names the transcript, and the report names the transcript and the log.
pub open spec fn chained<H: Fn(&[u8]) -> EvidenceHash>(
    sha256: H,
    found: CandidateDocuments,
    log: JsonModel,
    report: JsonModel,
) -> bool {
    &&& found.replay_log@ == json::json_encoding(log)
    &&& found.checked_report@ == json::json_encoding(report)
    &&& exists|transcript_hash: HashModel, log_hash: HashModel|
        {
            &&& #[trigger] evidence::digests(sha256, found.solver_transcript@, transcript_hash)
            &&& #[trigger] evidence::digests(sha256, found.replay_log@, log_hash)
            &&& names(
                log,
                "referenced_solver_transcript"@,
                "solver_transcript"@,
                transcript_hash,
            )
            &&& names(
                report,
                "referenced_solver_transcript"@,
                "solver_transcript"@,
                transcript_hash,
            )
            &&& names(report, "referenced_replay_log"@, "replay_log"@, log_hash)
        }
}

/// Whether a field of a document tells the size of a problem.
pub open spec fn tells_size(document: JsonModel, stats: ChcPdrStats) -> bool {
    document matches JsonModel::Object(fields) && fields.dom().contains("stats"@) && {
        &&& has_field(
            fields["stats"@],
            "relation_count"@,
            JsonModel::Number(stats.relation_count as nat),
        )
        &&& has_field(
            fields["stats"@],
            "clause_count"@,
            JsonModel::Number(stats.clause_count as nat),
        )
    }
}

proof fn lemma_lengths()
    ensures
        "kind"@.len() == 4,
        "algorithm"@.len() == 9,
        "value"@.len() == 5,
        "schema"@.len() == 6,
        "route"@.len() == 5,
        "obligation_id"@.len() == 13,
        "function_name"@.len() == 13,
        "query_target"@.len() == 12,
        "decision"@.len() == 8,
        "reason"@.len() == 6,
        "normalized_input_sha256"@.len() == 23,
        "check"@.len() == 5,
        "matching_head_count"@.len() == 19,
        "referenced_solver_transcript"@.len() == 28,
        "steps"@.len() == 5,
        "accepted_as_candidate"@.len() == 21,
        "accepted_as_proof"@.len() == 17,
        "authoritative"@.len() == 13,
        "private_authority_not_serialized"@.len() == 32,
        "problem_kind"@.len() == 12,
        "proof_kind"@.len() == 10,
        "referenced_replay_log"@.len() == 21,
        "stats"@.len() == 5,
        "source"@.len() == 6,
        "complete_encoding"@.len() == 17,
        "predicate_count"@.len() == 15,
        "certificate"@.len() == 11,
        "replay"@.len() == 6,
        "proof_status"@.len() == 12,
        "result"@.len() == 6,
        "replay_check_status"@.len() == 19,
        "role"@.len() == 4,
        "digest"@.len() == 6,
        "quantifier_free_invariant_model"@.len() == 31,
        "diagnostic_model_metadata"@.len() == 25,
        "replay_transcript"@.len() == 17,
        "replay_log"@.len() == 10,
        "ay_candidate_accepted"@.len() == 21,
        "ay_artifacts"@.len() == 12,
        "ay_consumer_evidence"@.len() == 20,
        "ay_transcript_metadata"@.len() == 22,
        "fresh_private_consumer_replay_required"@.len() == 38,
        "bytes"@.len() == 5,
        "checked_artifacts"@.len() == 17,
        "derivation_clause_indices"@.len() == 25,
        "witness_model"@.len() == 13,
        "unroll_k"@.len() == 8,
        "relation_count"@.len() == 14,
        "clause_count"@.len() == 12,
{
    reveal_strlit("kind");
    reveal_strlit("algorithm");
    reveal_strlit("value");
    reveal_strlit("schema");
    reveal_strlit("route");
    reveal_strlit("obligation_id");
    reveal_strlit("function_name");
    reveal_strlit("query_target");
    reveal_strlit("decision");
    reveal_strlit("reason");
    reveal_strlit("normalized_input_sha256");
    reveal_strlit("check");
    reveal_strlit("matching_head_count");
    reveal_strlit("referenced_solver_transcript");
    reveal_strlit("steps");
    reveal_strlit("accepted_as_candidate");
    reveal_strlit("accepted_as_proof");
    reveal_strlit("authoritative");
    reveal_strlit("private_authority_not_serialized");
    reveal_strlit("problem_kind");
    reveal_strlit("proof_kind");
    reveal_strlit("referenced_replay_log");
    reveal_strlit("stats");
    reveal_strlit("source");
    reveal_strlit("complete_encoding");
    reveal_strlit("predicate_count");
    reveal_strlit("certificate");
    reveal_strlit("replay");
    reveal_strlit("proof_status");
    reveal_strlit("result");
    reveal_strlit("replay_check_status");
    reveal_strlit("role");
    reveal_strlit("digest");
    reveal_strlit("quantifier_free_invariant_model");
    reveal_strlit("diagnostic_model_metadata");
    reveal_strlit("replay_transcript");
    reveal_strlit("replay_log");
    reveal_strlit("ay_candidate_accepted");
    reveal_strlit("ay_artifacts");
    reveal_strlit("ay_consumer_evidence");
    reveal_strlit("ay_transcript_metadata");
    reveal_strlit("fresh_private_consumer_replay_required");
    reveal_strlit("bytes");
    reveal_strlit("checked_artifacts");
    reveal_strlit("derivation_clause_indices");
    reveal_strlit("witness_model");
    reveal_strlit("unroll_k");
    reveal_strlit("relation_count");
    reveal_strlit("clause_count");
}

proof fn lemma_reference(document: JsonModel, key: Seq<char>, kind: Seq<char>, hash: HashModel)
    requires
        has_field(document, key, documents::reference(kind, hash)),
    ensures
        names(document, key, kind, hash),
{
    lemma_lengths();
}

proof fn lemma_size(document: JsonModel, stats: ChcPdrStats)
    requires
        has_field(document, "stats"@, crate::identity::stats_document(stats)),
    ensures
        tells_size(document, stats),
{
    lemma_lengths();
}

/// Where no rule derives the query target, the transcript is about the input by its
/// digest, the log tells of one scan that found no rule with the query target as head, and
/// the report is no more than a candidate's.
pub proof fn law_trivial_documents<H: Fn(&[u8]) -> EvidenceHash>(
    sha256: H,
    obligation: MirChcPdrObligation,
    input_hash: HashModel,
    stats: ChcPdrStats,
    found: CandidateDocuments,
)
    requires
        candidates::trivial_documents(sha256, obligation, input_hash, stats, found),
    ensures
        exists|transcript: JsonModel, log: JsonModel, report: JsonModel|
            {
                &&& found.solver_transcript@ == #[trigger] json::json_encoding(transcript)
                &&& #[trigger] chained(sha256, found, log, report)
                &&& has_field(
                    transcript,
                    "normalized_input_sha256"@,
                    JsonModel::Text(input_hash.value),
                )
                &&& has_field(
                    transcript,
                    "query_target"@,
                    JsonModel::Text(obligation.vc.query_target@),
                )
                &&& has_field(
                    transcript,
                    "obligation_id"@,
                    JsonModel::Text(obligation.obligation_id@),
                )
                &&& scanned_in_vain(log, obligation.vc.query_target@)
                &&& claims_nothing(report)
                &&& tells_size(report, stats)
            },
{
    lemma_lengths();
    assert("obligation_id"@ != "function_name"@) by {
        reveal_strlit("obligation_id");
        reveal_strlit("function_name");
        assert("obligation_id"@[0] == 'o' && "function_name"@[0] == 'f');
    }
    assert("accepted_as_candidate"@ != "referenced_replay_log"@) by {
        reveal_strlit("accepted_as_candidate");
        reveal_strlit("referenced_replay_log");
        assert("accepted_as_candidate"@[0] == 'a' && "referenced_replay_log"@[0] == 'r');
    }
    let (transcript_hash, replay_hash) = choose|transcript_hash: HashModel, replay_hash: HashModel|
        {
            &&& found.solver_transcript@ == json::json_encoding(
                documents::trivial_transcript(obligation, input_hash),
            )
            &&& #[trigger] evidence::digests(sha256, found.solver_transcript@, transcript_hash)
            &&& found.replay_log@ == json::json_encoding(
                documents::trivial_replay(obligation.vc.query_target@, transcript_hash),
            )
            &&& #[trigger] evidence::digests(sha256, found.replay_log@, replay_hash)
            &&& found.checked_report@ == json::json_encoding(
                documents::trivial_report(transcript_hash, replay_hash, stats),
            )
        };
    let transcript = documents::trivial_transcript(obligation, input_hash);
    let log = documents::trivial_replay(obligation.vc.query_target@, transcript_hash);
    let report = documents::trivial_report(transcript_hash, replay_hash, stats);
    lemma_reference(
        log,
        "referenced_solver_transcript"@,
        "solver_transcript"@,
        transcript_hash,
    );
    lemma_reference(
        report,
        "referenced_solver_transcript"@,
        "solver_transcript"@,
        transcript_hash,
    );
    lemma_reference(report, "referenced_replay_log"@, "replay_log"@, replay_hash);
    lemma_size(report, stats);
    assert(has_field(
        log,
        "steps"@,
        JsonModel::Array(seq![documents::head_scan(obligation.vc.query_target@)]),
    ));
    assert(scanned_in_vain(log, obligation.vc.query_target@));
    assert(chained(sha256, found, log, report));
}

/// Whether a log tells of one step, which found no rule with the query target as head.
pub open spec fn scanned_in_vain(log: JsonModel, query_target: Seq<char>) -> bool {
    log matches JsonModel::Object(fields) && fields.dom().contains("steps"@) && (
    fields["steps"@] matches JsonModel::Array(steps) && steps.len() == 1 && has_field(
        steps[0],
        "query_target"@,
        JsonModel::Text(query_target),
    ) && has_field(steps[0], "matching_head_count"@, JsonModel::Number(0)))
}

/// Where an exhaustive search found no error derivation, the certificate tells of a
/// complete encoding with so many predicates and is about the input by its digest, and
/// neither the log nor the report is more than a candidate's.
pub proof fn law_acyclic_documents<H: Fn(&[u8]) -> EvidenceHash>(
    sha256: H,
    predicate_count: nat,
    input_hash: HashModel,
    stats: ChcPdrStats,
    found: CandidateDocuments,
)
    requires
        candidates::acyclic_documents(sha256, predicate_count, input_hash, stats, found),
    ensures
        exists|certificate: JsonModel, log: JsonModel, report: JsonModel|
            {
                &&& found.solver_transcript@ == #[trigger] json::json_encoding(certificate)
                &&& #[trigger] chained(sha256, found, log, report)
                &&& has_field(
                    certificate,
                    "normalized_input_sha256"@,
                    JsonModel::Text(input_hash.value),
                )
                &&& has_field(certificate, "predicate_count"@, JsonModel::Number(predicate_count))
                &&& has_field(certificate, "complete_encoding"@, JsonModel::Bool(true))
                &&& has_field(certificate, "decision"@, JsonModel::Text("safe"@))
                &&& has_field(
                    log,
                    "normalized_input_sha256"@,
                    JsonModel::Text(input_hash.value),
                )
                &&& has_field(log, "certificate"@, certificate)
                &&& claims_nothing(log)
                &&& claims_nothing(report)
                &&& tells_size(report, stats)
            },
{
    lemma_lengths();
    assert("accepted_as_candidate"@ != "referenced_replay_log"@) by {
        reveal_strlit("accepted_as_candidate");
        reveal_strlit("referenced_replay_log");
        assert("accepted_as_candidate"@[0] == 'a' && "referenced_replay_log"@[0] == 'r');
    }
    let (certificate_hash, replay_hash) = choose|
        certificate_hash: HashModel,
        replay_hash: HashModel,
    |
        {
            &&& found.solver_transcript@ == json::json_encoding(
                documents::acyclic_certificate(predicate_count, input_hash),
            )
            &&& #[trigger] evidence::digests(sha256, found.solver_transcript@, certificate_hash)
            &&& found.replay_log@ == json::json_encoding(
                documents::acyclic_replay(predicate_count, input_hash, certificate_hash),
            )
            &&& #[trigger] evidence::digests(sha256, found.replay_log@, replay_hash)
            &&& found.checked_report@ == json::json_encoding(
                documents::acyclic_report(certificate_hash, replay_hash, stats),
            )
        };
    let certificate = documents::acyclic_certificate(predicate_count, input_hash);
    let log = documents::acyclic_replay(predicate_count, input_hash, certificate_hash);
    let report = documents::acyclic_report(certificate_hash, replay_hash, stats);
    lemma_reference(
        log,
        "referenced_solver_transcript"@,
        "solver_transcript"@,
        certificate_hash,
    );
    lemma_reference(
        report,
        "referenced_solver_transcript"@,
        "solver_transcript"@,
        certificate_hash,
    );
    lemma_reference(report, "referenced_replay_log"@, "replay_log"@, replay_hash);
    lemma_size(report, stats);
    assert(chained(sha256, found, log, report));
}

/// The transcript of a proof run is the run's own, byte for byte. The log and the report
/// tell whether the engine accepted the run, the log names the digest of the input that
/// the run is about, and the report tells that a fresh replay is still required.
pub proof fn law_run_documents<H: Fn(&[u8]) -> EvidenceHash>(
    sha256: H,
    certificate: ProofRunCertificate,
    strict_model: ChcProofRunArtifact,
    stats: ChcPdrStats,
    found: CandidateDocuments,
)
    requires
        candidates::run_documents(sha256, certificate, strict_model, stats, found),
    ensures
        found.solver_transcript@ == certificate.replay_transcript.bytes@,
        exists|log: JsonModel, report: JsonModel|
            {
                &&& #[trigger] chained(sha256, found, log, report)
                &&& has_field(
                    log,
                    "normalized_input_sha256"@,
                    JsonModel::Text(certificate.normalized_input_sha256@),
                )
                &&& has_field(
                    log,
                    "ay_candidate_accepted"@,
                    JsonModel::Bool(certificate.accepted_as_proof),
                )
                &&& has_field(
                    report,
                    "ay_candidate_accepted"@,
                    JsonModel::Bool(certificate.accepted_as_proof),
                )
                &&& has_field(
                    report,
                    "proof_status"@,
                    JsonModel::Text(certificate.proof_status@),
                )
                &&& has_field(report, "result"@, JsonModel::Text(certificate.result@))
                &&& awaits_replay(report)
                &&& tells_size(report, stats)
            },
{
    lemma_lengths();
    assert("ay_candidate_accepted"@ != "referenced_replay_log"@) by {
        reveal_strlit("ay_candidate_accepted");
        reveal_strlit("referenced_replay_log");
        assert("ay_candidate_accepted"@[0] == 'a' && "referenced_replay_log"@[0] == 'r');
    }
    let (transcript_hash, replay_hash) = choose|transcript_hash: HashModel, replay_hash: HashModel|
        {
            &&& found.solver_transcript@ == certificate.replay_transcript.bytes@
            &&& #[trigger] evidence::digests(sha256, found.solver_transcript@, transcript_hash)
            &&& found.replay_log@ == json::json_encoding(
                documents::run_replay(certificate, strict_model, transcript_hash),
            )
            &&& #[trigger] evidence::digests(sha256, found.replay_log@, replay_hash)
            &&& found.checked_report@ == json::json_encoding(
                documents::run_report(
                    certificate,
                    strict_model,
                    transcript_hash,
                    replay_hash,
                    found.replay_log@.len(),
                    stats,
                ),
            )
        };
    let log = documents::run_replay(certificate, strict_model, transcript_hash);
    let report = documents::run_report(
        certificate,
        strict_model,
        transcript_hash,
        replay_hash,
        found.replay_log@.len(),
        stats,
    );
    lemma_reference(
        log,
        "referenced_solver_transcript"@,
        "solver_transcript"@,
        transcript_hash,
    );
    lemma_reference(
        report,
        "referenced_solver_transcript"@,
        "solver_transcript"@,
        transcript_hash,
    );
    lemma_reference(report, "referenced_replay_log"@, "replay_log"@, replay_hash);
    lemma_size(report, stats);
    assert(has_field(report, "replay_check_status"@, documents::pending_replay_status()));
    assert(awaits_replay(report));
    assert(chained(sha256, found, log, report));
}

/// Whether a report tells that a fresh replay is still required and that it has no
/// authority before.
pub open spec fn awaits_replay(report: JsonModel) -> bool {
    report matches JsonModel::Object(fields) && fields.dom().contains("replay_check_status"@) && {
        &&& has_field(
            fields["replay_check_status"@],
            "fresh_private_consumer_replay_required"@,
            JsonModel::Bool(true),
        )
        &&& has_field(
            fields["replay_check_status"@],
            "authoritative"@,
            JsonModel::Bool(false),
        )
    }
}

/// Whether a document tells the clauses of a derivation, in order.
pub open spec fn tells_derivation(document: JsonModel, indices: Seq<u64>) -> bool {
    document matches JsonModel::Object(fields) && fields.dom().contains(
        "derivation_clause_indices"@,
    ) && (fields["derivation_clause_indices"@] matches JsonModel::Array(items) && items.len()
        == indices.len() && forall|i: int|
        0 <= i < indices.len() ==> #[trigger] items[i] == JsonModel::Number(indices[i] as nat))
}

/// A counterexample tells the clauses of its derivation, its model, and the number of
/// retreating steps exactly where it comes from unrolling.
pub proof fn law_counterexamples_tell_their_derivation(
    k: u32,
    indices: Seq<u64>,
    model: JsonModel,
)
    ensures
        ({
            let plain = documents::acyclic_counterexample(indices, model);
            &&& tells_derivation(plain, indices)
            &&& has_field(plain, "witness_model"@, model)
            &&& plain matches JsonModel::Object(fields) && !fields.dom().contains("unroll_k"@)
        }),
        ({
            let unrolled = documents::unrolled_counterexample(k, indices, model);
            &&& tells_derivation(unrolled, indices)
            &&& has_field(unrolled, "witness_model"@, model)
            &&& has_field(unrolled, "unroll_k"@, JsonModel::Number(k as nat))
        }),
{
    lemma_lengths();
}

} // verus!
