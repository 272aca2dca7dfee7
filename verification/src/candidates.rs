//! Proof candidates: what a decision is turned into.
use vstd::prelude::*;
use vstd::string::*;

use crate::documents;
use crate::documents::{
    acyclic_certificate_value, acyclic_replay_value, acyclic_report_value, run_replay_value,
    run_report_value, trivial_replay_value, trivial_report_value, trivial_transcript_value,
    ChcProofRunArtifact, ProofRunCertificate,
};
use crate::evidence;
use crate::evidence::{
    digest_bytes, digest_text, undecided_outcome, ArtifactBytes, ChcPdrSolveOutcome, ChcPdrStats,
    EvidenceHash, HashModel, MirChcPdrObligation, OutcomeModel,
};
use crate::identity::{FullVerificationCacheKey, NativeTypedChcPdrNormalizedInput};
use crate::json;
use crate::json::json_bytes;
use crate::text;
use crate::text::{concat3, same_text};
use crate::verdicts;
use crate::verdicts::{
    typed_proved_verdict, CandidateBytes, CandidateDocuments, ChcPdrProofEvidence, ChcPdrProofKind,
    FullVerificationArtifact, FullVerificationVerdict, ReplayWording,
};

verus! {

/// The outcome for an obligation whose query target no rule derives.
pub open spec fn trivial_outcome(
    obligation: MirChcPdrObligation,
    wording: ReplayWording,
) -> OutcomeModel {
    evidence::undecided(
        obligation.obligation_id@,
        wording.chc_validity@,
        obligation.size(),
        text::concat(
            seq![
                "private structural derivation found no Horn rule for typed CHC query target `"@,
                obligation.vc.query_target@,
                "`; public evidence remains a candidate"@,
            ],
        ),
    )
}

/// The outcome for an obligation whose query target no rule derives.
pub fn typed_trivial_safe_outcome(obligation: &MirChcPdrObligation, wording: &ReplayWording) -> (outcome:
    ChcPdrSolveOutcome)
    ensures
        outcome@ == trivial_outcome(*obligation, *wording),
{
    let diagnostic = concat3(
        "private structural derivation found no Horn rule for typed CHC query target `",
        obligation.vc.query_target.as_str(),
        "`; public evidence remains a candidate",
    );
    undecided_outcome(
        obligation.obligation_id.as_str(),
        wording.chc_validity.as_str(),
        obligation.stats(),
        diagnostic.as_str(),
    )
}

/// Whether documents tell that no rule derives the query target.
pub open spec fn trivial_documents<H: Fn(&[u8]) -> EvidenceHash>(
    sha256: H,
    obligation: MirChcPdrObligation,
    input_hash: HashModel,
    stats: ChcPdrStats,
    found: CandidateDocuments,
) -> bool {
    exists|transcript_hash: HashModel, replay_hash: HashModel|
        {
            &&& found.solver_transcript@ == json::json_encoding(
                documents::trivial_transcript(obligation, input_hash),
            )
            &&& #[trigger] evidence::digests(sha256, found.solver_transcript@, transcript_hash)
            &&& found.replay_log@ == json::json_encoding(
                documents::trivial_replay(obligation.vc.query_target@, transcript_hash),
            )
            &&& #[trigger] evidence::digests(sha256, found.replay_log@, replay_hash)
            &&& found.checked_report@ == json::json_encoding(
                documents::trivial_report(transcript_hash, replay_hash, stats),
            )
        }
}

fn trivial_safe_documents<H: Fn(&[u8]) -> EvidenceHash>(
    obligation: &MirChcPdrObligation,
    input_hash: &EvidenceHash,
    stats: ChcPdrStats,
    sha256: &H,
) -> (found: CandidateDocuments)
    requires
        evidence::total(*sha256),
    ensures
        trivial_documents(*sha256, *obligation, input_hash@, stats, found),
{
    let solver_transcript = json_bytes(&trivial_transcript_value(obligation, input_hash));
    let transcript_hash = digest_bytes(sha256, &solver_transcript);
    let replay_log = json_bytes(
        &trivial_replay_value(obligation.vc.query_target.as_str(), &transcript_hash),
    );
    let replay_hash = digest_bytes(sha256, &replay_log);
    let checked_report = json_bytes(&trivial_report_value(&transcript_hash, &replay_hash, stats));
    let found = CandidateDocuments { solver_transcript, replay_log, checked_report };
    assert(evidence::digests(*sha256, found.solver_transcript@, transcript_hash@));
    assert(evidence::digests(*sha256, found.replay_log@, replay_hash@));
    found
}

/// Whether a verdict is what becomes of a candidate with given documents.
pub open spec fn documented_verdict<H, L, P>(
    sha256: H,
    link: L,
    publish: P,
    obligation: MirChcPdrObligation,
    normalized: NativeTypedChcPdrNormalizedInput,
    cache_key: HashModel,
    stats: ChcPdrStats,
    proof_kind: ChcPdrProofKind,
    found: CandidateDocuments,
    strict_model: Option<(usize, Seq<u8>)>,
    verdict: FullVerificationVerdict,
) -> bool where
    H: Fn(&[u8]) -> EvidenceHash,
    L: Fn(&MirChcPdrObligation, &CandidateBytes) -> Option<ChcPdrProofEvidence>,
    P: Fn(&ArtifactBytes) -> Option<FullVerificationArtifact>,
 {
    exists|candidate: CandidateBytes|
        verdicts::candidate_of(
            obligation.obligation_id@,
            proof_kind,
            stats,
            normalized.normalized_input@,
            found,
            strict_model,
            candidate,
        ) && #[trigger] verdicts::candidate_verdict(
            sha256,
            link,
            publish,
            obligation,
            normalized,
            cache_key,
            candidate,
            verdict,
        )
}

/// Whether a verdict is that of an obligation whose query target no rule derives.
pub open spec fn trivial_verdict<H, L, P>(
    sha256: H,
    link: L,
    publish: P,
    obligation: MirChcPdrObligation,
    normalized: NativeTypedChcPdrNormalizedInput,
    cache_key: HashModel,
    stats: ChcPdrStats,
    verdict: FullVerificationVerdict,
) -> bool where
    H: Fn(&[u8]) -> EvidenceHash,
    L: Fn(&MirChcPdrObligation, &CandidateBytes) -> Option<ChcPdrProofEvidence>,
    P: Fn(&ArtifactBytes) -> Option<FullVerificationArtifact>,
 {
    exists|input_hash: HashModel, found: CandidateDocuments|
        #[trigger] evidence::digests(
            sha256,
            vstd::utf8::encode_utf8(normalized.normalized_input@),
            input_hash,
        ) && trivial_documents(
            sha256,
            obligation,
            input_hash,
            stats,
            found,
        ) && #[trigger] documented_verdict(
            sha256,
            link,
            publish,
            obligation,
            normalized,
            cache_key,
            stats,
            ChcPdrProofKind::ChcValidity,
            found,
            None,
            verdict,
        )
}

/// The verdict for an obligation whose query target no rule derives.
pub fn typed_trivial_safe_verdict<H, L, P>(
    obligation: &MirChcPdrObligation,
    stats: ChcPdrStats,
    normalized: &NativeTypedChcPdrNormalizedInput,
    cache_key: &FullVerificationCacheKey,
    sha256: &H,
    link: &L,
    publish: &P,
) -> (verdict: FullVerificationVerdict) where
    H: Fn(&[u8]) -> EvidenceHash,
    L: Fn(&MirChcPdrObligation, &CandidateBytes) -> Option<ChcPdrProofEvidence>,
    P: Fn(&ArtifactBytes) -> Option<FullVerificationArtifact>,

    requires
        evidence::total(*sha256),
        forall|candidate: &CandidateBytes| #[trigger] link.requires((obligation, candidate)),
        forall|bytes: &ArtifactBytes| #[trigger] publish.requires((bytes,)),
    ensures
        trivial_verdict(
            *sha256,
            *link,
            *publish,
            *obligation,
            *normalized,
            cache_key.key@,
            stats,
            verdict,
        ),
{
    let input_hash = digest_text(sha256, normalized.normalized_input.as_str());
    let found = trivial_safe_documents(
        obligation,
        &input_hash,
        stats,
        sha256,
    );
    let ghost kept = found;
    let verdict = typed_proved_verdict(
        obligation,
        ChcPdrProofKind::ChcValidity,
        stats,
        normalized,
        cache_key,
        found,
        None,
        sha256,
        link,
        publish,
    );
    assert(documented_verdict(
        *sha256,
        *link,
        *publish,
        *obligation,
        *normalized,
        cache_key.key@,
        stats,
        ChcPdrProofKind::ChcValidity,
        kept,
        None,
        verdict,
    ));
    verdict
}

/// Whether documents tell that an exhaustive search found no error derivation.
pub open spec fn acyclic_documents<H: Fn(&[u8]) -> EvidenceHash>(
    sha256: H,
    predicate_count: nat,
    input_hash: HashModel,
    stats: ChcPdrStats,
    found: CandidateDocuments,
) -> bool {
    exists|certificate_hash: HashModel, replay_hash: HashModel|
        {
            &&& found.solver_transcript@ == json::json_encoding(
                documents::acyclic_certificate(predicate_count, input_hash),
            )
            &&& #[trigger] evidence::digests(sha256, found.solver_transcript@, certificate_hash)
            &&& found.replay_log@ == json::json_encoding(
                documents::acyclic_replay(predicate_count, input_hash, certificate_hash),
            )
            &&& #[trigger] evidence::digests(sha256, found.replay_log@, replay_hash)
            &&& found.checked_report@ == json::json_encoding(
                documents::acyclic_report(certificate_hash, replay_hash, stats),
            )
        }
}

/// Whether a verdict is that of an exhaustive search without an error derivation.
pub open spec fn acyclic_safe_verdict<H, L, P>(
    sha256: H,
    link: L,
    publish: P,
    obligation: MirChcPdrObligation,
    normalized: NativeTypedChcPdrNormalizedInput,
    cache_key: HashModel,
    stats: ChcPdrStats,
    predicate_count: nat,
    verdict: FullVerificationVerdict,
) -> bool where
    H: Fn(&[u8]) -> EvidenceHash,
    L: Fn(&MirChcPdrObligation, &CandidateBytes) -> Option<ChcPdrProofEvidence>,
    P: Fn(&ArtifactBytes) -> Option<FullVerificationArtifact>,
 {
    exists|input_hash: HashModel, found: CandidateDocuments|
        #[trigger] evidence::digests(
            sha256,
            vstd::utf8::encode_utf8(normalized.normalized_input@),
            input_hash,
        ) && acyclic_documents(
            sha256,
            predicate_count,
            input_hash,
            stats,
            found,
        ) && #[trigger] documented_verdict(
            sha256,
            link,
            publish,
            obligation,
            normalized,
            cache_key,
            stats,
            ChcPdrProofKind::ChcValidity,
            found,
            None,
            verdict,
        )
}

/// The verdict for an exhaustive search without an error derivation.
pub(crate) fn typed_acyclic_safe_verdict<H, L, P>(
    obligation: &MirChcPdrObligation,
    stats: ChcPdrStats,
    predicate_count: usize,
    normalized: &NativeTypedChcPdrNormalizedInput,
    cache_key: &FullVerificationCacheKey,
    sha256: &H,
    link: &L,
    publish: &P,
) -> (verdict: FullVerificationVerdict) where
    H: Fn(&[u8]) -> EvidenceHash,
    L: Fn(&MirChcPdrObligation, &CandidateBytes) -> Option<ChcPdrProofEvidence>,
    P: Fn(&ArtifactBytes) -> Option<FullVerificationArtifact>,

    requires
        evidence::total(*sha256),
        forall|candidate: &CandidateBytes| #[trigger] link.requires((obligation, candidate)),
        forall|bytes: &ArtifactBytes| #[trigger] publish.requires((bytes,)),
    ensures
        acyclic_safe_verdict(
            *sha256,
            *link,
            *publish,
            *obligation,
            *normalized,
            cache_key.key@,
            stats,
            predicate_count as nat,
            verdict,
        ),
{
    let input_hash = digest_text(sha256, normalized.normalized_input.as_str());
    let solver_transcript = json_bytes(&acyclic_certificate_value(predicate_count, &input_hash));
    let certificate_hash = digest_bytes(sha256, &solver_transcript);
    let replay_log = json_bytes(
        &acyclic_replay_value(predicate_count, &input_hash, &certificate_hash),
    );
    let replay_hash = digest_bytes(sha256, &replay_log);
    let checked_report = json_bytes(&acyclic_report_value(&certificate_hash, &replay_hash, stats));
    let found = CandidateDocuments { solver_transcript, replay_log, checked_report };
    assert(evidence::digests(*sha256, found.solver_transcript@, certificate_hash@));
    assert(evidence::digests(*sha256, found.replay_log@, replay_hash@));
    let ghost kept = found;
    assert(acyclic_documents(*sha256, predicate_count as nat, input_hash@, stats, kept));
    let verdict = typed_proved_verdict(
        obligation,
        ChcPdrProofKind::ChcValidity,
        stats,
        normalized,
        cache_key,
        found,
        None,
        sha256,
        link,
        publish,
    );
    assert(documented_verdict(
        *sha256,
        *link,
        *publish,
        *obligation,
        *normalized,
        cache_key.key@,
        stats,
        ChcPdrProofKind::ChcValidity,
        kept,
        None,
        verdict,
    ));
    verdict
}

/// What a proof run found.
#[derive(Debug, PartialEq, Eq)]
pub enum VerifiedChcResult {
    /// An invariant that interprets the given number of predicates.
    Safe { model_len: usize },
    /// A counterexample that the engine replayed, with its steps and rendering.
    Unsafe { step_count: u64, rendering: String },
    /// Nothing, with the reason.
    Unknown { reason: String },
    /// A result of another kind.
    Unrecognized,
}

/// Whether documents tell of a proof run.
pub open spec fn run_documents<H: Fn(&[u8]) -> EvidenceHash>(
    sha256: H,
    certificate: ProofRunCertificate,
    strict_model: ChcProofRunArtifact,
    stats: ChcPdrStats,
    found: CandidateDocuments,
) -> bool {
    exists|transcript_hash: HashModel, replay_hash: HashModel|
        {
            &&& found.solver_transcript@ == certificate.replay_transcript.bytes@
            &&& #[trigger] evidence::digests(sha256, found.solver_transcript@, transcript_hash)
            &&& found.replay_log@ == json::json_encoding(
                documents::run_replay(certificate, strict_model, transcript_hash),
            )
            &&& #[trigger] evidence::digests(sha256, found.replay_log@, replay_hash)
            &&& found.checked_report@ == json::json_encoding(
                documents::run_report(
                    certificate,
                    strict_model,
                    transcript_hash,
                    replay_hash,
                    found.replay_log@.len(),
                    stats,
                ),
            )
        }
}

/// Whether a run may count as a proof about an input: it is safe, the engine
/// accepts it as a proof, and its certificate names the digest of the input.
pub open spec fn proves_input<H: Fn(&[u8]) -> EvidenceHash>(
    sha256: H,
    run: VerifiedChcResult,
    certificate: ProofRunCertificate,
    input: Seq<char>,
    yes: bool,
) -> bool {
    if run is Safe && certificate.accepted_as_proof {
        exists|input_hash: HashModel| #[trigger]
            evidence::digests(sha256, vstd::utf8::encode_utf8(input), input_hash) && yes == (
            certificate.normalized_input_sha256@ == input_hash.value)
    } else {
        !yes
    }
}

/// The invariant that a run transports: one in the strict form, where the run
/// `proves` the input.
pub open spec fn transported(
    run: VerifiedChcResult,
    certificate: ProofRunCertificate,
    proves: bool,
) -> Option<(usize, ChcProofRunArtifact)> {
    match (run, certificate.quantifier_free_invariant_model) {
        (VerifiedChcResult::Safe { model_len }, Some(strict_model)) if proves => Some(
            (model_len, strict_model),
        ),
        _ => None,
    }
}

/// The outcome for a verdict on an invariant.
pub open spec fn invariant_outcome(
    obligation: MirChcPdrObligation,
    wording: ReplayWording,
    stats: ChcPdrStats,
    verdict: FullVerificationVerdict,
) -> OutcomeModel {
    match verdict {
        FullVerificationVerdict::Unknown { reason } => evidence::undecided(
            obligation.obligation_id@,
            reason@,
            stats,
            "typed PDR evidence materialization failed closed"@,
        ),
        _ => evidence::undecided(
            obligation.obligation_id@,
            wording.pdr_invariant@,
            stats,
            "transported AY PDR candidate awaits fresh private consumer replay"@,
        ),
    }
}

/// Whether an outcome and a verdict are what becomes of a transported invariant.
pub open spec fn transport_result<H, L, P>(
    sha256: H,
    link: L,
    publish: P,
    certificate: ProofRunCertificate,
    strict_model: (usize, ChcProofRunArtifact),
    obligation: MirChcPdrObligation,
    normalized: NativeTypedChcPdrNormalizedInput,
    cache_key: HashModel,
    stats: ChcPdrStats,
    wording: ReplayWording,
    outcome: OutcomeModel,
    verdict: FullVerificationVerdict,
) -> bool where
    H: Fn(&[u8]) -> EvidenceHash,
    L: Fn(&MirChcPdrObligation, &CandidateBytes) -> Option<ChcPdrProofEvidence>,
    P: Fn(&ArtifactBytes) -> Option<FullVerificationArtifact>,
 {
    &&& outcome == invariant_outcome(obligation, wording, stats, verdict)
    &&& exists|found: CandidateDocuments|
        run_documents(sha256, certificate, strict_model.1, stats, found) && #[trigger]
        documented_verdict(
            sha256,
            link,
            publish,
            obligation,
            normalized,
            cache_key,
            stats,
            ChcPdrProofKind::PdrInvariant,
            found,
            Some((strict_model.0, strict_model.1.bytes@)),
            verdict,
        )
}

fn copy_bytes(bytes: &Vec<u8>) -> (copy: Vec<u8>)
    ensures
        copy@ == bytes@,
{
    let mut copy: Vec<u8> = Vec::new();
    for i in 0..bytes.len()
        invariant
            copy@ == bytes@.take(i as int),
    {
        copy.push(bytes[i]);
        assert(copy@ =~= bytes@.take(i + 1));
    }
    assert(copy@ =~= bytes@);
    copy
}

/// The candidate of a proof run. There is one exactly where the run is safe, the
/// engine accepts it as a proof about this very input, and it comes with an
/// invariant in the strict form. It stays undecided until it is replayed afresh.
pub fn emit_pdr_invariant_from_run<H, L, P>(
    run: &VerifiedChcResult,
    certificate: &ProofRunCertificate,
    obligation: &MirChcPdrObligation,
    stats: ChcPdrStats,
    normalized: &NativeTypedChcPdrNormalizedInput,
    cache_key: &FullVerificationCacheKey,
    wording: &ReplayWording,
    sha256: &H,
    link: &L,
    publish: &P,
) -> (emitted: Option<(ChcPdrSolveOutcome, FullVerificationVerdict)>) where
    H: Fn(&[u8]) -> EvidenceHash,
    L: Fn(&MirChcPdrObligation, &CandidateBytes) -> Option<ChcPdrProofEvidence>,
    P: Fn(&ArtifactBytes) -> Option<FullVerificationArtifact>,

    requires
        evidence::total(*sha256),
        forall|candidate: &CandidateBytes| #[trigger] link.requires((obligation, candidate)),
        forall|bytes: &ArtifactBytes| #[trigger] publish.requires((bytes,)),
    ensures
        exists|proves: bool| #[trigger]
            proves_input(
                *sha256,
                *run,
                *certificate,
                normalized.normalized_input@,
                proves,
            ) && match (emitted, transported(*run, *certificate, proves)) {
                (Some((outcome, verdict)), Some(strict_model)) => transport_result(
                    *sha256,
                    *link,
                    *publish,
                    *certificate,
                    strict_model,
                    *obligation,
                    *normalized,
                    cache_key.key@,
                    stats,
                    *wording,
                    outcome@,
                    verdict,
                ),
                (None, None) => true,
                _ => false,
            },
{
    let model_len: usize = match run {
        VerifiedChcResult::Safe { model_len } => *model_len,
        _ => {
            assert(proves_input(
                *sha256,
                *run,
                *certificate,
                normalized.normalized_input@,
                false,
            ));
            return None;
        },
    };
    let proves = certificate.accepted_as_proof && {
        let input_hash = digest_text(sha256, normalized.normalized_input.as_str());
        same_text(certificate.normalized_input_sha256.as_str(), input_hash.value.as_str())
    };
    assert(proves_input(*sha256, *run, *certificate, normalized.normalized_input@, proves));
    if !proves {
        return None;
    }
    let strict_model = match &certificate.quantifier_free_invariant_model {
        Some(strict_model) => strict_model,
        None => {
            return None;
        },
    };
    let solver_transcript = copy_bytes(&certificate.replay_transcript.bytes);
    let transcript_hash = digest_bytes(sha256, &solver_transcript);
    let replay_log = json_bytes(&run_replay_value(certificate, strict_model, &transcript_hash));
    let replay_hash = digest_bytes(sha256, &replay_log);
    let checked_report = json_bytes(
        &run_report_value(
            certificate,
            strict_model,
            &transcript_hash,
            &replay_hash,
            replay_log.len(),
            stats,
        ),
    );
    let found = CandidateDocuments { solver_transcript, replay_log, checked_report };
    assert(evidence::digests(*sha256, found.solver_transcript@, transcript_hash@));
    assert(evidence::digests(*sha256, found.replay_log@, replay_hash@));
    let ghost kept = found;
    assert(run_documents(*sha256, *certificate, *strict_model, stats, kept));
    let verdict = typed_proved_verdict(
        obligation,
        ChcPdrProofKind::PdrInvariant,
        stats,
        normalized,
        cache_key,
        found,
        Some((model_len, copy_bytes(&strict_model.bytes))),
        sha256,
        link,
        publish,
    );
    assert(documented_verdict(
        *sha256,
        *link,
        *publish,
        *obligation,
        *normalized,
        cache_key.key@,
        stats,
        ChcPdrProofKind::PdrInvariant,
        kept,
        Some((model_len, strict_model.bytes@)),
        verdict,
    ));
    let id = obligation.obligation_id.as_str();
    let outcome = match &verdict {
        FullVerificationVerdict::Unknown { reason } => undecided_outcome(
            id,
            reason.as_str(),
            stats,
            "typed PDR evidence materialization failed closed",
        ),
        _ => undecided_outcome(
            id,
            wording.pdr_invariant.as_str(),
            stats,
            "transported AY PDR candidate awaits fresh private consumer replay",
        ),
    };
    proof {
        let own = (model_len, *strict_model);
        assert(transported(*run, *certificate, proves) == Some(own));
        assert(outcome@ == invariant_outcome(*obligation, *wording, stats, verdict));
        assert(run_documents(*sha256, *certificate, own.1, stats, kept));
        assert(documented_verdict(
            *sha256,
            *link,
            *publish,
            *obligation,
            *normalized,
            cache_key.key@,
            stats,
            ChcPdrProofKind::PdrInvariant,
            kept,
            Some((own.0, own.1.bytes@)),
            verdict,
        ));
        assert(transport_result(
            *sha256,
            *link,
            *publish,
            *certificate,
            own,
            *obligation,
            *normalized,
            cache_key.key@,
            stats,
            *wording,
            outcome@,
            verdict,
        ));
    }
    Some((outcome, verdict))
}

} // verus!
