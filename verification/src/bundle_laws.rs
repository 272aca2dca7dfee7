//! What the rows of a bundle promise.
use serde_json::Value;
use vstd::prelude::*;

use crate::admission::{AdmissionProfile, NativeVerificationBundle};
use crate::admission_laws;
use crate::bundle;
use crate::bundle::{
    BundleBackend, BundleRow, NativeTrustIrChcPdrBundleEvidence, NativeTrustIrChcPdrEvidence,
    NativeTrustIrChcPdrRefuted, NativeTrustIrChcPdrRunner, NativeTrustMcChcPdrObligation,
    TranslateOptions,
};
use crate::chc::ChcProblem;
use crate::error;
use crate::error::{ErrorModel, NativeSolveError, NativeSolveResult, ProofEvidenceRejection};
use crate::evidence::{
    ArtifactBytes, ChcPdrSolveOptions, ChcPdrSolveStatus, EvidenceHash, MirChcPdrObligation,
    SolveTimeout,
};
use crate::identity::{FullVerificationCacheKey, FullVerificationCacheKeyParts};
use crate::json;
use crate::lanes::{AcyclicDecision, LoopLaneRun, ProofRun};
use crate::seal;
use crate::seal::{Admission, TypedChcPdrFullVerification};
use crate::solve;
use crate::transport::{NativeTypedChcPdrProofTransport, NativeTypedProofStrength};
use crate::verdicts::{
    CandidateBytes, ChcPdrProofEvidence, ChcPdrProofKind, FullVerificationArtifact,
    FullVerificationVerdict,
};

verus! {

/// A sealing adds a seal only to an admitted claim of validity.
proof fn lemma_only_validity_is_sealed<N, C, K, H, L, P, D, W, S, R, A, F, G>(
    backend: BundleBackend<N, C, K, H, L, P, D, W, S, R, A, F, G>,
    obligation: MirChcPdrObligation,
    options: ChcPdrSolveOptions,
    admission: Admission,
    verdict_form: Value,
    verification: TypedChcPdrFullVerification,
    sealed: TypedChcPdrFullVerification,
) where
    N: Fn(&ChcProblem) -> String,
    C: Fn(&str) -> String,
    K: Fn(&FullVerificationCacheKeyParts) -> FullVerificationCacheKey,
    H: Fn(&[u8]) -> EvidenceHash,
    L: Fn(&MirChcPdrObligation, &CandidateBytes) -> Option<ChcPdrProofEvidence>,
    P: Fn(&ArtifactBytes) -> Option<FullVerificationArtifact>,
    D: Fn(&ChcProblem, SolveTimeout) -> Option<AcyclicDecision>,
    W: Fn(&ChcProblem, SolveTimeout) -> Option<LoopLaneRun>,
    S: Fn(&ChcProblem, u32) -> Option<AcyclicDecision>,
    R: Fn(&ChcProblem, SolveTimeout) -> Option<Result<ProofRun, String>>,
    A: Fn(&FullVerificationVerdict) -> Admission,
    F: Fn(&FullVerificationVerdict) -> Value,
    G: Fn(&ProofEvidenceRejection) -> String,

    requires
        backend.seals(obligation, options, admission, verdict_form, verification, sealed),
        verification.seal() is None,
    ensures
        sealed.same_response(verification),
        sealed.seal() is Some ==> admission == Ok::<ChcPdrProofKind, ProofEvidenceRejection>(
            ChcPdrProofKind::ChcValidity,
        ) && verification.verdict is Proved && sealed.seal()->0 is ChcValidity,
{
}

/// A request that is delivered as proved has a sealed response with a proof
/// candidate, and a snapshot that is bound to the request. What is proved is
/// validity; an invariant of a whole function proves no single request.
pub proof fn law_delivered_proofs_are_sealed<N, C, K, H, L, P, D, W, S, R, A, F, G>(
    backend: BundleBackend<N, C, K, H, L, P, D, W, S, R, A, F, G>,
    options: ChcPdrSolveOptions,
    translated: NativeTrustMcChcPdrObligation,
    own: NativeTrustIrChcPdrEvidence,
) where
    N: Fn(&ChcProblem) -> String,
    C: Fn(&str) -> String,
    K: Fn(&FullVerificationCacheKeyParts) -> FullVerificationCacheKey,
    H: Fn(&[u8]) -> EvidenceHash,
    L: Fn(&MirChcPdrObligation, &CandidateBytes) -> Option<ChcPdrProofEvidence>,
    P: Fn(&ArtifactBytes) -> Option<FullVerificationArtifact>,
    D: Fn(&ChcProblem, SolveTimeout) -> Option<AcyclicDecision>,
    W: Fn(&ChcProblem, SolveTimeout) -> Option<LoopLaneRun>,
    S: Fn(&ChcProblem, u32) -> Option<AcyclicDecision>,
    R: Fn(&ChcProblem, SolveTimeout) -> Option<Result<ProofRun, String>>,
    A: Fn(&FullVerificationVerdict) -> Admission,
    F: Fn(&FullVerificationVerdict) -> Value,
    G: Fn(&ProofEvidenceRejection) -> String,

    requires
        backend.delivers(options, translated, Ok(BundleRow::Proved(own))),
    ensures
        own.translated == translated,
        own.verification.seal() is Some,
        own.verification.seal()->0 is ChcValidity,
        own.verification.verdict is Proved,
        own.transport.proof_strength == NativeTypedProofStrength::ChcValidity,
        bundle::binding_fault(translated, own.transport) is None,
{
    let row: NativeSolveResult<BundleRow> = Ok(BundleRow::Proved(own));
    let solved = choose|solved: NativeSolveResult<TypedChcPdrFullVerification>| #[trigger]
        solve::answers_request(
            translated.obligation,
            options,
            backend.build,
            backend.wording,
            backend.layer,
            backend.engines,
            solved,
        ) && match solved {
            Err(fault) => backend.reports(translated, fault, row),
            Ok(verification) => solve::sound_response(
                translated.obligation,
                backend.wording,
                verification,
            ) && backend.delivers_verified(options, translated, verification, row),
        };
    let verification = solved->Ok_0;
    let (admission, verdict_form, sealed) = choose|
        admission: Admission,
        verdict_form: Value,
        sealed: TypedChcPdrFullVerification,
    |
        {
            &&& #[trigger] backend.policy.ensures((&verification.verdict,), admission)
            &&& #[trigger] backend.form.ensures((&verification.verdict,), verdict_form)
            &&& #[trigger] backend.seals(
                translated.obligation,
                options,
                admission,
                verdict_form,
                verification,
                sealed,
            )
            &&& backend.delivers_sealed(translated, admission, verdict_form, sealed, row)
        };
    lemma_only_validity_is_sealed(
        backend,
        translated.obligation,
        options,
        admission,
        verdict_form,
        verification,
        sealed,
    );
    let form = json::json_content(verdict_form);
    let granted = choose|granted: NativeSolveResult<ChcPdrProofKind>| #[trigger]
        seal::authorizes(
            backend.layer.sha256,
            sealed,
            admission,
            backend.wording,
            form,
            granted,
        ) && granted is Ok && own.transport.proof_strength
            == crate::transport::strength_of(granted->Ok_0);
    seal::law_no_authority_without_a_seal(
        backend.layer.sha256,
        sealed,
        admission,
        backend.wording,
        form,
        granted,
    );
}

/// A request that is delivered as refuted was refuted by a model of an unrolled
/// copy, has no unsupported construct, and carries no authority.
pub proof fn law_delivered_refutations_carry_no_proof<N, C, K, H, L, P, D, W, S, R, A, F, G>(
    backend: BundleBackend<N, C, K, H, L, P, D, W, S, R, A, F, G>,
    options: ChcPdrSolveOptions,
    translated: NativeTrustMcChcPdrObligation,
    own: NativeTrustIrChcPdrRefuted,
) where
    N: Fn(&ChcProblem) -> String,
    C: Fn(&str) -> String,
    K: Fn(&FullVerificationCacheKeyParts) -> FullVerificationCacheKey,
    H: Fn(&[u8]) -> EvidenceHash,
    L: Fn(&MirChcPdrObligation, &CandidateBytes) -> Option<ChcPdrProofEvidence>,
    P: Fn(&ArtifactBytes) -> Option<FullVerificationArtifact>,
    D: Fn(&ChcProblem, SolveTimeout) -> Option<AcyclicDecision>,
    W: Fn(&ChcProblem, SolveTimeout) -> Option<LoopLaneRun>,
    S: Fn(&ChcProblem, u32) -> Option<AcyclicDecision>,
    R: Fn(&ChcProblem, SolveTimeout) -> Option<Result<ProofRun, String>>,
    A: Fn(&FullVerificationVerdict) -> Admission,
    F: Fn(&FullVerificationVerdict) -> Value,
    G: Fn(&ProofEvidenceRejection) -> String,

    requires
        backend.total(),
        backend.delivers(options, translated, Ok(BundleRow::Refuted(own))),
    ensures
        own.translated == translated,
        bundle::refuted_by_unrolling(own.verification.outcome.status),
        own.verification.verdict is Failed,
        own.verification.seal() is None,
        translated.obligation.fail_closed_sites() == 0,
        translated.obligation.native_metadata matches Some(metadata)
            ==> metadata.fail_closed_lowering_site_count == 0,
{
    let row: NativeSolveResult<BundleRow> = Ok(BundleRow::Refuted(own));
    let solved = choose|solved: NativeSolveResult<TypedChcPdrFullVerification>| #[trigger]
        solve::answers_request(
            translated.obligation,
            options,
            backend.build,
            backend.wording,
            backend.layer,
            backend.engines,
            solved,
        ) && match solved {
            Err(fault) => backend.reports(translated, fault, row),
            Ok(verification) => solve::sound_response(
                translated.obligation,
                backend.wording,
                verification,
            ) && backend.delivers_verified(options, translated, verification, row),
        };
    let verification = solved->Ok_0;
    let (admission, verdict_form, sealed) = choose|
        admission: Admission,
        verdict_form: Value,
        sealed: TypedChcPdrFullVerification,
    |
        {
            &&& #[trigger] backend.policy.ensures((&verification.verdict,), admission)
            &&& #[trigger] backend.form.ensures((&verification.verdict,), verdict_form)
            &&& #[trigger] backend.seals(
                translated.obligation,
                options,
                admission,
                verdict_form,
                verification,
                sealed,
            )
            &&& backend.delivers_sealed(translated, admission, verdict_form, sealed, row)
        };
    lemma_only_validity_is_sealed(
        backend,
        translated.obligation,
        options,
        admission,
        verdict_form,
        verification,
        sealed,
    );
}

/// Only an invalid input costs the bundle: a solver that does not decide, a refused
/// candidate or an unsupported request never does.
pub proof fn law_only_structural_errors_cost_the_bundle<N, C, K, H, L, P, D, W, S, R, A, F, G>(
    backend: BundleBackend<N, C, K, H, L, P, D, W, S, R, A, F, G>,
    options: ChcPdrSolveOptions,
    translated: NativeTrustMcChcPdrObligation,
    fault: NativeSolveError,
) where
    N: Fn(&ChcProblem) -> String,
    C: Fn(&str) -> String,
    K: Fn(&FullVerificationCacheKeyParts) -> FullVerificationCacheKey,
    H: Fn(&[u8]) -> EvidenceHash,
    L: Fn(&MirChcPdrObligation, &CandidateBytes) -> Option<ChcPdrProofEvidence>,
    P: Fn(&ArtifactBytes) -> Option<FullVerificationArtifact>,
    D: Fn(&ChcProblem, SolveTimeout) -> Option<AcyclicDecision>,
    W: Fn(&ChcProblem, SolveTimeout) -> Option<LoopLaneRun>,
    S: Fn(&ChcProblem, u32) -> Option<AcyclicDecision>,
    R: Fn(&ChcProblem, SolveTimeout) -> Option<Result<ProofRun, String>>,
    A: Fn(&FullVerificationVerdict) -> Admission,
    F: Fn(&FullVerificationVerdict) -> Value,
    G: Fn(&ProofEvidenceRejection) -> String,

    requires
        backend.delivers(options, translated, Err(fault)),
    ensures
        fault@ is InvalidInput,
{
}

/// Each request of a bundle has exactly one row.
pub proof fn law_every_request_has_one_row(rows: Seq<BundleRow>)
    ensures
        bundle::proved_rows(rows).len() + bundle::not_proved_rows(rows).len()
            + bundle::refuted_rows(rows).len() == rows.len(),
    decreases rows.len(),
{
    if rows.len() > 0 {
        law_every_request_has_one_row(rows.drop_last());
    }
}

/// A bundle is answered with rows only where the runner leaves out none of the four
/// checks, the module is valid and for pointers of eight bytes, and a set of functions
/// that holds the requested ones and is closed under calls has admitted instructions
/// only. The logic and the limit of the translation decide nothing. Options that leave
/// out a check are refused, whatever the bundle holds.
pub proof fn law_answered_bundles_are_checked_in_full<T, N, C, K, H, L, P, D, W, S, R, A, F, G>(
    runner: NativeTrustIrChcPdrRunner,
    bundle: NativeVerificationBundle,
    profile: AdmissionProfile,
    translate: T,
    backend: BundleBackend<N, C, K, H, L, P, D, W, S, R, A, F, G>,
    answer: NativeSolveResult<NativeTrustIrChcPdrBundleEvidence>,
) where
    T: Fn(&NativeVerificationBundle, &TranslateOptions) -> Result<
        Vec<NativeTrustMcChcPdrObligation>,
        String,
    >,
    N: Fn(&ChcProblem) -> String,
    C: Fn(&str) -> String,
    K: Fn(&FullVerificationCacheKeyParts) -> FullVerificationCacheKey,
    H: Fn(&[u8]) -> EvidenceHash,
    L: Fn(&MirChcPdrObligation, &CandidateBytes) -> Option<ChcPdrProofEvidence>,
    P: Fn(&ArtifactBytes) -> Option<FullVerificationArtifact>,
    D: Fn(&ChcProblem, SolveTimeout) -> Option<AcyclicDecision>,
    W: Fn(&ChcProblem, SolveTimeout) -> Option<LoopLaneRun>,
    S: Fn(&ChcProblem, u32) -> Option<AcyclicDecision>,
    R: Fn(&ChcProblem, SolveTimeout) -> Option<Result<ProofRun, String>>,
    A: Fn(&FullVerificationVerdict) -> Admission,
    F: Fn(&FullVerificationVerdict) -> Value,
    G: Fn(&ProofEvidenceRejection) -> String,

    requires
        runner.answers(bundle, profile, translate, backend, answer),
    ensures
        ({
            let options = runner.translating();
            let whole = options.check_signed_overflow && options.check_unsigned_overflow
                && options.check_div_by_zero && options.check_memory_bounds;
            &&& answer is Ok ==> whole && bundle.module_valid && (
            bundle.target_info matches Some(target) && target.pointer_size == 8) && (exists|
                all: Set<u32>,
            | #[trigger]
                admission_laws::vouched(bundle, profile, all)) && exists|
                own: Vec<NativeTrustMcChcPdrObligation>,
            | #[trigger]
                translate.ensures((&bundle, &options), Ok(own))
            &&& !whole ==> (error::failure(answer) matches Some(
                ErrorModel::InvalidInput { field, .. },
            ) && field == "translate_options"@)
        }),
{
    let options = runner.translating();
    admission_laws::law_admitted_bundles(bundle, profile);
    let disabled = bundle::disabled_checks(options);
    let whole = options.check_signed_overflow && options.check_unsigned_overflow
        && options.check_div_by_zero && options.check_memory_bounds;
    assert(disabled.len() == 0 <==> whole);
    if answer is Ok {
        let own = choose|own: Result<Vec<NativeTrustMcChcPdrObligation>, String>| #[trigger]
            translate.ensures((&bundle, &options), own) && match own {
                Ok(own) => backend.answers_bundle(runner.solving(), own@, answer),
                Err(detail) => error::failure(answer) == Some(
                    error::invalid_model("native_trust_ir_bundle"@, detail@),
                ),
            };
        assert(translate.ensures((&bundle, &options), Ok(own->Ok_0)));
    }
}

/// An error of a request costs the bundle exactly where it is of an invalid input;
/// otherwise the request is reported as not proved.
pub proof fn law_errors_of_a_request<N, C, K, H, L, P, D, W, S, R, A, F, G>(
    backend: BundleBackend<N, C, K, H, L, P, D, W, S, R, A, F, G>,
    translated: NativeTrustMcChcPdrObligation,
    fault: NativeSolveError,
    row: NativeSolveResult<BundleRow>,
) where
    N: Fn(&ChcProblem) -> String,
    C: Fn(&str) -> String,
    K: Fn(&FullVerificationCacheKeyParts) -> FullVerificationCacheKey,
    H: Fn(&[u8]) -> EvidenceHash,
    L: Fn(&MirChcPdrObligation, &CandidateBytes) -> Option<ChcPdrProofEvidence>,
    P: Fn(&ArtifactBytes) -> Option<FullVerificationArtifact>,
    D: Fn(&ChcProblem, SolveTimeout) -> Option<AcyclicDecision>,
    W: Fn(&ChcProblem, SolveTimeout) -> Option<LoopLaneRun>,
    S: Fn(&ChcProblem, u32) -> Option<AcyclicDecision>,
    R: Fn(&ChcProblem, SolveTimeout) -> Option<Result<ProofRun, String>>,
    A: Fn(&FullVerificationVerdict) -> Admission,
    F: Fn(&FullVerificationVerdict) -> Value,
    G: Fn(&ProofEvidenceRejection) -> String,

    requires
        backend.reports(translated, fault, row),
    ensures
        row is Err <==> fault is InvalidInput,
        row is Err ==> error::failure(row) == Some(fault@),
        row is Ok ==> (row->Ok_0 matches BundleRow::NotProved(own) && own.translated
            == translated),
{
}

/// The request that a row is about.
pub open spec fn subject(row: BundleRow) -> NativeTrustMcChcPdrObligation {
    match row {
        BundleRow::Proved(own) => own.translated,
        BundleRow::NotProved(own) => own.translated,
        BundleRow::Refuted(own) => own.translated,
    }
}

/// A sealed response is delivered as refuted exactly where its status carries a witness
/// from an unrolled copy; a refutation without a witness, or by another engine, is not
/// delivered as one. Whatever row comes of it is about the request.
pub proof fn law_only_unrolled_witnesses_refute<N, C, K, H, L, P, D, W, S, R, A, F, G>(
    backend: BundleBackend<N, C, K, H, L, P, D, W, S, R, A, F, G>,
    translated: NativeTrustMcChcPdrObligation,
    admission: Admission,
    verdict_form: Value,
    sealed: TypedChcPdrFullVerification,
    row: BundleRow,
) where
    N: Fn(&ChcProblem) -> String,
    C: Fn(&str) -> String,
    K: Fn(&FullVerificationCacheKeyParts) -> FullVerificationCacheKey,
    H: Fn(&[u8]) -> EvidenceHash,
    L: Fn(&MirChcPdrObligation, &CandidateBytes) -> Option<ChcPdrProofEvidence>,
    P: Fn(&ArtifactBytes) -> Option<FullVerificationArtifact>,
    D: Fn(&ChcProblem, SolveTimeout) -> Option<AcyclicDecision>,
    W: Fn(&ChcProblem, SolveTimeout) -> Option<LoopLaneRun>,
    S: Fn(&ChcProblem, u32) -> Option<AcyclicDecision>,
    R: Fn(&ChcProblem, SolveTimeout) -> Option<Result<ProofRun, String>>,
    A: Fn(&FullVerificationVerdict) -> Admission,
    F: Fn(&FullVerificationVerdict) -> Value,
    G: Fn(&ProofEvidenceRejection) -> String,

    requires
        backend.delivers_sealed(translated, admission, verdict_form, sealed, Ok(row)),
    ensures
        subject(row) == translated,
        row is Refuted <==> (sealed.outcome.status matches ChcPdrSolveStatus::Refuted {
            witness: Some(witness),
        } && witness.verification is BoundedUnrollDirectSmtModel),
        row matches BundleRow::Refuted(own) ==> own.verification == sealed,
        row matches BundleRow::Proved(own) ==> {
            &&& own.verification == sealed
            &&& own.transport.native_id@ == translated.obligation.obligation_id@
            &&& own.transport.request_id == translated.request_id
            &&& own.transport.proof_id == (if translated.obligations@.len() == 1 {
                Some(translated.obligations@[0])
            } else {
                None
            })
        },
{
}

/// A snapshot is bound to a request exactly where it names its obligation and its
/// identifier, and its proof obligation where that is the only one.
pub proof fn law_bound_snapshots(
    translated: NativeTrustMcChcPdrObligation,
    snapshot: NativeTypedChcPdrProofTransport,
)
    ensures
        bundle::binding_fault(translated, snapshot) is None <==> {
            &&& snapshot.native_id@ == translated.obligation.obligation_id@
            &&& snapshot.request_id == translated.request_id
            &&& snapshot.proof_id is Some <==> translated.obligations@.len() == 1
            &&& snapshot.proof_id matches Some(id) ==> id == translated.obligations@[0]
        },
{
}

/// Every row of a bundle is about its own request, in the order of the requests.
pub proof fn law_rows_are_about_their_requests<N, C, K, H, L, P, D, W, S, R, A, F, G>(
    backend: BundleBackend<N, C, K, H, L, P, D, W, S, R, A, F, G>,
    options: ChcPdrSolveOptions,
    translated: Seq<NativeTrustMcChcPdrObligation>,
    rows: Seq<BundleRow>,
    i: int,
) where
    N: Fn(&ChcProblem) -> String,
    C: Fn(&str) -> String,
    K: Fn(&FullVerificationCacheKeyParts) -> FullVerificationCacheKey,
    H: Fn(&[u8]) -> EvidenceHash,
    L: Fn(&MirChcPdrObligation, &CandidateBytes) -> Option<ChcPdrProofEvidence>,
    P: Fn(&ArtifactBytes) -> Option<FullVerificationArtifact>,
    D: Fn(&ChcProblem, SolveTimeout) -> Option<AcyclicDecision>,
    W: Fn(&ChcProblem, SolveTimeout) -> Option<LoopLaneRun>,
    S: Fn(&ChcProblem, u32) -> Option<AcyclicDecision>,
    R: Fn(&ChcProblem, SolveTimeout) -> Option<Result<ProofRun, String>>,
    A: Fn(&FullVerificationVerdict) -> Admission,
    F: Fn(&FullVerificationVerdict) -> Value,
    G: Fn(&ProofEvidenceRejection) -> String,

    requires
        backend.delivers_all(options, translated, rows),
        0 <= i < translated.len(),
    ensures
        rows.len() == translated.len(),
        subject(rows[i]) == translated[i],
{
    let row: NativeSolveResult<BundleRow> = Ok(rows[i]);
    assert(backend.delivers(options, translated[i], row));
    let solved = choose|solved: NativeSolveResult<TypedChcPdrFullVerification>| #[trigger]
        solve::answers_request(
            translated[i].obligation,
            options,
            backend.build,
            backend.wording,
            backend.layer,
            backend.engines,
            solved,
        ) && match solved {
            Err(fault) => backend.reports(translated[i], fault, row),
            Ok(verification) => solve::sound_response(
                translated[i].obligation,
                backend.wording,
                verification,
            ) && backend.delivers_verified(options, translated[i], verification, row),
        };
    if let Ok(verification) = solved {
        let (admission, verdict_form, sealed) = choose|
            admission: Admission,
            verdict_form: Value,
            sealed: TypedChcPdrFullVerification,
        |
            {
                &&& #[trigger] backend.policy.ensures((&verification.verdict,), admission)
                &&& #[trigger] backend.form.ensures((&verification.verdict,), verdict_form)
                &&& #[trigger] backend.seals(
                    translated[i].obligation,
                    options,
                    admission,
                    verdict_form,
                    verification,
                    sealed,
                )
                &&& backend.delivers_sealed(translated[i], admission, verdict_form, sealed, row)
            };
        law_only_unrolled_witnesses_refute(
            backend,
            translated[i],
            admission,
            verdict_form,
            sealed,
            rows[i],
        );
    }
}

/// The lists of a bundle are its rows by kind, each row as it stands and in order.
pub proof fn law_lists_are_the_rows_by_kind(
    front: Seq<BundleRow>,
    row: BundleRow,
    back: Seq<BundleRow>,
)
    ensures
        ({
            let all = front + seq![row] + back;
            &&& bundle::proved_rows(all) == bundle::proved_rows(front) + (match row {
                BundleRow::Proved(own) => seq![own],
                _ => Seq::empty(),
            }) + bundle::proved_rows(back)
            &&& bundle::not_proved_rows(all) == bundle::not_proved_rows(front) + (match row {
                BundleRow::NotProved(own) => seq![own],
                _ => Seq::empty(),
            }) + bundle::not_proved_rows(back)
            &&& bundle::refuted_rows(all) == bundle::refuted_rows(front) + (match row {
                BundleRow::Refuted(own) => seq![own],
                _ => Seq::empty(),
            }) + bundle::refuted_rows(back)
        }),
    decreases back.len(),
{
    let all = front + seq![row] + back;
    if back.len() == 0 {
        assert(all =~= front.push(row));
        assert(all.drop_last() =~= front);
        assert(bundle::proved_rows(all) =~= bundle::proved_rows(front) + (match row {
            BundleRow::Proved(own) => seq![own],
            _ => Seq::empty(),
        }) + bundle::proved_rows(back));
        assert(bundle::not_proved_rows(all) =~= bundle::not_proved_rows(front) + (match row {
            BundleRow::NotProved(own) => seq![own],
            _ => Seq::empty(),
        }) + bundle::not_proved_rows(back));
        assert(bundle::refuted_rows(all) =~= bundle::refuted_rows(front) + (match row {
            BundleRow::Refuted(own) => seq![own],
            _ => Seq::empty(),
        }) + bundle::refuted_rows(back));
    } else {
        law_lists_are_the_rows_by_kind(front, row, back.drop_last());
        assert(all.drop_last() =~= front + seq![row] + back.drop_last());
        assert(all.last() == back.last());
        assert(bundle::proved_rows(all) =~= bundle::proved_rows(front) + (match row {
            BundleRow::Proved(own) => seq![own],
            _ => Seq::empty(),
        }) + bundle::proved_rows(back));
        assert(bundle::not_proved_rows(all) =~= bundle::not_proved_rows(front) + (match row {
            BundleRow::NotProved(own) => seq![own],
            _ => Seq::empty(),
        }) + bundle::not_proved_rows(back));
        assert(bundle::refuted_rows(all) =~= bundle::refuted_rows(front) + (match row {
            BundleRow::Refuted(own) => seq![own],
            _ => Seq::empty(),
        }) + bundle::refuted_rows(back));
    }
}

} // verus!
