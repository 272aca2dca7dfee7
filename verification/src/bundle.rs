//! Verification of native bundles.
//!
//! Every request of a bundle is translated afresh and solved on its own. A request
//! that is not proved does not cost its siblings their proofs; a structural error
//! costs the whole bundle.
use serde_json::Value;
use vstd::prelude::*;
use vstd::string::*;

use crate::admission;
use crate::admission::{
    validate_native_bundle_proof_authority_input, AdmissionProfile, NativeVerificationBundle,
};
use crate::chc::ChcProblem;
use crate::error;
use crate::error::{ErrorModel, NativeSolveError, NativeSolveResult, ProofEvidenceRejection};
use crate::evidence::{
    ArtifactBytes, ChcPdrCexVerification, ChcPdrSolveOptions, ChcPdrSolveStatus, EvidenceHash,
    MirChcPdrObligation, SolveTimeout,
};
use crate::identity;
use crate::identity::{BuildIdentity, FullVerificationCacheKey, FullVerificationCacheKeyParts};
use crate::json;
use crate::lanes::{AcyclicDecision, LoopLaneRun, ProofRun};
use crate::runner;
use crate::runner::{prepare_afresh, NativeTypedChcPdrRunner};
use crate::seal;
use crate::seal::{Admission, FreshInput, TypedChcPdrFullVerification};
use crate::solve;
use crate::solve::{EvidenceLayer, SolverEngines};
use crate::text;
use crate::text::{concat2, concat3, concat4, concat5, decimal_text, join, same_text};
use crate::transport;
use crate::transport::{single_native_proof_id, NativeTypedChcPdrProofTransport};
use crate::verdicts::{
    CandidateBytes, ChcPdrProofEvidence, FullVerificationArtifact, FullVerificationVerdict,
    ReplayWording,
};

verus! {

/// Options of lowering a module to clauses.
#[derive(Debug, Clone, PartialEq, Eq)]
pub struct TranslateOptions {
    pub check_signed_overflow: bool,
    pub check_unsigned_overflow: bool,
    pub check_div_by_zero: bool,
    pub check_memory_bounds: bool,
    /// Name of the logic, where the default is not wanted.
    pub logic: Option<String>,
    /// Limit of the translation, in milliseconds.
    pub timeout_ms: Option<u64>,
}

/// The checks that options leave out. The logic and the limit leave out none.
pub open spec fn disabled_checks(options: TranslateOptions) -> Seq<Seq<char>> {
    let none = Seq::<Seq<char>>::empty();
    (if options.check_signed_overflow {
        none
    } else {
        seq!["check_signed_overflow"@]
    }) + (if options.check_unsigned_overflow {
        none
    } else {
        seq!["check_unsigned_overflow"@]
    }) + (if options.check_div_by_zero {
        none
    } else {
        seq!["check_div_by_zero"@]
    }) + (if options.check_memory_bounds {
        none
    } else {
        seq!["check_memory_bounds"@]
    })
}

impl Default for TranslateOptions {
    fn default() -> (options: TranslateOptions)
        ensures
            disabled_checks(options) == Seq::<Seq<char>>::empty(),
            options.logic is None,
            options.timeout_ms is None,
    {
        TranslateOptions {
            check_signed_overflow: true,
            check_unsigned_overflow: true,
            check_div_by_zero: true,
            check_memory_bounds: true,
            logic: None,
            timeout_ms: None,
        }
    }
}

/// The checks that options leave out.
pub fn disabled_native_bundle_safety_checks(options: &TranslateOptions) -> (disabled: Vec<String>)
    ensures
        text::owned_texts(disabled@) == disabled_checks(*options),
{
    let mut disabled: Vec<String> = Vec::new();
    if !options.check_signed_overflow {
        disabled.push("check_signed_overflow".to_owned());
    }
    if !options.check_unsigned_overflow {
        disabled.push("check_unsigned_overflow".to_owned());
    }
    if !options.check_div_by_zero {
        disabled.push("check_div_by_zero".to_owned());
    }
    if !options.check_memory_bounds {
        disabled.push("check_memory_bounds".to_owned());
    }
    disabled
}

/// Whether an error tells of one request alone.
pub open spec fn per_request(error: ErrorModel) -> bool {
    !(error is InvalidInput)
}

/// Whether an error tells of one request alone: that it was not proved. An invalid
/// input is a structural error, and costs the bundle.
pub fn native_solve_error_is_per_request_not_proved(error: &NativeSolveError) -> (yes: bool)
    ensures
        yes == per_request(error@),
{
    match error {
        NativeSolveError::ProofGradeRejected { .. } => true,
        NativeSolveError::SolverFailed { .. } => true,
        NativeSolveError::Unsupported(_) => true,
        NativeSolveError::InvalidInput { .. } => false,
    }
}

/// The error for a bundle that cannot be translated.
pub fn native_trust_ir_bundle_error(detail: &str) -> (error: NativeSolveError)
    ensures
        error@ == error::invalid_model("native_trust_ir_bundle"@, detail@),
{
    error::invalid_input("native_trust_ir_bundle", detail)
}

/// Obligation that belongs to a request of a bundle.
#[derive(Debug, PartialEq, Eq)]
pub struct NativeTrustMcChcPdrObligation {
    pub request_id: u32,
    /// Proof obligations that the request is for.
    pub obligations: Vec<u32>,
    pub obligation: MirChcPdrObligation,
}

/// An optional number, as it is shown.
pub open spec fn shown_id(id: Option<u32>) -> Seq<char> {
    match id {
        Some(id) => text::concat(seq!["Some("@, text::decimal(id as nat), ")"@]),
        None => "None"@,
    }
}

fn show_id(id: Option<u32>) -> (shown: String)
    ensures
        shown@ == shown_id(id),
{
    match id {
        Some(id) => {
            let number = decimal_text(id as u64);
            concat3("Some(", number.as_str(), ")")
        },
        None => "None".to_owned(),
    }
}

/// Numbers, as they are shown.
pub open spec fn shown_ids(ids: Seq<u32>) -> Seq<char> {
    text::concat(
        seq![
            "["@,
            text::joined(Seq::new(ids.len(), |i: int| text::decimal(ids[i] as nat)), ", "@),
            "]"@,
        ],
    )
}

fn show_ids(ids: &Vec<u32>) -> (shown: String)
    ensures
        shown@ == shown_ids(ids@),
{
    let mut numbers: Vec<String> = Vec::new();
    for i in 0..ids.len()
        invariant
            numbers@.len() == i,
            forall|j: int|
                0 <= j < i ==> (#[trigger] numbers@[j])@ == text::decimal(ids@[j] as nat),
    {
        numbers.push(decimal_text(ids[i] as u64));
    }
    assert(text::owned_texts(numbers@) =~= Seq::new(
        ids@.len(),
        |i: int| text::decimal(ids@[i] as nat),
    ));
    let listed = join(numbers.as_slice(), ", ");
    concat3("[", listed.as_str(), "]")
}

/// Why a snapshot is not bound to a translated obligation.
pub open spec fn binding_fault(
    translated: NativeTrustMcChcPdrObligation,
    snapshot: NativeTypedChcPdrProofTransport,
) -> Option<ErrorModel> {
    if snapshot.native_id@ != translated.obligation.obligation_id@ {
        Some(
            error::invalid_model(
                "native_trust_ir_bundle.evidence.native_id"@,
                text::concat(
                    seq![
                        "transport native id `"@,
                        snapshot.native_id@,
                        "` does not match translated obligation id `"@,
                        translated.obligation.obligation_id@,
                        "`"@,
                    ],
                ),
            ),
        )
    } else if snapshot.request_id != translated.request_id {
        Some(
            error::invalid_model(
                "native_trust_ir_bundle.evidence.request_id"@,
                text::concat(
                    seq![
                        "transport request id "@,
                        text::decimal(snapshot.request_id as nat),
                        " does not match translated request id "@,
                        text::decimal(translated.request_id as nat),
                    ],
                ),
            ),
        )
    } else if snapshot.proof_id != transport::single_id(translated.obligations@) {
        Some(
            error::invalid_model(
                "native_trust_ir_bundle.evidence.proof_id"@,
                text::concat(
                    seq![
                        "transport proof id "@,
                        shown_id(snapshot.proof_id),
                        " does not match translated proof ids "@,
                        shown_ids(translated.obligations@),
                    ],
                ),
            ),
        )
    } else {
        None
    }
}

fn same_id(left: Option<u32>, right: Option<u32>) -> (same: bool)
    ensures
        same == (left == right),
{
    match (left, right) {
        (Some(left), Some(right)) => left == right,
        (None, None) => true,
        _ => false,
    }
}

/// Checks that a snapshot is bound to a translated obligation.
pub fn validate_native_trust_ir_transport_binding(
    translated: &NativeTrustMcChcPdrObligation,
    snapshot: &NativeTypedChcPdrProofTransport,
) -> (bound: NativeSolveResult<()>)
    ensures
        error::failure(bound) == binding_fault(*translated, *snapshot),
{
    let own_id = translated.obligation.obligation_id.as_str();
    if !same_text(snapshot.native_id.as_str(), own_id) {
        let detail = concat5(
            "transport native id `",
            snapshot.native_id.as_str(),
            "` does not match translated obligation id `",
            own_id,
            "`",
        );
        return Err(
            error::invalid_input("native_trust_ir_bundle.evidence.native_id", detail.as_str()),
        );
    }
    if snapshot.request_id != translated.request_id {
        let found = decimal_text(snapshot.request_id as u64);
        let own = decimal_text(translated.request_id as u64);
        let detail = concat4(
            "transport request id ",
            found.as_str(),
            " does not match translated request id ",
            own.as_str(),
        );
        return Err(
            error::invalid_input("native_trust_ir_bundle.evidence.request_id", detail.as_str()),
        );
    }
    if !same_id(snapshot.proof_id, single_native_proof_id(translated.obligations.as_slice())) {
        let found = show_id(snapshot.proof_id);
        let own = show_ids(&translated.obligations);
        let detail = concat4(
            "transport proof id ",
            found.as_str(),
            " does not match translated proof ids ",
            own.as_str(),
        );
        return Err(
            error::invalid_input("native_trust_ir_bundle.evidence.proof_id", detail.as_str()),
        );
    }
    Ok(())
}

/// Request that was proved.
pub struct NativeTrustIrChcPdrEvidence {
    pub translated: NativeTrustMcChcPdrObligation,
    /// Sealed response.
    pub verification: TypedChcPdrFullVerification,
    /// Snapshot that is bound to the request.
    pub transport: NativeTypedChcPdrProofTransport,
}

/// Request that was not proved. It carries neither a proof nor a counterexample.
pub struct NativeTrustIrChcPdrNotProved {
    pub translated: NativeTrustMcChcPdrObligation,
    /// Why the request was not proved.
    pub reason: String,
}

/// Request that was refuted with a witness. The witness is for the consumer to
/// replay; nothing here is a proof.
pub struct NativeTrustIrChcPdrRefuted {
    pub translated: NativeTrustMcChcPdrObligation,
    pub verification: TypedChcPdrFullVerification,
}

/// What became of the requests of a bundle, each kind in the order of the requests.
pub struct NativeTrustIrChcPdrBundleEvidence {
    pub obligations: Vec<NativeTrustIrChcPdrEvidence>,
    pub not_proved: Vec<NativeTrustIrChcPdrNotProved>,
    pub refuted: Vec<NativeTrustIrChcPdrRefuted>,
}

/// What became of one request.
pub enum BundleRow {
    Proved(NativeTrustIrChcPdrEvidence),
    NotProved(NativeTrustIrChcPdrNotProved),
    Refuted(NativeTrustIrChcPdrRefuted),
}

/// The proved requests among all.
pub open spec fn proved_rows(rows: Seq<BundleRow>) -> Seq<NativeTrustIrChcPdrEvidence>
    decreases rows.len(),
{
    if rows.len() == 0 {
        Seq::empty()
    } else {
        match rows.last() {
            BundleRow::Proved(row) => proved_rows(rows.drop_last()).push(row),
            _ => proved_rows(rows.drop_last()),
        }
    }
}

/// The requests among all that were not proved.
pub open spec fn not_proved_rows(rows: Seq<BundleRow>) -> Seq<NativeTrustIrChcPdrNotProved>
    decreases rows.len(),
{
    if rows.len() == 0 {
        Seq::empty()
    } else {
        match rows.last() {
            BundleRow::NotProved(row) => not_proved_rows(rows.drop_last()).push(row),
            _ => not_proved_rows(rows.drop_last()),
        }
    }
}

/// The refuted requests among all.
pub open spec fn refuted_rows(rows: Seq<BundleRow>) -> Seq<NativeTrustIrChcPdrRefuted>
    decreases rows.len(),
{
    if rows.len() == 0 {
        Seq::empty()
    } else {
        match rows.last() {
            BundleRow::Refuted(row) => refuted_rows(rows.drop_last()).push(row),
            _ => refuted_rows(rows.drop_last()),
        }
    }
}

/// Whether a status refutes by a model of an unrolled copy. Only such a witness
/// was grounded in the clauses.
pub open spec fn refuted_by_unrolling(status: ChcPdrSolveStatus) -> bool {
    status matches ChcPdrSolveStatus::Refuted { witness: Some(witness) }
        && witness.verification is BoundedUnrollDirectSmtModel
}

fn is_refuted_by_unrolling(status: &ChcPdrSolveStatus) -> (yes: bool)
    ensures
        yes == refuted_by_unrolling(*status),
{
    match status {
        ChcPdrSolveStatus::Refuted { witness: Some(witness) } => match witness.verification {
            ChcPdrCexVerification::BoundedUnrollDirectSmtModel { .. } => true,
            _ => false,
        },
        _ => false,
    }
}

/// The outside parts that a bundle is solved with.
pub struct BundleBackend<N, C, K, H, L, P, D, W, S, R, A, F, G> {
    pub build: BuildIdentity,
    pub wording: ReplayWording,
    pub layer: EvidenceLayer<N, C, K, H, L, P>,
    pub engines: SolverEngines<D, W, S, R>,
    /// The evidence policy.
    pub policy: A,
    /// Serializes a verdict.
    pub form: F,
    /// Words a rejection.
    pub word: G,
}

impl<N, C, K, H, L, P, D, W, S, R, A, F, G> BundleBackend<
    N,
    C,
    K,
    H,
    L,
    P,
    D,
    W,
    S,
    R,
    A,
    F,
    G,
> where
    N: Fn(&ChcProblem) -> String,
    C: Fn(&str) -> String,
    K: Fn(&FullVerificationCacheKeyParts) -> FullVerificationCacheKey,
    H: Fn(&[u8]) -> EvidenceHash,
    L: Fn(&MirChcPdrObligation, &CandidateBytes) -> Option<ChcPdrProofEvidence>,
    P: Fn(&ArtifactBytes) -> Option<FullVerificationArtifact>,
    D: Fn(&ChcProblem, SolveTimeout) -> Option<AcyclicDecision>,
    W: Fn(&ChcProblem, SolveTimeout) -> Option<LoopLaneRun>,
    S: Fn(&ChcProblem, u32) -> Option<AcyclicDecision>,
    R: Fn(&ChcProblem, SolveTimeout) -> Option<Result<ProofRun, String>>,
    A: Fn(&FullVerificationVerdict) -> Admission,
    F: Fn(&FullVerificationVerdict) -> Value,
    G: Fn(&ProofEvidenceRejection) -> String,
 {
    /// Whether every part takes every input, and the policy admits only proof
    /// candidates with metadata.
    pub open spec fn total(self) -> bool {
        &&& self.layer.total()
        &&& self.engines.total()
        &&& forall|verdict: &FullVerificationVerdict| #[trigger] self.policy.requires((verdict,))
        &&& forall|verdict: &FullVerificationVerdict| #[trigger] self.form.requires((verdict,))
        &&& forall|rejection: &ProofEvidenceRejection| #[trigger] self.word.requires((rejection,))
        &&& forall|verdict: &FullVerificationVerdict, admission: Admission| #[trigger]
            self.policy.ensures((verdict,), admission) && admission is Ok ==> (
            *verdict matches FullVerificationVerdict::Proved { evidence }
                && evidence.native_metadata is Some)
    }

    /// Whether a reason words an error.
    pub open spec fn words(self, fault: NativeSolveError, reason: Seq<char>) -> bool {
        match fault {
            NativeSolveError::ProofGradeRejected { rejection } => exists|worded: String| #[trigger]
                self.word.ensures((&rejection,), worded) && reason == error::message(
                    fault@,
                    worded@,
                ),
            _ => reason == error::message(fault@, ""@),
        }
    }

    fn reason_of(&self, fault: &NativeSolveError) -> (reason: String)
        requires
            self.total(),
        ensures
            self.words(*fault, reason@),
    {
        match fault {
            NativeSolveError::ProofGradeRejected { rejection } => {
                let word = &self.word;
                let worded = word(rejection);
                assert(self.word.ensures((rejection,), worded));
                fault.message(worded.as_str())
            },
            _ => fault.message(""),
        }
    }

    /// Whether a row tells of an error: it becomes the reason why the request was
    /// not proved, or costs the bundle.
    pub open spec fn reports(
        self,
        translated: NativeTrustMcChcPdrObligation,
        fault: NativeSolveError,
        row: NativeSolveResult<BundleRow>,
    ) -> bool {
        if per_request(fault@) {
            row matches Ok(BundleRow::NotProved(own)) && own.translated == translated
                && self.words(fault, own.reason@)
        } else {
            error::failure(row) == Some(fault@)
        }
    }

    fn report(&self, translated: NativeTrustMcChcPdrObligation, fault: NativeSolveError) -> (row:
        NativeSolveResult<BundleRow>)
        requires
            self.total(),
        ensures
            self.reports(translated, fault, row),
    {
        if native_solve_error_is_per_request_not_proved(&fault) {
            let reason = self.reason_of(&fault);
            Ok(BundleRow::NotProved(NativeTrustIrChcPdrNotProved { translated, reason }))
        } else {
            Err(fault)
        }
    }

    /// Whether a response was sealed after its obligation was prepared afresh.
    pub open spec fn seals(
        self,
        obligation: MirChcPdrObligation,
        options: ChcPdrSolveOptions,
        admission: Admission,
        verdict_form: Value,
        verification: TypedChcPdrFullVerification,
        sealed: TypedChcPdrFullVerification,
    ) -> bool {
        exists|fresh: Option<FreshInput>| #[trigger]
            runner::prepared_afresh(obligation, options, self.build, self.layer, fresh)
                && match fresh {
                None => sealed == verification,
                Some(fresh) => seal::bundle_sealed(
                    self.layer.sha256,
                    verification,
                    obligation,
                    fresh,
                    admission,
                    self.wording,
                    json::json_content(verdict_form),
                    sealed,
                ),
            }
    }

    fn seal_afresh(
        &self,
        obligation: &MirChcPdrObligation,
        options: &ChcPdrSolveOptions,
        admission: &Admission,
        verdict_form: &Value,
        verification: TypedChcPdrFullVerification,
    ) -> (sealed: TypedChcPdrFullVerification)
        requires
            identity::millis_fit(options.timeout),
            self.total(),
        ensures
            self.seals(*obligation, *options, *admission, *verdict_form, verification, sealed),
    {
        let fresh = prepare_afresh(obligation, options, &self.build, &self.layer);
        let ghost kept = fresh;
        assert(runner::prepared_afresh(*obligation, *options, self.build, self.layer, kept));
        match fresh {
            Some(fresh) => verification.with_private_native_bundle_authority(
                obligation,
                &fresh,
                admission,
                &self.wording,
                verdict_form,
                &self.layer.sha256,
            ),
            None => verification,
        }
    }

    /// Whether a row tells of a sealed response: of its refutation, where an
    /// unrolled copy refuted it, else of its proof, where its seal grants
    /// authority, else of why it is not proved.
    pub open spec fn delivers_sealed(
        self,
        translated: NativeTrustMcChcPdrObligation,
        admission: Admission,
        verdict_form: Value,
        sealed: TypedChcPdrFullVerification,
        row: NativeSolveResult<BundleRow>,
    ) -> bool {
        if refuted_by_unrolling(sealed.outcome.status) {
            row matches Ok(BundleRow::Refuted(own)) && own.translated == translated
                && own.verification == sealed
        } else {
            exists|recorded: NativeSolveResult<NativeTypedChcPdrProofTransport>| #[trigger]
                seal::records(
                    self.layer.sha256,
                    sealed,
                    admission,
                    self.wording,
                    json::json_content(verdict_form),
                    recorded,
                ) && match recorded {
                    Err(fault) => self.reports(translated, fault, row),
                    Ok(snapshot) => match binding_fault(translated, snapshot) {
                        Some(fault) => error::failure(row) == Some(fault),
                        None => row matches Ok(BundleRow::Proved(own)) && own.translated
                            == translated && own.verification == sealed && own.transport
                            == snapshot,
                    },
                }
        }
    }

    fn deliver_sealed(
        &self,
        translated: NativeTrustMcChcPdrObligation,
        admission: &Admission,
        verdict_form: &Value,
        sealed: TypedChcPdrFullVerification,
    ) -> (row: NativeSolveResult<BundleRow>)
        requires
            self.total(),
            admission is Ok ==> (sealed.verdict matches FullVerificationVerdict::Proved { evidence }
                && evidence.native_metadata is Some),
        ensures
            self.delivers_sealed(translated, *admission, *verdict_form, sealed, row),
    {
        if is_refuted_by_unrolling(&sealed.outcome.status) {
            return Ok(
                BundleRow::Refuted(NativeTrustIrChcPdrRefuted { translated, verification: sealed }),
            );
        }
        let recorded = sealed.native_proof_transport_record(
            admission,
            &self.wording,
            verdict_form,
            &self.layer.sha256,
        );
        let ghost kept = recorded;
        assert(seal::records(
            self.layer.sha256,
            sealed,
            *admission,
            self.wording,
            json::json_content(*verdict_form),
            kept,
        ));
        let snapshot = match recorded {
            Ok(snapshot) => snapshot,
            Err(fault) => {
                return self.report(translated, fault);
            },
        };
        match validate_native_trust_ir_transport_binding(&translated, &snapshot) {
            Ok(()) => Ok(
                BundleRow::Proved(
                    NativeTrustIrChcPdrEvidence {
                        translated,
                        verification: sealed,
                        transport: snapshot,
                    },
                ),
            ),
            Err(fault) => Err(fault),
        }
    }

    /// Whether a row is what becomes of a request with a response, which is sealed
    /// where that can be done.
    pub open spec fn delivers_verified(
        self,
        options: ChcPdrSolveOptions,
        translated: NativeTrustMcChcPdrObligation,
        verification: TypedChcPdrFullVerification,
        row: NativeSolveResult<BundleRow>,
    ) -> bool {
        exists|admission: Admission, verdict_form: Value, sealed: TypedChcPdrFullVerification|
            {
                &&& #[trigger] self.policy.ensures((&verification.verdict,), admission)
                &&& #[trigger] self.form.ensures((&verification.verdict,), verdict_form)
                &&& #[trigger] self.seals(
                    translated.obligation,
                    options,
                    admission,
                    verdict_form,
                    verification,
                    sealed,
                )
                &&& self.delivers_sealed(translated, admission, verdict_form, sealed, row)
            }
    }

    /// Whether a row, or an error that costs the bundle, is what becomes of a
    /// request.
    pub open spec fn delivers(
        self,
        options: ChcPdrSolveOptions,
        translated: NativeTrustMcChcPdrObligation,
        row: NativeSolveResult<BundleRow>,
    ) -> bool {
        exists|solved: NativeSolveResult<TypedChcPdrFullVerification>| #[trigger]
            solve::answers_request(
                translated.obligation,
                options,
                self.build,
                self.wording,
                self.layer,
                self.engines,
                solved,
            ) && match solved {
                Err(fault) => self.reports(translated, fault, row),
                Ok(verification) => solve::sound_response(
                    translated.obligation,
                    self.wording,
                    verification,
                ) && self.delivers_verified(options, translated, verification, row),
            }
    }

    fn deliver(&self, runner: &NativeTypedChcPdrRunner, translated: NativeTrustMcChcPdrObligation) -> (row:
        NativeSolveResult<BundleRow>)
        requires
            identity::millis_fit(runner.chosen().timeout),
            self.total(),
        ensures
            self.delivers(runner.chosen(), translated, row),
    {
        let solved = runner.solve_full_verification(
            &translated.obligation,
            &self.build,
            &self.wording,
            &self.layer,
            &self.engines,
        );
        let ghost kept = solved;
        assert(solve::answers_request(
            translated.obligation,
            runner.chosen(),
            self.build,
            self.wording,
            self.layer,
            self.engines,
            kept,
        ));
        let verification = match solved {
            Ok(verification) => verification,
            Err(fault) => {
                return self.report(translated, fault);
            },
        };
        let policy = &self.policy;
        let admission = policy(&verification.verdict);
        assert(self.policy.ensures((&verification.verdict,), admission));
        let form = &self.form;
        let verdict_form = form(&verification.verdict);
        assert(self.form.ensures((&verification.verdict,), verdict_form));
        let sealed = self.seal_afresh(
            &translated.obligation,
            runner.options(),
            &admission,
            &verdict_form,
            verification,
        );
        let ghost kept_sealed = sealed;
        assert(self.seals(
            translated.obligation,
            runner.chosen(),
            admission,
            verdict_form,
            verification,
            kept_sealed,
        ));
        self.deliver_sealed(translated, &admission, &verdict_form, sealed)
    }

    /// Whether rows are what becomes of requests, one for each.
    pub open spec fn delivers_all(
        self,
        options: ChcPdrSolveOptions,
        translated: Seq<NativeTrustMcChcPdrObligation>,
        rows: Seq<BundleRow>,
    ) -> bool {
        &&& rows.len() == translated.len()
        &&& forall|i: int|
            0 <= i < rows.len() ==> self.delivers(options, translated[i], Ok(#[trigger] rows[i]))
    }

    /// Whether an answer is the one for translated requests: all their rows, or the
    /// error of the first request that costs the bundle.
    pub open spec fn answers_bundle(
        self,
        options: ChcPdrSolveOptions,
        translated: Seq<NativeTrustMcChcPdrObligation>,
        answer: NativeSolveResult<NativeTrustIrChcPdrBundleEvidence>,
    ) -> bool {
        match answer {
            Ok(evidence) => exists|rows: Seq<BundleRow>| #[trigger]
                self.delivers_all(options, translated, rows) && evidence.obligations@
                    == proved_rows(rows) && evidence.not_proved@ == not_proved_rows(rows)
                    && evidence.refuted@ == refuted_rows(rows),
            Err(fault) => exists|rows: Seq<BundleRow>| #[trigger]
                self.delivers_all(options, translated.take(rows.len() as int), rows) && rows.len()
                    < translated.len() && self.delivers(
                    options,
                    translated[rows.len() as int],
                    Err(fault),
                ),
        }
    }

    fn deliver_bundle(
        &self,
        runner: &NativeTypedChcPdrRunner,
        translated: Vec<NativeTrustMcChcPdrObligation>,
    ) -> (answer: NativeSolveResult<NativeTrustIrChcPdrBundleEvidence>)
        requires
            identity::millis_fit(runner.chosen().timeout),
            self.total(),
        ensures
            self.answers_bundle(runner.chosen(), translated@, answer),
    {
        let ghost all = translated@;
        let ghost mut rows: Seq<BundleRow> = Seq::empty();
        let mut obligations: Vec<NativeTrustIrChcPdrEvidence> = Vec::new();
        let mut not_proved: Vec<NativeTrustIrChcPdrNotProved> = Vec::new();
        let mut refuted: Vec<NativeTrustIrChcPdrRefuted> = Vec::new();
        for request in requests: translated
            invariant
                identity::millis_fit(runner.chosen().timeout),
                self.total(),
                requests.seq() == all,
                rows.len() == requests.index(),
                self.delivers_all(runner.chosen(), all.take(requests.index() as int), rows),
                obligations@ == proved_rows(rows),
                not_proved@ == not_proved_rows(rows),
                refuted@ == refuted_rows(rows),
        {
            let ghost before = rows;
            let row = self.deliver(runner, request);
            match row {
                Ok(row) => {
                    proof {
                        rows = before.push(row);
                        assert(rows.drop_last() =~= before);
                        assert(self.delivers_all(
                            runner.chosen(),
                            all.take(rows.len() as int),
                            rows,
                        ));
                    }
                    match row {
                        BundleRow::Proved(own) => {
                            obligations.push(own);
                        },
                        BundleRow::NotProved(own) => {
                            not_proved.push(own);
                        },
                        BundleRow::Refuted(own) => {
                            refuted.push(own);
                        },
                    }
                },
                Err(fault) => {
                    assert(self.delivers_all(
                        runner.chosen(),
                        all.take(rows.len() as int),
                        rows,
                    ));
                    return Err(fault);
                },
            }
        }
        assert(all.take(all.len() as int) =~= all);
        Ok(NativeTrustIrChcPdrBundleEvidence { obligations, not_proved, refuted })
    }
}

/// The refusal of options that leave out checks.
pub open spec fn options_refusal(disabled: Seq<Seq<char>>) -> ErrorModel {
    error::invalid_model(
        "translate_options"@,
        text::concat(
            seq![
                "native bundle proof authority requires the full safety profile; disabled: "@,
                text::joined(disabled, ", "@),
            ],
        ),
    )
}

/// Runner that solves native bundles.
#[derive(Debug, Clone)]
pub struct NativeTrustIrChcPdrRunner {
    typed_runner: NativeTypedChcPdrRunner,
    translate_options: TranslateOptions,
}

impl Default for NativeTrustIrChcPdrRunner {
    fn default() -> (runner: NativeTrustIrChcPdrRunner)
        ensures
            runner.solving() == ChcPdrSolveOptions::standard(),
            disabled_checks(runner.translating()) == Seq::<Seq<char>>::empty(),
            runner.translating().logic is None,
            runner.translating().timeout_ms is None,
    {
        NativeTrustIrChcPdrRunner::new()
    }
}

impl NativeTrustIrChcPdrRunner {
    /// The options that requests are solved under.
    pub closed spec fn solving(self) -> ChcPdrSolveOptions {
        self.typed_runner.chosen()
    }

    /// The options that bundles are translated under.
    pub closed spec fn translating(self) -> TranslateOptions {
        self.translate_options
    }

    /// A runner with the default options.
    pub fn new() -> (runner: NativeTrustIrChcPdrRunner)
        ensures
            runner.solving() == ChcPdrSolveOptions::standard(),
            disabled_checks(runner.translating()) == Seq::<Seq<char>>::empty(),
            runner.translating().logic is None,
            runner.translating().timeout_ms is None,
    {
        NativeTrustIrChcPdrRunner {
            typed_runner: NativeTypedChcPdrRunner::new(),
            translate_options: TranslateOptions::default(),
        }
    }

    /// A runner that solves under the given options.
    pub fn with_solve_options(options: ChcPdrSolveOptions) -> (runner: NativeTrustIrChcPdrRunner)
        ensures
            runner.solving() == options,
            disabled_checks(runner.translating()) == Seq::<Seq<char>>::empty(),
            runner.translating().logic is None,
            runner.translating().timeout_ms is None,
    {
        NativeTrustIrChcPdrRunner {
            typed_runner: NativeTypedChcPdrRunner::with_options(options),
            translate_options: TranslateOptions::default(),
        }
    }

    /// The runner with other options of the translation. A bundle is not solved
    /// under options that leave out checks.
    pub fn with_translate_options(self, options: TranslateOptions) -> (runner:
        NativeTrustIrChcPdrRunner)
        ensures
            runner.solving() == self.solving(),
            runner.translating() == options,
    {
        NativeTrustIrChcPdrRunner { typed_runner: self.typed_runner, translate_options: options }
    }

    /// The options that requests are solved under.
    pub fn solve_options(&self) -> (options: &ChcPdrSolveOptions)
        ensures
            *options == self.solving(),
    {
        self.typed_runner.options()
    }

    /// The options that bundles are translated under.
    pub fn translate_options(&self) -> (options: &TranslateOptions)
        ensures
            *options == self.translating(),
    {
        &self.translate_options
    }

    /// Translates the requests of a bundle.
    pub fn translate_obligations<T>(&self, bundle: &NativeVerificationBundle, translate: &T) -> (translated:
        NativeSolveResult<Vec<NativeTrustMcChcPdrObligation>>) where
        T: Fn(&NativeVerificationBundle, &TranslateOptions) -> Result<
            Vec<NativeTrustMcChcPdrObligation>,
            String,
        >,

        requires
            translate.requires((bundle, &self.translating())),
        ensures
            exists|own: Result<Vec<NativeTrustMcChcPdrObligation>, String>| #[trigger]
                translate.ensures((bundle, &self.translating()), own) && match own {
                    Ok(own) => translated == Ok::<
                        Vec<NativeTrustMcChcPdrObligation>,
                        NativeSolveError,
                    >(own),
                    Err(detail) => error::failure(translated) == Some(
                        error::invalid_model("native_trust_ir_bundle"@, detail@),
                    ),
                },
    {
        let own = translate(bundle, &self.translate_options);
        assert(translate.ensures((bundle, &self.translating()), own));
        match own {
            Ok(own) => Ok(own),
            Err(detail) => Err(native_trust_ir_bundle_error(detail.as_str())),
        }
    }

    /// Whether an answer is the one for a bundle: a refusal of options that leave
    /// out checks, else the refusal of the bundle, else what becomes of its
    /// requests.
    pub open spec fn answers<T, N, C, K, H, L, P, D, W, S, R, A, F, G>(
        self,
        bundle: NativeVerificationBundle,
        profile: AdmissionProfile,
        translate: T,
        backend: BundleBackend<N, C, K, H, L, P, D, W, S, R, A, F, G>,
        answer: NativeSolveResult<NativeTrustIrChcPdrBundleEvidence>,
    ) -> bool where
        T: Fn(&NativeVerificationBundle, &TranslateOptions) -> Result<
            Vec<NativeTrustMcChcPdrObligation>,
            String,
        >,
        N: Fn(&ChcProblem) -> String,
        C: Fn(&str) -> String,
        K: Fn(&FullVerificationCacheKeyParts) -> FullVerificationCacheKey,
        H: Fn(&[u8]) -> EvidenceHash,
        L: Fn(&MirChcPdrObligation, &CandidateBytes) -> Option<ChcPdrProofEvidence>,
        P: Fn(&ArtifactBytes) -> Option<FullVerificationArtifact>,
        D: Fn(&ChcProblem, SolveTimeout) -> Option<AcyclicDecision>,
        W: Fn(&ChcProblem, SolveTimeout) -> Option<LoopLaneRun>,
        S: Fn(&ChcProblem, u32) -> Option<AcyclicDecision>,
        R: Fn(&ChcProblem, SolveTimeout) -> Option<Result<ProofRun, String>>,
        A: Fn(&FullVerificationVerdict) -> Admission,
        F: Fn(&FullVerificationVerdict) -> Value,
        G: Fn(&ProofEvidenceRejection) -> String,
     {
        let disabled = disabled_checks(self.translating());
        if disabled.len() > 0 {
            error::failure(answer) == Some(options_refusal(disabled))
        } else {
            match admission::gate_fault(bundle, profile) {
                Some(fault) => error::failure(answer) == Some(fault),
                None => exists|own: Result<Vec<NativeTrustMcChcPdrObligation>, String>| #[trigger]
                    translate.ensures((&bundle, &self.translating()), own) && match own {
                        Ok(own) => backend.answers_bundle(self.solving(), own@, answer),
                        Err(detail) => error::failure(answer) == Some(
                            error::invalid_model("native_trust_ir_bundle"@, detail@),
                        ),
                    },
            }
        }
    }

    fn solve_bundle_native_proof_grade_inner<T, N, C, K, H, L, P, D, W, S, R, A, F, G>(
        &self,
        bundle: &NativeVerificationBundle,
        profile: AdmissionProfile,
        translate: &T,
        backend: &BundleBackend<N, C, K, H, L, P, D, W, S, R, A, F, G>,
    ) -> (answer: NativeSolveResult<NativeTrustIrChcPdrBundleEvidence>) where
        T: Fn(&NativeVerificationBundle, &TranslateOptions) -> Result<
            Vec<NativeTrustMcChcPdrObligation>,
            String,
        >,
        N: Fn(&ChcProblem) -> String,
        C: Fn(&str) -> String,
        K: Fn(&FullVerificationCacheKeyParts) -> FullVerificationCacheKey,
        H: Fn(&[u8]) -> EvidenceHash,
        L: Fn(&MirChcPdrObligation, &CandidateBytes) -> Option<ChcPdrProofEvidence>,
        P: Fn(&ArtifactBytes) -> Option<FullVerificationArtifact>,
        D: Fn(&ChcProblem, SolveTimeout) -> Option<AcyclicDecision>,
        W: Fn(&ChcProblem, SolveTimeout) -> Option<LoopLaneRun>,
        S: Fn(&ChcProblem, u32) -> Option<AcyclicDecision>,
        R: Fn(&ChcProblem, SolveTimeout) -> Option<Result<ProofRun, String>>,
        A: Fn(&FullVerificationVerdict) -> Admission,
        F: Fn(&FullVerificationVerdict) -> Value,
        G: Fn(&ProofEvidenceRejection) -> String,

        requires
            identity::millis_fit(self.solving().timeout),
            translate.requires((bundle, &self.translating())),
            backend.total(),
        ensures
            self.answers(*bundle, profile, *translate, *backend, answer),
    {
        let disabled = disabled_native_bundle_safety_checks(&self.translate_options);
        if disabled.len() > 0 {
            let listed = join(disabled.as_slice(), ", ");
            let detail = concat2(
                "native bundle proof authority requires the full safety profile; disabled: ",
                listed.as_str(),
            );
            return Err(error::invalid_input("translate_options", detail.as_str()));
        }
        match validate_native_bundle_proof_authority_input(bundle, profile) {
            Ok(()) => {},
            Err(fault) => {
                return Err(fault);
            },
        }
        match self.translate_obligations(bundle, translate) {
            Ok(translated) => backend.deliver_bundle(&self.typed_runner, translated),
            Err(fault) => Err(fault),
        }
    }

    /// Translates and solves the requests of a bundle. Constructs that only the
    /// live source lowering may generate are refused. `admit_borrows` admits
    /// borrows as transparent aliases.
    pub fn solve_bundle_native_proof_grade<T, N, C, K, H, L, P, D, W, S, R, A, F, G>(
        &self,
        bundle: &NativeVerificationBundle,
        admit_borrows: bool,
        translate: &T,
        backend: &BundleBackend<N, C, K, H, L, P, D, W, S, R, A, F, G>,
    ) -> (answer: NativeSolveResult<NativeTrustIrChcPdrBundleEvidence>) where
        T: Fn(&NativeVerificationBundle, &TranslateOptions) -> Result<
            Vec<NativeTrustMcChcPdrObligation>,
            String,
        >,
        N: Fn(&ChcProblem) -> String,
        C: Fn(&str) -> String,
        K: Fn(&FullVerificationCacheKeyParts) -> FullVerificationCacheKey,
        H: Fn(&[u8]) -> EvidenceHash,
        L: Fn(&MirChcPdrObligation, &CandidateBytes) -> Option<ChcPdrProofEvidence>,
        P: Fn(&ArtifactBytes) -> Option<FullVerificationArtifact>,
        D: Fn(&ChcProblem, SolveTimeout) -> Option<AcyclicDecision>,
        W: Fn(&ChcProblem, SolveTimeout) -> Option<LoopLaneRun>,
        S: Fn(&ChcProblem, u32) -> Option<AcyclicDecision>,
        R: Fn(&ChcProblem, SolveTimeout) -> Option<Result<ProofRun, String>>,
        A: Fn(&FullVerificationVerdict) -> Admission,
        F: Fn(&FullVerificationVerdict) -> Value,
        G: Fn(&ProofEvidenceRejection) -> String,

        requires
            identity::millis_fit(self.solving().timeout),
            translate.requires((bundle, &self.translating())),
            backend.total(),
        ensures
            self.answers(
                *bundle,
                (AdmissionProfile { source_generation_authorized: false, admit_borrows }),
                *translate,
                *backend,
                answer,
            ),
    {
        let profile = AdmissionProfile { source_generation_authorized: false, admit_borrows };
        self.solve_bundle_native_proof_grade_inner(bundle, profile, translate, backend)
    }

    /// Translates and solves the requests of a bundle that comes from the live
    /// source lowering. `authorized` tells whether the authority that came with it
    /// covers this very bundle.
    pub fn solve_bundle_native_proof_grade_with_source_authority<T, N, C, K, H, L, P, D, W, S, R, A, F, G>(
        &self,
        bundle: &NativeVerificationBundle,
        authorized: bool,
        admit_borrows: bool,
        translate: &T,
        backend: &BundleBackend<N, C, K, H, L, P, D, W, S, R, A, F, G>,
    ) -> (answer: NativeSolveResult<NativeTrustIrChcPdrBundleEvidence>) where
        T: Fn(&NativeVerificationBundle, &TranslateOptions) -> Result<
            Vec<NativeTrustMcChcPdrObligation>,
            String,
        >,
        N: Fn(&ChcProblem) -> String,
        C: Fn(&str) -> String,
        K: Fn(&FullVerificationCacheKeyParts) -> FullVerificationCacheKey,
        H: Fn(&[u8]) -> EvidenceHash,
        L: Fn(&MirChcPdrObligation, &CandidateBytes) -> Option<ChcPdrProofEvidence>,
        P: Fn(&ArtifactBytes) -> Option<FullVerificationArtifact>,
        D: Fn(&ChcProblem, SolveTimeout) -> Option<AcyclicDecision>,
        W: Fn(&ChcProblem, SolveTimeout) -> Option<LoopLaneRun>,
        S: Fn(&ChcProblem, u32) -> Option<AcyclicDecision>,
        R: Fn(&ChcProblem, SolveTimeout) -> Option<Result<ProofRun, String>>,
        A: Fn(&FullVerificationVerdict) -> Admission,
        F: Fn(&FullVerificationVerdict) -> Value,
        G: Fn(&ProofEvidenceRejection) -> String,

        requires
            identity::millis_fit(self.solving().timeout),
            translate.requires((bundle, &self.translating())),
            backend.total(),
        ensures
            self.answers(
                *bundle,
                (AdmissionProfile { source_generation_authorized: authorized, admit_borrows }),
                *translate,
                *backend,
                answer,
            ),
    {
        let profile = AdmissionProfile { source_generation_authorized: authorized, admit_borrows };
        self.solve_bundle_native_proof_grade_inner(bundle, profile, translate, backend)
    }
}

} // verus!
