//! Typed obligations, solver outcomes and proof evidence.
use serde_json::Value;
use vstd::prelude::*;
use vstd::string::*;

use crate::json::{json_bytes, JsonModel};
use crate::json;
use crate::text;
use crate::text::same_text;
use crate::vc::ChcVc;

verus! {

/// Content digest.
#[derive(Debug, PartialEq, Eq)]
pub struct EvidenceHash {
    /// Name of the digest function.
    pub algorithm: String,
    /// The digest in hexadecimal.
    pub value: String,
}

/// What a digest is.
pub struct HashModel {
    pub algorithm: Seq<char>,
    pub value: Seq<char>,
}

impl View for EvidenceHash {
    type V = HashModel;

    open spec fn view(&self) -> HashModel {
        HashModel { algorithm: self.algorithm@, value: self.value@ }
    }
}

impl EvidenceHash {
    /// The same digest.
    pub fn duplicate(&self) -> (copy: EvidenceHash)
        ensures
            copy@ == self@,
    {
        EvidenceHash { algorithm: self.algorithm.clone(), value: self.value.clone() }
    }

    /// Whether two digests are the same.
    pub fn same(&self, other: &EvidenceHash) -> (equal: bool)
        ensures
            equal == (self@ == other@),
    {
        same_text(self.algorithm.as_str(), other.algorithm.as_str()) && same_text(
            self.value.as_str(),
            other.value.as_str(),
        )
    }
}

/// What an optional digest is.
pub open spec fn optional_hash(hash: Option<EvidenceHash>) -> Option<HashModel> {
    match hash {
        Some(hash) => Some(hash@),
        None => None,
    }
}

pub(crate) fn is_hash(found: &Option<EvidenceHash>, wanted: &EvidenceHash) -> (yes: bool)
    ensures
        yes == (optional_hash(*found) == Some(wanted@)),
{
    match found {
        Some(found) => found.same(wanted),
        None => false,
    }
}

/// Whether a digest function may give the digest for the bytes.
pub open spec fn digests<H: Fn(&[u8]) -> EvidenceHash>(
    sha256: H,
    bytes: Seq<u8>,
    hash: HashModel,
) -> bool {
    exists|slice: &[u8], out: EvidenceHash| #[trigger]
        sha256.ensures((slice,), out) && slice@ == bytes && out@ == hash
}

/// Whether a digest function takes all bytes.
pub open spec fn total<H: Fn(&[u8]) -> EvidenceHash>(sha256: H) -> bool {
    forall|slice: &[u8]| #[trigger] sha256.requires((slice,))
}

/// Whether a digest function gives the same bytes one digest.
pub open spec fn settled<H: Fn(&[u8]) -> EvidenceHash>(sha256: H) -> bool {
    forall|bytes: Seq<u8>, left: HashModel, right: HashModel|
        #![trigger digests(sha256, bytes, left), digests(sha256, bytes, right)]
        digests(sha256, bytes, left) && digests(sha256, bytes, right) ==> left == right
}

/// Whether a digest function gives different bytes digests of different values.
pub open spec fn tells_apart<H: Fn(&[u8]) -> EvidenceHash>(sha256: H) -> bool {
    forall|left: Seq<u8>, right: Seq<u8>, one: HashModel, other: HashModel|
        #![trigger digests(sha256, left, one), digests(sha256, right, other)]
        digests(sha256, left, one) && digests(sha256, right, other) && one.value == other.value
            ==> left == right
}

/// Digests bytes.
pub(crate) fn digest_bytes<H: Fn(&[u8]) -> EvidenceHash>(sha256: &H, bytes: &Vec<u8>) -> (hash:
    EvidenceHash)
    requires
        total(*sha256),
    ensures
        digests(*sha256, bytes@, hash@),
{
    let slice = bytes.as_slice();
    let hash = sha256(slice);
    assert(sha256.ensures((slice,), hash));
    hash
}

/// Digests a text in UTF-8.
pub(crate) fn digest_text<H: Fn(&[u8]) -> EvidenceHash>(sha256: &H, content: &str) -> (hash:
    EvidenceHash)
    requires
        total(*sha256),
    ensures
        digests(*sha256, vstd::utf8::encode_utf8(content@), hash@),
{
    let slice = content.as_bytes();
    let hash = sha256(slice);
    assert(sha256.ensures((slice,), hash));
    hash
}

/// Size of a typed problem.
#[derive(Debug, Clone, Copy, PartialEq, Eq, Structural)]
pub struct ChcPdrStats {
    pub relation_count: usize,
    pub clause_count: usize,
}

/// Engine that a solve asks for.
#[derive(Debug, Clone, Copy, PartialEq, Eq, Structural)]
pub enum ChcPdrEngine {
    /// The driver chooses.
    Auto,
    /// Property-directed reachability.
    Pdr,
    /// Adaptive portfolio.
    AdaptivePortfolio,
}

impl ChcPdrEngine {
    /// Name of the engine.
    pub open spec fn label(self) -> Seq<char> {
        match self {
            ChcPdrEngine::Auto => "Auto"@,
            ChcPdrEngine::Pdr => "Pdr"@,
            ChcPdrEngine::AdaptivePortfolio => "AdaptivePortfolio"@,
        }
    }

    /// Name of the engine.
    pub fn name(self) -> (name: &'static str)
        ensures
            name@ == self.label(),
    {
        match self {
            ChcPdrEngine::Auto => "Auto",
            ChcPdrEngine::Pdr => "Pdr",
            ChcPdrEngine::AdaptivePortfolio => "AdaptivePortfolio",
        }
    }
}

/// Wall-clock limit of a solve.
#[derive(Debug, Clone, Copy, PartialEq, Eq, Structural)]
pub struct SolveTimeout {
    pub secs: u64,
    /// Below a second.
    pub nanos: u32,
}

/// Limit of a solve that sets none, in seconds.
pub const DEFAULT_TYPED_CHC_TIMEOUT_SECS: u64 = 120;

/// What the watchdog grants beyond a solve's limit, in seconds.
pub const WATCHDOG_GRACE_SECS: u64 = 2;

/// Options of a typed solve.
#[derive(Debug, Clone, Copy, PartialEq, Eq, Structural)]
pub struct ChcPdrSolveOptions {
    pub engine: ChcPdrEngine,
    pub timeout: Option<SolveTimeout>,
    pub produce_proof_certificate: bool,
}

impl ChcPdrSolveOptions {
    /// The driver chooses the engine and the limit, and no certificate is asked for.
    pub open spec fn standard() -> ChcPdrSolveOptions {
        ChcPdrSolveOptions {
            engine: ChcPdrEngine::Auto,
            timeout: None,
            produce_proof_certificate: false,
        }
    }
}

impl Default for ChcPdrSolveOptions {
    fn default() -> (options: ChcPdrSolveOptions)
        ensures
            options == ChcPdrSolveOptions::standard(),
    {
        ChcPdrSolveOptions {
            engine: ChcPdrEngine::Auto,
            timeout: None,
            produce_proof_certificate: false,
        }
    }
}

/// The limit that a solve runs under.
pub open spec fn effective_timeout(options: ChcPdrSolveOptions) -> SolveTimeout {
    match options.timeout {
        Some(timeout) => timeout,
        None => SolveTimeout { secs: DEFAULT_TYPED_CHC_TIMEOUT_SECS, nanos: 0 },
    }
}

/// The limit that a solve runs under.
pub fn effective_typed_chc_timeout(options: &ChcPdrSolveOptions) -> (timeout: SolveTimeout)
    ensures
        timeout == effective_timeout(*options),
{
    match options.timeout {
        Some(timeout) => timeout,
        None => SolveTimeout { secs: DEFAULT_TYPED_CHC_TIMEOUT_SECS, nanos: 0 },
    }
}

/// The limit that the watchdog enforces: a little beyond the solve's own, or the
/// longest there is.
pub open spec fn watchdog_limit(timeout: SolveTimeout) -> SolveTimeout {
    if timeout.secs + WATCHDOG_GRACE_SECS <= u64::MAX {
        SolveTimeout { secs: (timeout.secs + WATCHDOG_GRACE_SECS) as u64, nanos: timeout.nanos }
    } else {
        SolveTimeout { secs: u64::MAX, nanos: 999_999_999 }
    }
}

/// The limit that the watchdog enforces.
pub fn watchdog_ceiling(timeout: SolveTimeout) -> (ceiling: SolveTimeout)
    ensures
        ceiling == watchdog_limit(timeout),
{
    match timeout.secs.checked_add(WATCHDOG_GRACE_SECS) {
        Some(secs) => SolveTimeout { secs, nanos: timeout.nanos },
        None => SolveTimeout { secs: u64::MAX, nanos: 999_999_999 },
    }
}

/// What an obligation claims.
#[derive(Debug, Clone, Copy, PartialEq, Eq, Structural)]
pub enum MirObligationKind {
    /// No panic, overflow or access out of bounds.
    Assertion,
    /// Any other claim.
    Other,
}

/// Metadata of an obligation that comes from a native bundle.
#[derive(Debug, PartialEq, Eq)]
pub struct NativeTypedChcObligationMetadata {
    pub producer: String,
    pub verification_mode: String,
    pub native_request_id: u32,
    pub function_id: u32,
    pub proof_obligation_ids: Vec<u32>,
    pub lineage_root_ids: Vec<u32>,
    /// The producer claims that every panic path has its error rule.
    pub structural_reachability_complete: bool,
    /// How many constructs were lowered to unconditional error rules.
    pub fail_closed_lowering_site_count: u32,
    /// The names of those constructs.
    pub fail_closed_lowering_reasons: Vec<String>,
    /// Serialized form of the adapter input.
    pub adapter_input: Value,
    /// Serialized form of the source digest.
    pub source_digest: Value,
    /// Serialized form of the module digest.
    pub trust_ir_module_digest: Value,
    /// Serialized form of the lineage digest.
    pub lineage_manifest_digest: Value,
    /// Serialized form of the digest of the compiler facts.
    pub compiler_facts_digest: Value,
    /// Serialized form of the replay identity.
    pub replay_identity: Value,
    /// Serialized form of the replay context.
    pub replay_context: Value,
    /// Serialized form of the whole.
    pub serialized: Value,
}

/// Typed obligation.
#[derive(Debug, PartialEq, Eq)]
pub struct MirChcPdrObligation {
    pub obligation_id: String,
    pub function_name: String,
    pub kind: MirObligationKind,
    /// Name of the kind.
    pub kind_name: String,
    /// Serialized form of the kind.
    pub kind_form: Value,
    /// Name of the origin.
    pub origin_name: String,
    /// Serialized form of the origin.
    pub origin_form: Value,
    pub vc: ChcVc,
    pub native_metadata: Option<NativeTypedChcObligationMetadata>,
    /// Why the obligation is malformed, where it is.
    pub fault: Option<String>,
}

impl MirChcPdrObligation {
    /// Size of the problem.
    pub open spec fn size(self) -> ChcPdrStats {
        ChcPdrStats {
            relation_count: self.vc.relations@.len() as usize,
            clause_count: self.vc.rules@.len() as usize,
        }
    }

    /// Size of the problem.
    pub fn stats(&self) -> (stats: ChcPdrStats)
        ensures
            stats == self.size(),
    {
        ChcPdrStats {
            relation_count: self.vc.relations.len(),
            clause_count: self.vc.rules.len(),
        }
    }

    /// Whether some rule derives the query target.
    pub open spec fn target_derived(self) -> bool {
        exists|i: int|
            0 <= i < self.vc.rules@.len() && (#[trigger] self.vc.rules@[i]).head.name@
                == self.vc.query_target@
    }

    /// Whether no rule derives the query target.
    pub fn is_trivially_safe(&self) -> (safe: bool)
        ensures
            safe == !self.target_derived(),
    {
        for i in 0..self.vc.rules.len()
            invariant
                forall|j: int|
                    0 <= j < i ==> (#[trigger] self.vc.rules@[j]).head.name@
                        != self.vc.query_target@,
        {
            if same_text(
                self.vc.rules[i].head.name.as_str(),
                self.vc.query_target.as_str(),
            ) {
                assert(self.vc.rules@[i as int].head.name@ == self.vc.query_target@);
                return false;
            }
        }
        true
    }

    /// Whether the producer claims that every panic path has its error rule.
    pub open spec fn structurally_complete(self) -> bool {
        self.native_metadata matches Some(metadata) && metadata.structural_reachability_complete
    }

    /// Whether the producer claims that every panic path has its error rule.
    pub(crate) fn claims_complete(&self) -> (yes: bool)
        ensures
            yes == self.structurally_complete(),
    {
        match &self.native_metadata {
            Some(metadata) => metadata.structural_reachability_complete,
            None => false,
        }
    }

    /// How many constructs were lowered to unconditional error rules.
    pub open spec fn fail_closed_sites(self) -> u32 {
        match self.native_metadata {
            Some(metadata) => metadata.fail_closed_lowering_site_count,
            None => 0,
        }
    }

    /// The names of the constructs that were lowered to unconditional error rules.
    pub open spec fn fail_closed_reasons(self) -> Seq<Seq<char>> {
        match self.native_metadata {
            Some(metadata) => text::owned_texts(metadata.fail_closed_lowering_reasons@),
            None => Seq::empty(),
        }
    }
}

/// How many constructs of an obligation were lowered to unconditional error
/// rules.
pub fn fail_closed_lowering_sites(obligation: &MirChcPdrObligation) -> (sites: u32)
    ensures
        sites == obligation.fail_closed_sites(),
{
    match &obligation.native_metadata {
        Some(metadata) => metadata.fail_closed_lowering_site_count,
        None => 0,
    }
}

/// The names of the constructs that were lowered to unconditional error rules.
pub fn fail_closed_lowering_reasons(obligation: &MirChcPdrObligation) -> (reasons: Vec<String>)
    ensures
        text::owned_texts(reasons@) == obligation.fail_closed_reasons(),
{
    let mut reasons: Vec<String> = Vec::new();
    match &obligation.native_metadata {
        Some(metadata) => {
            let own = &metadata.fail_closed_lowering_reasons;
            for i in 0..own.len()
                invariant
                    reasons@.len() == i,
                    forall|j: int| 0 <= j < i ==> (#[trigger] reasons@[j])@ == own@[j]@,
            {
                reasons.push(own[i].clone());
            }
            assert(text::owned_texts(reasons@) =~= text::owned_texts(own@));
        },
        None => {
            assert(text::owned_texts(reasons@) =~= Seq::empty());
        },
    }
    reasons
}

/// How a counterexample was checked.
#[derive(Debug, Clone, Copy, PartialEq, Eq, Structural)]
pub enum ChcPdrCexVerification {
    /// The engine replayed its own trace.
    AyChcReplayVerified { step_count: u64 },
    /// A model of an acyclic error derivation.
    DirectSmtModel,
    /// A model of an error derivation of a bounded unrolling.
    BoundedUnrollDirectSmtModel { k: u64 },
}

/// How exact the encoding was that a counterexample refutes.
#[derive(Debug, Clone, Copy, PartialEq, Eq, Structural)]
pub enum ChcPdrEncodingConcreteness {
    /// Nothing but what the counts say was lost.
    ExactEncoding { translation_drops: u64, havocs: u64, undef_diagnostic_havocs: u64 },
    /// Nothing is attested.
    Unattested,
}

impl ChcPdrEncodingConcreteness {
    /// Whether the encoding lost nothing.
    pub open spec fn lossless(self) -> bool {
        self == (ChcPdrEncodingConcreteness::ExactEncoding {
            translation_drops: 0,
            havocs: 0,
            undef_diagnostic_havocs: 0,
        })
    }

    /// Whether the encoding lost nothing.
    pub fn is_exact_with_zero_counts(&self) -> (yes: bool)
        ensures
            yes == self.lossless(),
    {
        match self {
            ChcPdrEncodingConcreteness::ExactEncoding {
                translation_drops,
                havocs,
                undef_diagnostic_havocs,
            } => *translation_drops == 0 && *havocs == 0 && *undef_diagnostic_havocs == 0,
            ChcPdrEncodingConcreteness::Unattested => false,
        }
    }
}

/// Witness of a refutation.
#[derive(Debug, PartialEq, Eq)]
pub struct ChcPdrRefutationWitness {
    pub obligation_id: String,
    /// Digest of the normalized input that is refuted.
    pub encoded_formula_sha256: String,
    /// Digest of the configuration that selects the meaning of the input.
    pub semantic_config_sha256: String,
    /// The counterexample as JSON.
    pub counterexample_json: String,
    pub verification: ChcPdrCexVerification,
    pub concreteness: ChcPdrEncodingConcreteness,
}

/// What a witness is.
pub struct WitnessModel {
    pub obligation_id: Seq<char>,
    pub encoded_formula_sha256: Seq<char>,
    pub semantic_config_sha256: Seq<char>,
    pub counterexample_json: Seq<char>,
    pub verification: ChcPdrCexVerification,
    pub concreteness: ChcPdrEncodingConcreteness,
}

impl View for ChcPdrRefutationWitness {
    type V = WitnessModel;

    open spec fn view(&self) -> WitnessModel {
        WitnessModel {
            obligation_id: self.obligation_id@,
            encoded_formula_sha256: self.encoded_formula_sha256@,
            semantic_config_sha256: self.semantic_config_sha256@,
            counterexample_json: self.counterexample_json@,
            verification: self.verification,
            concreteness: self.concreteness,
        }
    }
}

/// What an optional witness is.
pub open spec fn optional_witness(witness: Option<ChcPdrRefutationWitness>) -> Option<WitnessModel> {
    match witness {
        Some(witness) => Some(witness@),
        None => None,
    }
}

/// Status of a typed solve.
#[derive(Debug, PartialEq, Eq)]
pub enum ChcPdrSolveStatus {
    /// Not decided, or decided by evidence that still has to be replayed.
    Unknown { reason: String },
    /// The query target is derivable.
    Refuted { witness: Option<ChcPdrRefutationWitness> },
}

/// What a status is.
pub enum StatusModel {
    Unknown(Seq<char>),
    Refuted(Option<WitnessModel>),
}

impl View for ChcPdrSolveStatus {
    type V = StatusModel;

    open spec fn view(&self) -> StatusModel {
        match self {
            ChcPdrSolveStatus::Unknown { reason } => StatusModel::Unknown(reason@),
            ChcPdrSolveStatus::Refuted { witness } => StatusModel::Refuted(
                optional_witness(*witness),
            ),
        }
    }
}

/// Outcome of a typed solve.
#[derive(Debug, PartialEq, Eq)]
pub struct ChcPdrSolveOutcome {
    pub obligation_id: String,
    pub status: ChcPdrSolveStatus,
    pub stats: ChcPdrStats,
    pub diagnostics: Vec<String>,
}

/// What an outcome is.
pub struct OutcomeModel {
    pub obligation_id: Seq<char>,
    pub status: StatusModel,
    pub stats: ChcPdrStats,
    pub diagnostics: Seq<Seq<char>>,
}

impl View for ChcPdrSolveOutcome {
    type V = OutcomeModel;

    open spec fn view(&self) -> OutcomeModel {
        OutcomeModel {
            obligation_id: self.obligation_id@,
            status: self.status@,
            stats: self.stats,
            diagnostics: text::owned_texts(self.diagnostics@),
        }
    }
}

/// An outcome that decides nothing.
pub open spec fn undecided(
    obligation_id: Seq<char>,
    reason: Seq<char>,
    stats: ChcPdrStats,
    diagnostic: Seq<char>,
) -> OutcomeModel {
    OutcomeModel {
        obligation_id,
        status: StatusModel::Unknown(reason),
        stats,
        diagnostics: seq![diagnostic],
    }
}

/// A refutation.
pub open spec fn refuted(
    obligation_id: Seq<char>,
    witness: Option<WitnessModel>,
    stats: ChcPdrStats,
    diagnostic: Seq<char>,
) -> OutcomeModel {
    OutcomeModel {
        obligation_id,
        status: StatusModel::Refuted(witness),
        stats,
        diagnostics: seq![diagnostic],
    }
}

pub(crate) fn undecided_outcome(
    obligation_id: &str,
    reason: &str,
    stats: ChcPdrStats,
    diagnostic: &str,
) -> (outcome: ChcPdrSolveOutcome)
    ensures
        outcome@ == undecided(obligation_id@, reason@, stats, diagnostic@),
{
    let outcome = ChcPdrSolveOutcome {
        obligation_id: obligation_id.to_owned(),
        status: ChcPdrSolveStatus::Unknown { reason: reason.to_owned() },
        stats,
        diagnostics: vec![diagnostic.to_owned()],
    };
    assert(text::owned_texts(outcome.diagnostics@) =~= seq![diagnostic@]);
    outcome
}

pub(crate) fn refuted_outcome(
    obligation_id: &str,
    witness: Option<ChcPdrRefutationWitness>,
    stats: ChcPdrStats,
    diagnostic: &str,
) -> (outcome: ChcPdrSolveOutcome)
    ensures
        outcome@ == refuted(obligation_id@, optional_witness(witness), stats, diagnostic@),
{
    let outcome = ChcPdrSolveOutcome {
        obligation_id: obligation_id.to_owned(),
        status: ChcPdrSolveStatus::Refuted { witness },
        stats,
        diagnostics: vec![diagnostic.to_owned()],
    };
    assert(text::owned_texts(outcome.diagnostics@) =~= seq![diagnostic@]);
    outcome
}

/// Kind of a proof artifact.
#[derive(Debug, Clone, Copy, PartialEq, Eq, Structural)]
pub enum FullVerificationArtifactKind {
    SolverTranscript,
    ReplayLog,
    CheckedProofReport,
    TypedChcProblem,
    PdrInvariantModel,
    CounterexampleTrace,
    VerificationOptions,
    ResourceLimits,
    CompilerInput,
    SolverBinary,
    NormalizedInput,
    DiagnosticTrace,
}

/// Bytes to be published as an artifact.
#[derive(Debug, PartialEq, Eq)]
pub struct ArtifactBytes {
    pub kind: FullVerificationArtifactKind,
    pub label: String,
    pub bytes: Vec<u8>,
}

/// What bytes to be published are.
pub struct ArtifactModel {
    pub kind: FullVerificationArtifactKind,
    pub label: Seq<char>,
    pub bytes: Seq<u8>,
}

impl View for ArtifactBytes {
    type V = ArtifactModel;

    open spec fn view(&self) -> ArtifactModel {
        ArtifactModel { kind: self.kind, label: self.label@, bytes: self.bytes@ }
    }
}

/// The encoding of a document, to be published as an artifact.
pub open spec fn document_artifact(
    kind: FullVerificationArtifactKind,
    label: Seq<char>,
    document: JsonModel,
) -> ArtifactModel {
    ArtifactModel { kind, label, bytes: json::json_encoding(document) }
}

pub(crate) fn publish_document(
    kind: FullVerificationArtifactKind,
    label: String,
    document: &Value,
) -> (artifact: ArtifactBytes)
    ensures
        artifact@ == document_artifact(kind, label@, json::json_content(*document)),
{
    ArtifactBytes { kind, label, bytes: json_bytes(document) }
}

} // verus!
