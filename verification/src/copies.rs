//! Copies of responses. A copy holds the same content and no seal.
use vstd::prelude::*;
use vstd::string::*;

use crate::evidence;
use crate::evidence::{
    ArtifactBytes, ChcPdrRefutationWitness, ChcPdrSolveOutcome, ChcPdrSolveStatus, EvidenceHash,
    NativeTypedChcObligationMetadata,
};
use crate::json;
use crate::json::{json_copy, JsonModel};
use crate::seal::{NativeProofSeal, TypedChcPdrFullVerification};
use crate::text;
use crate::text::copy_texts;
use crate::transport;
use crate::verdicts::{ChcPdrProofEvidence, FullVerificationArtifact, FullVerificationVerdict};

verus! {

/// What metadata are.
pub struct MetadataModel {
    pub producer: Seq<char>,
    pub verification_mode: Seq<char>,
    pub native_request_id: u32,
    pub function_id: u32,
    pub proof_obligation_ids: Seq<u32>,
    pub lineage_root_ids: Seq<u32>,
    pub structural_reachability_complete: bool,
    pub fail_closed_lowering_site_count: u32,
    pub fail_closed_lowering_reasons: Seq<Seq<char>>,
    pub adapter_input: JsonModel,
    pub source_digest: JsonModel,
    pub trust_ir_module_digest: JsonModel,
    pub lineage_manifest_digest: JsonModel,
    pub compiler_facts_digest: JsonModel,
    pub replay_identity: JsonModel,
    pub replay_context: JsonModel,
    pub serialized: JsonModel,
}

impl View for NativeTypedChcObligationMetadata {
    type V = MetadataModel;

    open spec fn view(&self) -> MetadataModel {
        MetadataModel {
            producer: self.producer@,
            verification_mode: self.verification_mode@,
            native_request_id: self.native_request_id,
            function_id: self.function_id,
            proof_obligation_ids: self.proof_obligation_ids@,
            lineage_root_ids: self.lineage_root_ids@,
            structural_reachability_complete: self.structural_reachability_complete,
            fail_closed_lowering_site_count: self.fail_closed_lowering_site_count,
            fail_closed_lowering_reasons: text::owned_texts(self.fail_closed_lowering_reasons@),
            adapter_input: json::json_content(self.adapter_input),
            source_digest: json::json_content(self.source_digest),
            trust_ir_module_digest: json::json_content(self.trust_ir_module_digest),
            lineage_manifest_digest: json::json_content(self.lineage_manifest_digest),
            compiler_facts_digest: json::json_content(self.compiler_facts_digest),
            replay_identity: json::json_content(self.replay_identity),
            replay_context: json::json_content(self.replay_context),
            serialized: json::json_content(self.serialized),
        }
    }
}

fn copy_numbers(numbers: &Vec<u32>) -> (copy: Vec<u32>)
    ensures
        copy@ == numbers@,
{
    let mut copy: Vec<u32> = Vec::new();
    for i in 0..numbers.len()
        invariant
            copy@ == numbers@.take(i as int),
    {
        copy.push(numbers[i]);
        assert(copy@ =~= numbers@.take(i + 1));
    }
    assert(copy@ =~= numbers@);
    copy
}

impl NativeTypedChcObligationMetadata {
    /// The same metadata.
    pub fn duplicate(&self) -> (copy: NativeTypedChcObligationMetadata)
        ensures
            copy@ == self@,
    {
        NativeTypedChcObligationMetadata {
            producer: self.producer.clone(),
            verification_mode: self.verification_mode.clone(),
            native_request_id: self.native_request_id,
            function_id: self.function_id,
            proof_obligation_ids: copy_numbers(&self.proof_obligation_ids),
            lineage_root_ids: copy_numbers(&self.lineage_root_ids),
            structural_reachability_complete: self.structural_reachability_complete,
            fail_closed_lowering_site_count: self.fail_closed_lowering_site_count,
            fail_closed_lowering_reasons: copy_texts(&self.fail_closed_lowering_reasons),
            adapter_input: json_copy(&self.adapter_input),
            source_digest: json_copy(&self.source_digest),
            trust_ir_module_digest: json_copy(&self.trust_ir_module_digest),
            lineage_manifest_digest: json_copy(&self.lineage_manifest_digest),
            compiler_facts_digest: json_copy(&self.compiler_facts_digest),
            replay_identity: json_copy(&self.replay_identity),
            replay_context: json_copy(&self.replay_context),
            serialized: json_copy(&self.serialized),
        }
    }
}

/// Whether two published artifacts are the same.
pub open spec fn same_artifact(
    left: FullVerificationArtifact,
    right: FullVerificationArtifact,
) -> bool {
    &&& left.kind == right.kind
    &&& left.label@ == right.label@
    &&& evidence::optional_hash(left.digest) == evidence::optional_hash(right.digest)
    &&& left.byte_len == right.byte_len
    &&& match (left.materialization, right.materialization) {
        (Some(left), Some(right)) => transport::same_retained(left, right),
        (None, None) => true,
        _ => false,
    }
}

fn copy_hash(hash: &Option<EvidenceHash>) -> (copy: Option<EvidenceHash>)
    ensures
        evidence::optional_hash(copy) == evidence::optional_hash(*hash),
{
    match hash {
        Some(hash) => Some(hash.duplicate()),
        None => None,
    }
}

impl FullVerificationArtifact {
    /// The same artifact.
    pub fn duplicate(&self) -> (copy: FullVerificationArtifact)
        ensures
            same_artifact(copy, *self),
    {
        let materialization = match &self.materialization {
            Some(retained) => Some(retained.duplicate()),
            None => None,
        };
        FullVerificationArtifact {
            kind: self.kind,
            label: self.label.clone(),
            digest: copy_hash(&self.digest),
            byte_len: self.byte_len,
            materialization,
        }
    }
}

/// Whether two candidates are the same.
pub open spec fn same_evidence(left: ChcPdrProofEvidence, right: ChcPdrProofEvidence) -> bool {
    &&& left.obligation_id@ == right.obligation_id@
    &&& left.normalized_input@ == right.normalized_input@
    &&& left.normalized_input_hash@ == right.normalized_input_hash@
    &&& match (left.native_metadata, right.native_metadata) {
        (Some(left), Some(right)) => left@ == right@,
        (None, None) => true,
        _ => false,
    }
    &&& left.stats == right.stats
    &&& left.artifacts@.len() == right.artifacts@.len()
    &&& forall|i: int|
        0 <= i < left.artifacts@.len() ==> same_artifact(
            #[trigger] left.artifacts@[i],
            right.artifacts@[i],
        )
    &&& evidence::optional_hash(left.cache_key) == evidence::optional_hash(right.cache_key)
    &&& match (left.replay_check_status, right.replay_check_status) {
        (Some(left), Some(right)) => json::json_content(left) == json::json_content(right),
        (None, None) => true,
        _ => false,
    }
}

impl ChcPdrProofEvidence {
    /// The same candidate.
    pub fn duplicate(&self) -> (copy: ChcPdrProofEvidence)
        ensures
            same_evidence(copy, *self),
    {
        let native_metadata = match &self.native_metadata {
            Some(metadata) => Some(metadata.duplicate()),
            None => None,
        };
        let replay_check_status = match &self.replay_check_status {
            Some(status) => Some(json_copy(status)),
            None => None,
        };
        let mut artifacts: Vec<FullVerificationArtifact> = Vec::new();
        for i in 0..self.artifacts.len()
            invariant
                artifacts@.len() == i,
                forall|j: int|
                    0 <= j < i ==> same_artifact(#[trigger] artifacts@[j], self.artifacts@[j]),
        {
            artifacts.push(self.artifacts[i].duplicate());
        }
        ChcPdrProofEvidence {
            obligation_id: self.obligation_id.clone(),
            normalized_input: self.normalized_input.clone(),
            normalized_input_hash: self.normalized_input_hash.duplicate(),
            native_metadata,
            stats: self.stats,
            artifacts,
            cache_key: copy_hash(&self.cache_key),
            replay_check_status,
        }
    }
}

impl ArtifactBytes {
    /// The same bytes.
    pub fn duplicate(&self) -> (copy: ArtifactBytes)
        ensures
            copy@ == self@,
    {
        let mut bytes: Vec<u8> = Vec::new();
        for i in 0..self.bytes.len()
            invariant
                bytes@ == self.bytes@.take(i as int),
        {
            bytes.push(self.bytes[i]);
            assert(bytes@ =~= self.bytes@.take(i + 1));
        }
        assert(bytes@ =~= self.bytes@);
        ArtifactBytes { kind: self.kind, label: self.label.clone(), bytes }
    }
}

/// Whether two verdicts are the same.
pub open spec fn same_verdict(
    left: FullVerificationVerdict,
    right: FullVerificationVerdict,
) -> bool {
    match (left, right) {
        (
            FullVerificationVerdict::Proved { evidence: left },
            FullVerificationVerdict::Proved { evidence: right },
        ) => same_evidence(left, right),
        (
            FullVerificationVerdict::Failed { counterexample_artifacts: left },
            FullVerificationVerdict::Failed { counterexample_artifacts: right },
        ) => left@.len() == right@.len() && forall|i: int|
            0 <= i < left@.len() ==> (#[trigger] left@[i])@ == right@[i]@,
        (
            FullVerificationVerdict::Unknown { reason: left },
            FullVerificationVerdict::Unknown { reason: right },
        ) => left@ == right@,
        _ => false,
    }
}

impl FullVerificationVerdict {
    /// The same verdict.
    pub fn duplicate(&self) -> (copy: FullVerificationVerdict)
        ensures
            same_verdict(copy, *self),
    {
        match self {
            FullVerificationVerdict::Proved { evidence } => FullVerificationVerdict::Proved {
                evidence: evidence.duplicate(),
            },
            FullVerificationVerdict::Failed { counterexample_artifacts } => {
                let mut copies: Vec<ArtifactBytes> = Vec::new();
                for i in 0..counterexample_artifacts.len()
                    invariant
                        copies@.len() == i,
                        forall|j: int|
                            0 <= j < i ==> (#[trigger] copies@[j])@
                                == counterexample_artifacts@[j]@,
                {
                    copies.push(counterexample_artifacts[i].duplicate());
                }
                FullVerificationVerdict::Failed { counterexample_artifacts: copies }
            },
            FullVerificationVerdict::Unknown { reason } => FullVerificationVerdict::Unknown {
                reason: reason.clone(),
            },
        }
    }
}

impl ChcPdrRefutationWitness {
    /// The same witness.
    pub fn duplicate(&self) -> (copy: ChcPdrRefutationWitness)
        ensures
            copy@ == self@,
    {
        ChcPdrRefutationWitness {
            obligation_id: self.obligation_id.clone(),
            encoded_formula_sha256: self.encoded_formula_sha256.clone(),
            semantic_config_sha256: self.semantic_config_sha256.clone(),
            counterexample_json: self.counterexample_json.clone(),
            verification: self.verification,
            concreteness: self.concreteness,
        }
    }
}

impl ChcPdrSolveOutcome {
    /// The same outcome.
    pub fn duplicate(&self) -> (copy: ChcPdrSolveOutcome)
        ensures
            copy@ == self@,
    {
        let status = match &self.status {
            ChcPdrSolveStatus::Unknown { reason } => ChcPdrSolveStatus::Unknown {
                reason: reason.clone(),
            },
            ChcPdrSolveStatus::Refuted { witness: Some(witness) } => ChcPdrSolveStatus::Refuted {
                witness: Some(witness.duplicate()),
            },
            ChcPdrSolveStatus::Refuted { witness: None } => ChcPdrSolveStatus::Refuted {
                witness: None,
            },
        };
        ChcPdrSolveOutcome {
            obligation_id: self.obligation_id.clone(),
            status,
            stats: self.stats,
            diagnostics: copy_texts(&self.diagnostics),
        }
    }
}

/// Whether two responses hold the same, their seals aside.
pub open spec fn alike(
    left: TypedChcPdrFullVerification,
    right: TypedChcPdrFullVerification,
) -> bool {
    &&& left.route == right.route
    &&& left.cache_key.same_as(right.cache_key)
    &&& left.artifact_directory@ == right.artifact_directory@
    &&& left.outcome@ == right.outcome@
    &&& same_verdict(left.verdict, right.verdict)
}

/// Whether two responses hold the same, seals included.
pub open spec fn same_whole(
    left: TypedChcPdrFullVerification,
    right: TypedChcPdrFullVerification,
) -> bool {
    alike(left, right) && left.seal() == right.seal()
}

impl Clone for TypedChcPdrFullVerification {
    /// The same response without its seal: authority is not copied.
    fn clone(&self) -> (copy: TypedChcPdrFullVerification)
        ensures
            alike(copy, *self),
            copy.seal() is None,
    {
        TypedChcPdrFullVerification {
            route: self.route,
            cache_key: self.cache_key.duplicate(),
            artifact_directory: self.artifact_directory.clone(),
            outcome: self.outcome.duplicate(),
            verdict: self.verdict.duplicate(),
            private_native_proof_seal: NativeProofSeal::none(),
        }
    }
}

} // verus!
