//! Diagnostic snapshots of authorized proofs.
//!
//! A snapshot grants nothing: every field of it can be forged. Authority is held
//! by a live, sealed verification only.
use serde_json::Value;
use vstd::prelude::*;
use vstd::string::*;

use crate::evidence;
use crate::evidence::{digest_bytes, EvidenceHash, FullVerificationArtifactKind, HashModel};
use crate::identity::TypedChcPdrRoute;
use crate::text;
use crate::text::{concat4, decimal_text};
use crate::verdicts::{
    ChcPdrProofKind, FullVerificationArtifact, FullVerificationArtifactMaterialization,
    FullVerificationArtifactReference,
};

verus! {

/// Status of a proof in a snapshot.
#[derive(Debug, Clone, Copy, PartialEq, Eq, Structural)]
pub enum NativeTypedProofStatus {
    /// The live producer reported an authorized proof.
    Proved,
    /// The obligation was refuted.
    Refuted,
    /// Nothing was decided.
    Unknown,
}

/// Strength of a proof in a snapshot.
#[derive(Debug, Clone, Copy, PartialEq, Eq, Structural)]
pub enum NativeTypedProofStrength {
    /// The clauses are valid.
    ChcValidity,
    /// An invariant separates the query target.
    PdrInvariant,
}

/// The strength of what a candidate claims.
pub open spec fn strength_of(proof_kind: ChcPdrProofKind) -> NativeTypedProofStrength {
    match proof_kind {
        ChcPdrProofKind::ChcValidity => NativeTypedProofStrength::ChcValidity,
        ChcPdrProofKind::PdrInvariant => NativeTypedProofStrength::PdrInvariant,
    }
}

/// The strength of what a candidate claims.
pub fn native_typed_proof_strength(proof_kind: ChcPdrProofKind) -> (strength:
    NativeTypedProofStrength)
    ensures
        strength == strength_of(proof_kind),
{
    match proof_kind {
        ChcPdrProofKind::ChcValidity => NativeTypedProofStrength::ChcValidity,
        ChcPdrProofKind::PdrInvariant => NativeTypedProofStrength::PdrInvariant,
    }
}

/// The name of the backend of a route.
pub open spec fn backend_label(route: TypedChcPdrRoute, verification_mode: Seq<char>) -> Seq<char> {
    text::concat(
        seq![
            "trust_mc::typed-chc-pdr::"@,
            verification_mode,
            "::"@,
            match route {
                TypedChcPdrRoute::TriviallySafe => "trivial-safe"@,
                TypedChcPdrRoute::PdrProof => "pdr-proof"@,
            },
        ],
    )
}

/// The name of the backend of a route.
pub fn native_typed_backend_label(route: TypedChcPdrRoute, verification_mode: &str) -> (label:
    String)
    ensures
        label@ == backend_label(route, verification_mode@),
{
    let route = match route {
        TypedChcPdrRoute::TriviallySafe => "trivial-safe",
        TypedChcPdrRoute::PdrProof => "pdr-proof",
    };
    concat4("trust_mc::typed-chc-pdr::", verification_mode, "::", route)
}

/// The only proof obligation, where there is exactly one.
pub open spec fn single_id(ids: Seq<u32>) -> Option<u32> {
    if ids.len() == 1 {
        Some(ids[0])
    } else {
        None
    }
}

/// The only proof obligation, where there is exactly one.
pub fn single_native_proof_id(proof_obligation_ids: &[u32]) -> (id: Option<u32>)
    ensures
        id == single_id(proof_obligation_ids@),
{
    if proof_obligation_ids.len() == 1 {
        Some(proof_obligation_ids[0])
    } else {
        None
    }
}

/// Reference to a published artifact.
#[derive(Debug, PartialEq, Eq)]
pub struct NativeTypedProofArtifactRef {
    pub kind: FullVerificationArtifactKind,
    /// Label of the artifact.
    pub uri: String,
    pub digest: Option<EvidenceHash>,
    pub byte_len: Option<u64>,
    pub materialization: Option<FullVerificationArtifactMaterialization>,
}

/// Whether a descriptor with the given digest and length matches retained bytes
/// whose digest was measured.
pub open spec fn describes(
    digest: Option<EvidenceHash>,
    byte_len: Option<u64>,
    bytes: Seq<u8>,
    measured: HashModel,
) -> bool {
    evidence::optional_hash(digest) == Some(measured) && byte_len == Some(bytes.len() as u64)
}

/// Whether retained bytes still match their descriptor.
pub(crate) fn still_described<H: Fn(&[u8]) -> EvidenceHash>(
    digest: &Option<EvidenceHash>,
    byte_len: Option<u64>,
    bytes: &Vec<u8>,
    sha256: &H,
) -> (yes: bool)
    requires
        evidence::total(*sha256),
    ensures
        exists|measured: HashModel| #[trigger]
            evidence::digests(*sha256, bytes@, measured) && yes == describes(
                *digest,
                byte_len,
                bytes@,
                measured,
            ),
{
    let measured = digest_bytes(sha256, bytes);
    assert(evidence::digests(*sha256, bytes@, measured@));
    let same_len = match byte_len {
        Some(byte_len) => byte_len == bytes.len() as u64,
        None => false,
    };
    evidence::is_hash(digest, &measured) && same_len
}

impl NativeTypedProofArtifactRef {
    /// Whether the retained bytes match the descriptor, by the digest that is
    /// measured now.
    pub open spec fn intact<H: Fn(&[u8]) -> EvidenceHash>(self, sha256: H, yes: bool) -> bool {
        match self.materialization {
            None => !yes,
            Some(retained) => exists|measured: HashModel| #[trigger]
                evidence::digests(sha256, retained.bytes@, measured) && yes == describes(
                    self.digest,
                    self.byte_len,
                    retained.bytes@,
                    measured,
                ),
        }
    }

    /// Whether the retained bytes are given back.
    pub open spec fn gives_bytes<H: Fn(&[u8]) -> EvidenceHash>(
        self,
        sha256: H,
        bytes: Option<Seq<u8>>,
    ) -> bool {
        &&& self.intact(sha256, bytes is Some)
        &&& bytes matches Some(bytes) ==> (self.materialization matches Some(retained) && bytes
            == retained.bytes@)
    }

    /// Whether the length of the retained bytes is given back.
    pub open spec fn gives_byte_len<H: Fn(&[u8]) -> EvidenceHash>(
        self,
        sha256: H,
        len: Option<u64>,
    ) -> bool {
        &&& self.intact(sha256, len is Some)
        &&& len matches Some(len) ==> (self.materialization matches Some(retained) && len
            == retained.bytes@.len())
    }

    /// Whether the proof that the artifact belongs to is given back.
    pub open spec fn gives_binding_id<H: Fn(&[u8]) -> EvidenceHash>(
        self,
        sha256: H,
        id: Option<Seq<char>>,
    ) -> bool {
        exists|yes: bool| #[trigger]
            self.intact(sha256, yes) && id == (match self.materialization {
                Some(retained) if yes => text::optional_text(retained.proof_binding_id),
                _ => None,
            })
    }

    /// Whether the artifacts that were consumed or checked are given back.
    pub open spec fn gives_references<H: Fn(&[u8]) -> EvidenceHash>(
        self,
        sha256: H,
        references: Seq<FullVerificationArtifactReference>,
    ) -> bool {
        exists|yes: bool| #[trigger]
            self.intact(sha256, yes) && references == (match self.materialization {
                Some(retained) if yes => retained.referenced_artifacts@,
                _ => Seq::empty(),
            })
    }

    fn is_intact<H: Fn(&[u8]) -> EvidenceHash>(&self, sha256: &H) -> (yes: bool)
        requires
            evidence::total(*sha256),
        ensures
            self.intact(*sha256, yes),
            yes ==> self.materialization is Some,
    {
        match &self.materialization {
            Some(retained) => still_described(
                &self.digest,
                self.byte_len,
                &retained.bytes,
                sha256,
            ),
            None => false,
        }
    }

    /// The retained bytes, only where the descriptor still matches them.
    pub fn materialized_bytes<H: Fn(&[u8]) -> EvidenceHash>(&self, sha256: &H) -> (bytes: Option<
        &Vec<u8>,
    >)
        requires
            evidence::total(*sha256),
        ensures
            self.gives_bytes(
                *sha256,
                match bytes {
                    Some(bytes) => Some(bytes@),
                    None => None,
                },
            ),
    {
        if !self.is_intact(sha256) {
            return None;
        }
        match &self.materialization {
            Some(retained) => Some(&retained.bytes),
            None => None,
        }
    }

    /// The length of the retained bytes, only where the descriptor still matches
    /// them.
    pub fn materialized_byte_len<H: Fn(&[u8]) -> EvidenceHash>(&self, sha256: &H) -> (len: Option<
        u64,
    >)
        requires
            evidence::total(*sha256),
        ensures
            self.gives_byte_len(*sha256, len),
    {
        match self.materialized_bytes(sha256) {
            Some(bytes) => Some(bytes.len() as u64),
            None => None,
        }
    }

    /// The proof that the artifact belongs to, only where the descriptor still
    /// matches the retained bytes.
    pub fn proof_binding_id<H: Fn(&[u8]) -> EvidenceHash>(&self, sha256: &H) -> (id: Option<&str>)
        requires
            evidence::total(*sha256),
        ensures
            self.gives_binding_id(
                *sha256,
                match id {
                    Some(id) => Some(id@),
                    None => None,
                },
            ),
    {
        let yes = self.is_intact(sha256);
        assert(self.intact(*sha256, yes));
        if !yes {
            return None;
        }
        match &self.materialization {
            Some(retained) => match &retained.proof_binding_id {
                Some(id) => Some(id.as_str()),
                None => None,
            },
            None => None,
        }
    }

    /// The artifacts that were consumed or checked; none where the descriptor does
    /// not match the retained bytes.
    pub fn referenced_artifacts<H: Fn(&[u8]) -> EvidenceHash>(&self, sha256: &H) -> (references:
        &[FullVerificationArtifactReference])
        requires
            evidence::total(*sha256),
        ensures
            self.gives_references(*sha256, references@),
    {
        let yes = self.is_intact(sha256);
        assert(self.intact(*sha256, yes));
        if yes {
            match &self.materialization {
                Some(retained) => {
                    return retained.referenced_artifacts.as_slice();
                },
                None => {},
            }
        }
        let none: &[FullVerificationArtifactReference; 0] = &[];
        let slice: &[FullVerificationArtifactReference] = none.as_slice();
        assert(slice@ =~= Seq::empty());
        slice
    }
}

/// The parts of a retained artifact come together: either the descriptor matches
/// the retained bytes, and all that is retained is given back, or nothing of it
/// is.
pub proof fn law_retained_parts_come_together<H: Fn(&[u8]) -> EvidenceHash>(
    artifact: NativeTypedProofArtifactRef,
    sha256: H,
    measured: HashModel,
    bytes: Option<Seq<u8>>,
    len: Option<u64>,
    id: Option<Seq<char>>,
    references: Seq<FullVerificationArtifactReference>,
)
    requires
        evidence::settled(sha256),
        artifact.materialization matches Some(retained) ==> evidence::digests(
            sha256,
            retained.bytes@,
            measured,
        ),
        artifact.gives_bytes(sha256, bytes),
        artifact.gives_byte_len(sha256, len),
        artifact.gives_binding_id(sha256, id),
        artifact.gives_references(sha256, references),
    ensures
        match artifact.materialization {
            Some(retained) if describes(
                artifact.digest,
                artifact.byte_len,
                retained.bytes@,
                measured,
            ) => {
                &&& bytes == Some(retained.bytes@)
                &&& len == artifact.byte_len
                &&& id == text::optional_text(retained.proof_binding_id)
                &&& references == retained.referenced_artifacts@
            },
            _ => bytes is None && len is None && id is None && references.len() == 0,
        },
{
}

/// What a reference from one artifact to another is.
pub open spec fn references_model(
    references: Seq<FullVerificationArtifactReference>,
) -> Seq<(FullVerificationArtifactKind, HashModel)> {
    Seq::new(references.len(), |i: int| (references[i].kind, references[i].digest@))
}

/// Whether two retained records hold the same.
pub open spec fn same_retained(
    left: FullVerificationArtifactMaterialization,
    right: FullVerificationArtifactMaterialization,
) -> bool {
    &&& left.bytes@ == right.bytes@
    &&& match (left.proof_binding_id, right.proof_binding_id) {
        (Some(left), Some(right)) => left@ == right@,
        (None, None) => true,
        _ => false,
    }
    &&& references_model(left.referenced_artifacts@) == references_model(
        right.referenced_artifacts@,
    )
}

impl FullVerificationArtifactMaterialization {
    /// The same record.
    pub fn duplicate(&self) -> (copy: FullVerificationArtifactMaterialization)
        ensures
            same_retained(copy, *self),
    {
        let mut bytes: Vec<u8> = Vec::new();
        for i in 0..self.bytes.len()
            invariant
                bytes@ == self.bytes@.take(i as int),
        {
            bytes.push(self.bytes[i]);
            assert(bytes@ =~= self.bytes@.take(i + 1));
        }
        assert(bytes@ =~= self.bytes@);
        let mut referenced_artifacts: Vec<FullVerificationArtifactReference> = Vec::new();
        for i in 0..self.referenced_artifacts.len()
            invariant
                referenced_artifacts@.len() == i,
                forall|j: int|
                    0 <= j < i ==> (#[trigger] referenced_artifacts@[j]).kind
                        == self.referenced_artifacts@[j].kind && referenced_artifacts@[j].digest@
                        == self.referenced_artifacts@[j].digest@,
        {
            let reference = &self.referenced_artifacts[i];
            referenced_artifacts.push(
                FullVerificationArtifactReference {
                    kind: reference.kind,
                    digest: reference.digest.duplicate(),
                },
            );
        }
        assert(references_model(referenced_artifacts@) =~= references_model(
            self.referenced_artifacts@,
        ));
        let proof_binding_id = match &self.proof_binding_id {
            Some(id) => Some(id.clone()),
            None => None,
        };
        FullVerificationArtifactMaterialization { bytes, proof_binding_id, referenced_artifacts }
    }
}

/// Whether a reference is to an artifact.
pub open spec fn refers_to(
    reference: NativeTypedProofArtifactRef,
    artifact: FullVerificationArtifact,
) -> bool {
    &&& reference.kind == artifact.kind
    &&& reference.uri@ == artifact.label@
    &&& evidence::optional_hash(reference.digest) == evidence::optional_hash(artifact.digest)
    &&& reference.byte_len == artifact.byte_len
    &&& match (reference.materialization, artifact.materialization) {
        (Some(left), Some(right)) => same_retained(left, right),
        (None, None) => true,
        _ => false,
    }
}

/// The reference to an artifact.
pub fn native_typed_artifact_ref(artifact: &FullVerificationArtifact) -> (reference:
    NativeTypedProofArtifactRef)
    ensures
        refers_to(reference, *artifact),
{
    let digest = match &artifact.digest {
        Some(digest) => Some(digest.duplicate()),
        None => None,
    };
    let materialization = match &artifact.materialization {
        Some(retained) => Some(retained.duplicate()),
        None => None,
    };
    NativeTypedProofArtifactRef {
        kind: artifact.kind,
        uri: artifact.label.clone(),
        digest,
        byte_len: artifact.byte_len,
        materialization,
    }
}

/// The artifacts of one kind, in order.
pub open spec fn of_kind(
    artifacts: Seq<FullVerificationArtifact>,
    kind: FullVerificationArtifactKind,
) -> Seq<FullVerificationArtifact>
    decreases artifacts.len(),
{
    if artifacts.len() == 0 {
        Seq::empty()
    } else {
        let front = of_kind(artifacts.drop_last(), kind);
        if artifacts.last().kind == kind {
            front.push(artifacts.last())
        } else {
            front
        }
    }
}

/// Whether references are to artifacts, one for one.
pub open spec fn refer_to(
    references: Seq<NativeTypedProofArtifactRef>,
    artifacts: Seq<FullVerificationArtifact>,
) -> bool {
    &&& references.len() == artifacts.len()
    &&& forall|i: int|
        0 <= i < references.len() ==> refers_to(#[trigger] references[i], artifacts[i])
}

/// The references to the artifacts of one kind.
pub fn native_typed_artifact_refs(
    artifacts: &Vec<FullVerificationArtifact>,
    kind: FullVerificationArtifactKind,
) -> (references: Vec<NativeTypedProofArtifactRef>)
    ensures
        refer_to(references@, of_kind(artifacts@, kind)),
{
    let mut references: Vec<NativeTypedProofArtifactRef> = Vec::new();
    for i in 0..artifacts.len()
        invariant
            refer_to(references@, of_kind(artifacts@.take(i as int), kind)),
    {
        let ghost next = artifacts@.take(i + 1);
        assert(next.drop_last() =~= artifacts@.take(i as int));
        assert(next.last() == artifacts@[i as int]);
        if artifacts[i].kind == kind {
            references.push(native_typed_artifact_ref(&artifacts[i]));
        }
    }
    assert(artifacts@.take(artifacts@.len() as int) =~= artifacts@);
    references
}

/// The references to all artifacts.
pub fn native_typed_all_artifact_refs(artifacts: &Vec<FullVerificationArtifact>) -> (references:
    Vec<NativeTypedProofArtifactRef>)
    ensures
        refer_to(references@, artifacts@),
{
    let mut references: Vec<NativeTypedProofArtifactRef> = Vec::new();
    for i in 0..artifacts.len()
        invariant
            references@.len() == i,
            forall|j: int|
                0 <= j < i ==> refers_to(#[trigger] references@[j], artifacts@[j]),
    {
        references.push(native_typed_artifact_ref(&artifacts[i]));
    }
    references
}

/// How many artifacts of one role a snapshot may carry.
pub const MAX_NATIVE_PROOF_ROLE_ARTIFACTS: usize = 8;

/// How many artifacts a snapshot may carry in all.
pub const MAX_NATIVE_PROOF_RESPONSE_ARTIFACTS: usize = 16;

/// How many diagnostics a snapshot may carry.
pub const MAX_NATIVE_PROOF_DIAGNOSTICS: usize = 64;

/// Snapshot of an authorized proof.
#[derive(Debug, PartialEq, Eq)]
pub struct NativeTypedChcPdrProofTransport {
    pub schema_version: u32,
    /// Producer of the obligation.
    pub suite: String,
    /// Backend that produced the evidence.
    pub backend: String,
    pub request_id: u32,
    /// The only proof obligation, where there is exactly one.
    pub proof_id: Option<u32>,
    /// Identifier of the obligation.
    pub native_id: String,
    pub proof_status: NativeTypedProofStatus,
    pub proof_strength: NativeTypedProofStrength,
    pub solver_artifacts: Vec<NativeTypedProofArtifactRef>,
    pub replay_artifacts: Vec<NativeTypedProofArtifactRef>,
    pub check_artifacts: Vec<NativeTypedProofArtifactRef>,
    pub response_artifacts: Vec<NativeTypedProofArtifactRef>,
    /// Serialized form of what replay and check reported.
    pub replay_check_status: Option<Value>,
    pub diagnostics: Vec<String>,
}

/// Version of the snapshot's schema.
pub const TRANSPORT_SCHEMA_VERSION: u32 = 1;

/// The refusal of a list with too many entries.
pub open spec fn overfull(description: Seq<char>, max: nat) -> Seq<char> {
    text::concat(seq![description, " exceeds the "@, text::decimal(max), "-entry limit"@])
}

/// List that is received entry by entry and holds no more than its limit.
pub struct BoundedNativeVec<T> {
    values: Vec<T>,
    max: usize,
}

impl<T> BoundedNativeVec<T> {
    /// The entries received so far.
    pub closed spec fn entries(self) -> Seq<T> {
        self.values@
    }

    /// The limit.
    pub closed spec fn limit(self) -> usize {
        self.max
    }

    /// Whether the limit is kept.
    pub open spec fn bounded(self) -> bool {
        self.entries().len() <= self.limit()
    }

    /// An empty list, unless more entries are announced than its limit.
    pub fn new(announced: Option<usize>, max: usize, description: &str) -> (list: Result<
        BoundedNativeVec<T>,
        String,
    >)
        ensures
            match list {
                Ok(list) => {
                    &&& list.bounded()
                    &&& list.entries() == Seq::<T>::empty()
                    &&& list.limit() == max
                    &&& announced matches Some(size) ==> size <= max
                },
                Err(refused) => {
                    &&& announced matches Some(size) && size > max
                    &&& refused@ == overfull(description@, max as nat)
                },
            },
    {
        match announced {
            Some(size) => {
                if size > max {
                    return Err(refuse_overfull(description, max));
                }
            },
            None => {},
        }
        Ok(BoundedNativeVec { values: Vec::new(), max })
    }

    /// Receives one more entry, unless the list is full.
    pub fn receive(&mut self, value: T, description: &str) -> (received: Result<(), String>)
        requires
            old(self).bounded(),
        ensures
            final(self).bounded(),
            final(self).limit() == old(self).limit(),
            match received {
                Ok(()) => final(self).entries() == old(self).entries().push(value),
                Err(refused) => {
                    &&& old(self).entries().len() == old(self).limit()
                    &&& final(self).entries() == old(self).entries()
                    &&& refused@ == overfull(description@, old(self).limit() as nat)
                },
            },
    {
        if self.values.len() == self.max {
            return Err(refuse_overfull(description, self.max));
        }
        self.values.push(value);
        Ok(())
    }

    /// The entries received.
    pub fn into_entries(self) -> (entries: Vec<T>)
        ensures
            entries@ == self.entries(),
    {
        self.values
    }
}

fn refuse_overfull(description: &str, max: usize) -> (refused: String)
    ensures
        refused@ == overfull(description@, max as nat),
{
    let limit = decimal_text(max as u64);
    concat4(description, " exceeds the ", limit.as_str(), "-entry limit")
}

} // verus!
