//! What a snapshot carries of a proof, and what becomes of a candidate.
use vstd::prelude::*;

use crate::evidence;
use crate::evidence::{
    ArtifactBytes, EvidenceHash, FullVerificationArtifactKind, HashModel, MirChcPdrObligation,
};
use crate::identity;
use crate::identity::NativeTypedChcPdrNormalizedInput;
use crate::transport;
use crate::transport::NativeTypedProofArtifactRef;
use crate::verdicts;
use crate::verdicts::{
    CandidateBytes, ChcPdrProofEvidence, FullVerificationArtifact, FullVerificationVerdict,
};

verus! {

/// Whether positions pick artifacts out of a list: each within the list, in order, and
/// none twice.
pub open spec fn picks(positions: Seq<int>, count: nat) -> bool {
    &&& forall|i: int| 0 <= i < positions.len() ==> 0 <= #[trigger] positions[i] < count
    &&& forall|i: int, j: int|
        0 <= i < j < positions.len() ==> #[trigger] positions[i] < #[trigger] positions[j]
}

/// The references to the artifacts of a kind are to those of the artifacts that are of
/// that kind, in order, each once, and to all of them.
pub proof fn law_artifacts_of_a_kind_are_picked(
    references: Seq<NativeTypedProofArtifactRef>,
    artifacts: Seq<FullVerificationArtifact>,
    kind: FullVerificationArtifactKind,
) -> (positions: Seq<int>)
    requires
        transport::refer_to(references, transport::of_kind(artifacts, kind)),
    ensures
        positions.len() == references.len(),
        picks(positions, artifacts.len()),
        forall|i: int|
            0 <= i < positions.len() ==> {
                let artifact = artifacts[#[trigger] positions[i]];
                &&& artifact.kind == kind
                &&& references[i].kind == kind
                &&& references[i].uri@ == artifact.label@
                &&& references[i].byte_len == artifact.byte_len
                &&& evidence::optional_hash(references[i].digest) == evidence::optional_hash(
                    artifact.digest,
                )
                &&& references[i].materialization is Some <==> artifact.materialization is Some
                &&& references[i].materialization matches Some(retained)
                    ==> retained.bytes@ == artifact.materialization->0.bytes@
            },
        forall|j: int|
            0 <= j < artifacts.len() && (#[trigger] artifacts[j]).kind == kind
                ==> positions.contains(j),
    decreases artifacts.len(),
{
    if artifacts.len() == 0 {
        Seq::empty()
    } else {
        let front = artifacts.drop_last();
        let last = artifacts.last();
        if last.kind == kind {
            let fewer = references.drop_last();
            let own = transport::of_kind(front, kind);
            assert(transport::of_kind(artifacts, kind) == own.push(last));
            assert(transport::refer_to(fewer, own)) by {
                assert forall|i: int| 0 <= i < fewer.len() implies transport::refers_to(
                    #[trigger] fewer[i],
                    own[i],
                ) by {
                    assert(transport::refers_to(references[i], own.push(last)[i]));
                }
            }
            assert(transport::refers_to(references.last(), own.push(last)[own.len() as int]));
            let before = law_artifacts_of_a_kind_are_picked(fewer, front, kind);
            let positions = before.push(artifacts.len() - 1);
            assert forall|i: int| 0 <= i < positions.len() implies {
                let artifact = artifacts[#[trigger] positions[i]];
                &&& artifact.kind == kind
                &&& references[i].kind == kind
                &&& references[i].uri@ == artifact.label@
                &&& references[i].byte_len == artifact.byte_len
                &&& evidence::optional_hash(references[i].digest) == evidence::optional_hash(
                    artifact.digest,
                )
                &&& references[i].materialization is Some <==> artifact.materialization is Some
                &&& references[i].materialization matches Some(retained)
                    ==> retained.bytes@ == artifact.materialization->0.bytes@
            } by {
                if i < before.len() {
                    assert(before[i] == positions[i]);
                    assert(front[before[i]] == artifacts[positions[i]]);
                    assert(fewer[i] == references[i]);
                }
            }
            assert forall|j: int|
                0 <= j < artifacts.len() && (
                #[trigger] artifacts[j]).kind == kind implies positions.contains(j) by {
                if j < front.len() {
                    assert(front[j].kind == kind);
                    let at = choose|at: int| 0 <= at < before.len() && before[at] == j;
                    assert(positions[at] == j);
                } else {
                    assert(positions[before.len() as int] == j);
                }
            }
            positions
        } else {
            let positions = law_artifacts_of_a_kind_are_picked(references, front, kind);
            assert forall|i: int| 0 <= i < positions.len() implies front[
                #[trigger] positions[i]
            ] == artifacts[positions[i]] by {}
            assert forall|j: int|
                0 <= j < artifacts.len() && (
                #[trigger] artifacts[j]).kind == kind implies positions.contains(j) by {
                assert(front[j] == artifacts[j]);
            }
            positions
        }
    }
}

/// A snapshot names a proof obligation exactly where it is the only one.
pub proof fn law_only_a_single_proof_is_named(ids: Seq<u32>, id: u32)
    ensures
        transport::single_id(ids) == Some(id) <==> ids == seq![id],
{
    if transport::single_id(ids) == Some(id) {
        assert(ids =~= seq![id]);
    }
}

/// What becomes of a candidate: never a failure. It is a proof candidate only where the
/// compiler linked the obligation's own candidate and published the obligation's typed
/// problem; then it carries what was linked, the published problem after it, and the
/// cache key of the solve. Where both succeed whatever they are handed, it is one.
pub proof fn law_candidates_become_proofs<H, L, P>(
    sha256: H,
    link: L,
    publish: P,
    obligation: MirChcPdrObligation,
    normalized: NativeTypedChcPdrNormalizedInput,
    cache_key: HashModel,
    candidate: CandidateBytes,
    verdict: FullVerificationVerdict,
) where
    H: Fn(&[u8]) -> EvidenceHash,
    L: Fn(&MirChcPdrObligation, &CandidateBytes) -> Option<ChcPdrProofEvidence>,
    P: Fn(&ArtifactBytes) -> Option<FullVerificationArtifact>,

    requires
        verdicts::candidate_verdict(
            sha256,
            link,
            publish,
            obligation,
            normalized,
            cache_key,
            candidate,
            verdict,
        ),
    ensures
        !(verdict is Failed),
        verdict matches FullVerificationVerdict::Proved { evidence } ==> exists|
            linked: ChcPdrProofEvidence,
            bytes: ArtifactBytes,
            problem: FullVerificationArtifact,
        |
            {
                &&& #[trigger] link.ensures((&obligation, &candidate), Some(linked))
                &&& #[trigger] publish.ensures((&bytes,), Some(problem))
                &&& bytes.kind == FullVerificationArtifactKind::TypedChcProblem
                &&& identity::encodes_typed_problem(
                    sha256,
                    obligation,
                    normalized.normalized_input@,
                    bytes.bytes@,
                )
                &&& evidence.artifacts@.len() == linked.artifacts@.len() + 1
                &&& evidence.artifacts@.last() == problem
                &&& forall|i: int|
                    0 <= i < linked.artifacts@.len() ==> #[trigger] evidence.artifacts@[i]
                        == linked.artifacts@[i]
                &&& evidence.cache_key matches Some(key) && key@ == cache_key
                &&& evidence.obligation_id@ == linked.obligation_id@
                &&& evidence.normalized_input@ == linked.normalized_input@
                &&& evidence.normalized_input_hash@ == linked.normalized_input_hash@
                &&& evidence.stats == linked.stats
            },
        (forall|linked: Option<ChcPdrProofEvidence>| #[trigger]
            link.ensures((&obligation, &candidate), linked) ==> linked is Some) && (forall|
            bytes: ArtifactBytes,
            problem: Option<FullVerificationArtifact>,
        | #[trigger] publish.ensures((&bytes,), problem) ==> problem is Some) ==> verdict is Proved,
{
    let linked = choose|linked: Option<ChcPdrProofEvidence>| #[trigger]
        link.ensures((&obligation, &candidate), linked) && match linked {
            None => verdicts::unknown_for(
                verdict,
                "typed CHC proof artifacts were empty or exceeded the materialization limit"@,
            ),
            Some(linked) => exists|bytes: ArtifactBytes, problem: Option<FullVerificationArtifact>|
                #[trigger] publish.ensures((&bytes,), problem) && verdicts::is_typed_problem(
                    sha256,
                    obligation,
                    normalized.normalized_input@,
                    bytes@,
                ) && match problem {
                    None => verdicts::unknown_for(
                        verdict,
                        "typed CHC problem exceeded the materialization limit"@,
                    ),
                    Some(problem) => verdict matches FullVerificationVerdict::Proved { evidence }
                        && verdicts::completed(linked, problem, cache_key, evidence),
                },
        };
    if let Some(own) = linked {
        let (bytes, problem) = choose|
            bytes: ArtifactBytes,
            problem: Option<FullVerificationArtifact>,
        |
            #[trigger] publish.ensures((&bytes,), problem) && verdicts::is_typed_problem(
                sha256,
                obligation,
                normalized.normalized_input@,
                bytes@,
            ) && match problem {
                None => verdicts::unknown_for(
                    verdict,
                    "typed CHC problem exceeded the materialization limit"@,
                ),
                Some(problem) => verdict matches FullVerificationVerdict::Proved { evidence }
                    && verdicts::completed(own, problem, cache_key, evidence),
            };
        assert(link.ensures((&obligation, &candidate), Some(own)));
        if let Some(published) = problem {
            assert(publish.ensures((&bytes,), Some(published)));
        }
    }
}

} // verus!
