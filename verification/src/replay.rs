//! Independent replay of refutations.
//!
//! A consumer that retained an obligation does not believe a witness. It lowers
//! the obligation afresh, compares every digest with its own, rebuilds the acyclic
//! problem that the witness is about and has the model checked on the derivation.
//! Whatever does not match is refused, and the obligation stays undecided.
use serde_json::Value;
use vstd::prelude::*;
use vstd::string::*;

use crate::chc::{ChcProblem, ProblemModel};
use crate::error;
use crate::error::{ErrorModel, NativeSolveError, NativeSolveResult};
use crate::evidence;
use crate::evidence::{
    fail_closed_lowering_sites, ChcPdrCexVerification, ChcPdrEngine, ChcPdrRefutationWitness,
    EvidenceHash, MirChcPdrObligation, MirObligationKind,
};
use crate::graph;
use crate::identity;
use crate::identity::{
    prepare_validated_typed_chc_pdr_input, typed_chc_pdr_semantic_config_sha256,
    PreparedTypedChcPdrInput, TypedChcPdrRoute,
};
use crate::lanes::AcyclicUnsafeWitness;
use crate::lowering;
use crate::text;
use crate::text::{concat2, concat3, concat5, decimal_text, same_text};
use crate::unroll;
use crate::unroll::{bounded_unroll_chc_for_refutation, BOUNDED_UNROLL_K_LADDER};

verus! {

/// Most bytes of a counterexample that is replayed.
pub const MAX_REFUTATION_REPLAY_PAYLOAD_BYTES: usize = 16_777_216;

/// Most relations of an obligation whose refutation is replayed.
pub const MAX_REFUTATION_REPLAY_RELATIONS: usize = 65_536;

/// Most rules of an obligation whose refutation is replayed.
pub const MAX_REFUTATION_REPLAY_RULES: usize = 262_144;

/// Counterexample of a witness.
#[derive(Debug, PartialEq, Eq)]
pub struct DirectSmtRefutationReplayPayload {
    pub schema: String,
    pub source: String,
    /// Budget of the unrolling, where there was one.
    pub unroll_k: Option<u32>,
    pub derivation_clause_indices: Vec<u64>,
    pub witness_model: Value,
}

/// The refusal of a witness.
pub open spec fn witness_refusal(detail: Seq<char>) -> ErrorModel {
    error::invalid_model("refutation_witness"@, detail)
}

fn reject(detail: &str) -> (refused: NativeSolveError)
    ensures
        refused@ == witness_refusal(detail@),
{
    error::invalid_input("refutation_witness", detail)
}

/// Why a witness is refused before the obligation is lowered.
pub open spec fn early_fault(
    obligation: MirChcPdrObligation,
    witness: ChcPdrRefutationWitness,
) -> Option<ErrorModel> {
    let payload_len = vstd::utf8::encode_utf8(witness.counterexample_json@).len();
    let relations = obligation.vc.relations@.len();
    let rules = obligation.vc.rules@.len();
    if let Some(fault) = obligation.fault {
        Some(error::invalid_model("obligation"@, fault@))
    } else if witness.obligation_id@ != obligation.obligation_id@ {
        Some(
            witness_refusal(
                text::concat(
                    seq![
                        "witness obligation `"@,
                        witness.obligation_id@,
                        "` differs from retained obligation `"@,
                        obligation.obligation_id@,
                        "`"@,
                    ],
                ),
            ),
        )
    } else if !witness.concreteness.lossless() {
        Some(witness_refusal("witness does not carry an all-zero exact-encoding attestation"@))
    } else if payload_len > MAX_REFUTATION_REPLAY_PAYLOAD_BYTES {
        Some(
            witness_refusal(
                text::concat(
                    seq![
                        "counterexample payload has "@,
                        text::decimal(payload_len),
                        " bytes, above the replay budget"@,
                    ],
                ),
            ),
        )
    } else if relations > MAX_REFUTATION_REPLAY_RELATIONS || rules > MAX_REFUTATION_REPLAY_RULES {
        Some(
            witness_refusal(
                text::concat(
                    seq![
                        "retained obligation has "@,
                        text::decimal(relations),
                        " relations and "@,
                        text::decimal(rules),
                        " rules, above the replay budget"@,
                    ],
                ),
            ),
        )
    } else {
        None
    }
}

fn check_early(obligation: &MirChcPdrObligation, witness: &ChcPdrRefutationWitness) -> (checked:
    NativeSolveResult<()>)
    ensures
        error::failure(checked) == early_fault(*obligation, *witness),
{
    match &obligation.fault {
        Some(fault) => {
            return Err(error::invalid_input("obligation", fault.as_str()));
        },
        None => {},
    }
    if !same_text(witness.obligation_id.as_str(), obligation.obligation_id.as_str()) {
        let detail = concat5(
            "witness obligation `",
            witness.obligation_id.as_str(),
            "` differs from retained obligation `",
            obligation.obligation_id.as_str(),
            "`",
        );
        return Err(reject(detail.as_str()));
    }
    if !witness.concreteness.is_exact_with_zero_counts() {
        return Err(reject("witness does not carry an all-zero exact-encoding attestation"));
    }
    let payload = witness.counterexample_json.as_str();
    let bytes = payload.as_bytes();
    let payload_len: usize = bytes.len();
    if payload_len > MAX_REFUTATION_REPLAY_PAYLOAD_BYTES {
        let len = decimal_text(payload_len as u64);
        let detail = concat3(
            "counterexample payload has ",
            len.as_str(),
            " bytes, above the replay budget",
        );
        return Err(reject(detail.as_str()));
    }
    let relations: usize = obligation.vc.relations.len();
    let rules: usize = obligation.vc.rules.len();
    if relations > MAX_REFUTATION_REPLAY_RELATIONS || rules > MAX_REFUTATION_REPLAY_RULES {
        let relations_text = decimal_text(relations as u64);
        let rules_text = decimal_text(rules as u64);
        let detail = concat5(
            "retained obligation has ",
            relations_text.as_str(),
            " relations and ",
            rules_text.as_str(),
            " rules, above the replay budget",
        );
        return Err(reject(detail.as_str()));
    }
    Ok(())
}

/// The problem that a witness is to be replayed on, with a summary of the replay;
/// or why there is none.
pub open spec fn replay_target(
    obligation: MirChcPdrObligation,
    problem: ProblemModel,
    verification: ChcPdrCexVerification,
    payload: DirectSmtRefutationReplayPayload,
) -> Result<(ProblemModel, Seq<char>), Seq<char>> {
    match verification {
        ChcPdrCexVerification::DirectSmtModel => if payload.source@
            != "direct-smt-acyclic-error-derivation"@ || payload.unroll_k is Some {
            Err("direct-SMT payload source or unroll budget does not match its proof class"@)
        } else if graph::has_cycle(problem) {
            Err("direct-SMT proof class was attached to a cyclic fresh problem"@)
        } else {
            Ok((problem, "fresh direct-SMT acyclic derivation and exact model replay"@))
        },
        ChcPdrCexVerification::BoundedUnrollDirectSmtModel { k } => if k > u32::MAX {
            Err(
                text::concat(
                    seq!["bounded-unroll budget "@, text::decimal(k as nat), " is not representable"@],
                ),
            )
        } else if !BOUNDED_UNROLL_K_LADDER@.contains(k as u32) {
            Err(
                text::concat(
                    seq![
                        "bounded-unroll budget "@,
                        text::decimal(k as nat),
                        " is outside the exact production ladder"@,
                    ],
                ),
            )
        } else if payload.source@ != "direct-smt-bounded-unroll-error-derivation"@
            || payload.unroll_k != Some(k as u32) {
            Err("bounded-unroll payload source or budget does not match its proof class"@)
        } else if obligation.kind != MirObligationKind::Assertion
            || !obligation.structurally_complete() || obligation.fail_closed_sites() != 0 {
            Err("retained obligation is outside the exact bounded-unroll refutation lane"@)
        } else if !unroll::unrolls(problem, k as nat) {
            Err("fresh problem cannot be rebuilt as the declared exact bounded unroll"@)
        } else {
            Ok(
                (
                    unroll::unrolled(problem, k as nat),
                    text::concat(
                        seq![
                            "fresh k="@,
                            text::decimal(k as nat),
                            " bounded-unroll derivation and exact model replay"@,
                        ],
                    ),
                ),
            )
        },
        ChcPdrCexVerification::AyChcReplayVerified { step_count } => Err(
            text::concat(
                seq![
                    "counterexample verification kind AyChcReplayVerified { step_count: "@,
                    text::decimal(step_count as nat),
                    " } has no independent replay surface"@,
                ],
            ),
        ),
    }
}

/// What a result with texts is.
pub open spec fn target_model(
    target: Result<(ChcProblem, String), String>,
) -> Result<(ProblemModel, Seq<char>), Seq<char>> {
    match target {
        Ok((problem, summary)) => Ok((problem@, summary@)),
        Err(detail) => Err(detail@),
    }
}

fn on_ladder(k: u32) -> (yes: bool)
    ensures
        yes == BOUNDED_UNROLL_K_LADDER@.contains(k),
{
    let ladder = BOUNDED_UNROLL_K_LADDER;
    let rungs = ladder.as_slice();
    for i in 0..rungs.len()
        invariant
            rungs@ == BOUNDED_UNROLL_K_LADDER@,
            forall|j: int| 0 <= j < i ==> #[trigger] rungs@[j] != k,
    {
        if rungs[i] == k {
            return true;
        }
    }
    false
}

fn rebuild_target(
    obligation: &MirChcPdrObligation,
    problem: ChcProblem,
    verification: ChcPdrCexVerification,
    payload: &DirectSmtRefutationReplayPayload,
) -> (target: Result<(ChcProblem, String), String>)
    requires
        problem@.names_declared(),
    ensures
        target_model(target) == replay_target(*obligation, problem@, verification, *payload),
{
    match verification {
        ChcPdrCexVerification::DirectSmtModel => {
            if !same_text(payload.source.as_str(), "direct-smt-acyclic-error-derivation")
                || payload.unroll_k.is_some() {
                return Err(
                    "direct-SMT payload source or unroll budget does not match its proof class".to_owned(),
                );
            }
            if problem.has_cycles() {
                return Err(
                    "direct-SMT proof class was attached to a cyclic fresh problem".to_owned(),
                );
            }
            Ok(
                (
                    problem,
                    "fresh direct-SMT acyclic derivation and exact model replay".to_owned(),
                ),
            )
        },
        ChcPdrCexVerification::BoundedUnrollDirectSmtModel { k } => {
            let budget = decimal_text(k);
            if k > u32::MAX as u64 {
                return Err(
                    concat3("bounded-unroll budget ", budget.as_str(), " is not representable"),
                );
            }
            let rung: u32 = k as u32;
            if !on_ladder(rung) {
                return Err(
                    concat3(
                        "bounded-unroll budget ",
                        budget.as_str(),
                        " is outside the exact production ladder",
                    ),
                );
            }
            let same_budget = match payload.unroll_k {
                Some(own) => own == rung,
                None => false,
            };
            if !same_text(payload.source.as_str(), "direct-smt-bounded-unroll-error-derivation")
                || !same_budget {
                return Err(
                    "bounded-unroll payload source or budget does not match its proof class".to_owned(),
                );
            }
            let assertion = match obligation.kind {
                MirObligationKind::Assertion => true,
                MirObligationKind::Other => false,
            };
            if !assertion || !obligation.claims_complete() || fail_closed_lowering_sites(obligation)
                != 0 {
                return Err(
                    "retained obligation is outside the exact bounded-unroll refutation lane".to_owned(),
                );
            }
            match bounded_unroll_chc_for_refutation(&problem, rung) {
                Some(unrolled) => Ok(
                    (
                        unrolled.problem,
                        concat3(
                            "fresh k=",
                            budget.as_str(),
                            " bounded-unroll derivation and exact model replay",
                        ),
                    ),
                ),
                None => Err(
                    "fresh problem cannot be rebuilt as the declared exact bounded unroll".to_owned(),
                ),
            }
        },
        ChcPdrCexVerification::AyChcReplayVerified { step_count } => {
            let steps = decimal_text(step_count);
            Err(
                concat3(
                    "counterexample verification kind AyChcReplayVerified { step_count: ",
                    steps.as_str(),
                    " } has no independent replay surface",
                ),
            )
        },
    }
}

/// Schema of a counterexample.
pub open spec fn counterexample_schema() -> Seq<char> {
    "trust_mc.typed-chc-pdr-counterexample/v1"@
}

/// Whether an answer is what becomes of a decoded counterexample.
pub open spec fn replays_payload<M>(
    obligation: MirChcPdrObligation,
    problem: ProblemModel,
    verification: ChcPdrCexVerification,
    payload: DirectSmtRefutationReplayPayload,
    check: M,
    answer: NativeSolveResult<String>,
) -> bool where M: Fn(&ChcProblem, &AcyclicUnsafeWitness) -> Result<(), String> {
    if payload.schema@ != counterexample_schema() {
        error::failure(answer) == Some(
            witness_refusal(
                text::concat(
                    seq!["unsupported counterexample schema `"@, payload.schema@, "`"@],
                ),
            ),
        )
    } else {
        match replay_target(obligation, problem, verification, payload) {
            Err(detail) => error::failure(answer) == Some(witness_refusal(detail)),
            Ok((target, summary)) => exists|
                copy: ChcProblem,
                found: AcyclicUnsafeWitness,
                checked: Result<(), String>,
            | #[trigger]
                check.ensures((&copy, &found), checked) && copy@ == target && found.model
                    == payload.witness_model && found.derivation_clause_indices
                    == payload.derivation_clause_indices && match checked {
                    Ok(()) => answer matches Ok(own) && own@ == summary,
                    Err(detail) => error::failure(answer) == Some(witness_refusal(detail@)),
                },
        }
    }
}

fn replay_payload<M>(
    obligation: &MirChcPdrObligation,
    problem: ChcProblem,
    verification: ChcPdrCexVerification,
    payload: DirectSmtRefutationReplayPayload,
    check: &M,
) -> (answer: NativeSolveResult<String>) where
    M: Fn(&ChcProblem, &AcyclicUnsafeWitness) -> Result<(), String>,

    requires
        problem@.names_declared(),
        forall|copy: &ChcProblem, found: &AcyclicUnsafeWitness| #[trigger]
            check.requires((copy, found)),
    ensures
        replays_payload(*obligation, problem@, verification, payload, *check, answer),
{
    if !same_text(payload.schema.as_str(), "trust_mc.typed-chc-pdr-counterexample/v1") {
        let detail = concat3(
            "unsupported counterexample schema `",
            payload.schema.as_str(),
            "`",
        );
        return Err(reject(detail.as_str()));
    }
    let (copy, summary) = match rebuild_target(obligation, problem, verification, &payload) {
        Ok(target) => target,
        Err(detail) => {
            return Err(reject(detail.as_str()));
        },
    };
    let found = AcyclicUnsafeWitness {
        model: payload.witness_model,
        derivation_clause_indices: payload.derivation_clause_indices,
    };
    let checked = check(&copy, &found);
    assert(check.ensures((&copy, &found), checked));
    match checked {
        Ok(()) => Ok(summary),
        Err(detail) => Err(reject(detail.as_str())),
    }
}

/// Whether an answer is what becomes of a witness, once the obligation was
/// prepared afresh.
pub open spec fn replays_prepared<H, X, M>(
    obligation: MirChcPdrObligation,
    engine: ChcPdrEngine,
    witness: ChcPdrRefutationWitness,
    prepared: PreparedTypedChcPdrInput,
    sha256: H,
    decode: X,
    check: M,
    answer: NativeSolveResult<String>,
) -> bool where
    H: Fn(&[u8]) -> EvidenceHash,
    X: Fn(&String) -> Result<DirectSmtRefutationReplayPayload, String>,
    M: Fn(&ChcProblem, &AcyclicUnsafeWitness) -> Result<(), String>,
 {
    if prepared.normalized.route != TypedChcPdrRoute::PdrProof {
        error::failure(answer) == Some(
            witness_refusal("retained obligation does not select the typed CHC/PDR route"@),
        )
    } else if witness.encoded_formula_sha256@ != prepared.normalized.normalized_input_hash@.value {
        error::failure(answer) == Some(
            witness_refusal("encoded-formula digest differs from the fresh exact lowering"@),
        )
    } else {
        exists|config: Seq<char>| #[trigger]
            identity::config_digest(sha256, engine, TypedChcPdrRoute::PdrProof, config) && if
            witness.semantic_config_sha256@ != config {
                error::failure(answer) == Some(
                    witness_refusal(
                        "semantic-configuration digest differs from the consumer configuration"@,
                    ),
                )
            } else {
                replays_decoded(obligation, witness, prepared, decode, check, answer)
            }
    }
}

/// Whether an answer is what becomes of a witness whose digests match.
pub open spec fn replays_decoded<X, M>(
    obligation: MirChcPdrObligation,
    witness: ChcPdrRefutationWitness,
    prepared: PreparedTypedChcPdrInput,
    decode: X,
    check: M,
    answer: NativeSolveResult<String>,
) -> bool where
    X: Fn(&String) -> Result<DirectSmtRefutationReplayPayload, String>,
    M: Fn(&ChcProblem, &AcyclicUnsafeWitness) -> Result<(), String>,
 {
    exists|decoded: Result<DirectSmtRefutationReplayPayload, String>| #[trigger]
        decode.ensures((&witness.counterexample_json,), decoded) && match decoded {
            Err(fault) => error::failure(answer) == Some(
                witness_refusal(
                    text::concat(
                        seq![
                            "counterexample payload does not match the strict JSON schema: "@,
                            fault@,
                        ],
                    ),
                ),
            ),
            Ok(payload) => replays_payload(
                obligation,
                prepared.problem->0@,
                witness.verification,
                payload,
                check,
                answer,
            ),
        }
}

/// Whether an answer is what becomes of a witness.
pub open spec fn replays_witness<N, C, H, X, M>(
    obligation: MirChcPdrObligation,
    engine: ChcPdrEngine,
    witness: ChcPdrRefutationWitness,
    render: N,
    canonicalize: C,
    sha256: H,
    decode: X,
    check: M,
    answer: NativeSolveResult<String>,
) -> bool where
    N: Fn(&ChcProblem) -> String,
    C: Fn(&str) -> String,
    H: Fn(&[u8]) -> EvidenceHash,
    X: Fn(&String) -> Result<DirectSmtRefutationReplayPayload, String>,
    M: Fn(&ChcProblem, &AcyclicUnsafeWitness) -> Result<(), String>,
 {
    match early_fault(obligation, witness) {
        Some(fault) => error::failure(answer) == Some(fault),
        None => if obligation.target_derived() && lowering::lowered_vc(obligation.vc) is Err {
            error::failure(answer) == Some(lowering::lowered_vc(obligation.vc)->Err_0)
        } else {
            exists|prepared: PreparedTypedChcPdrInput| #[trigger]
                identity::prepared_for(obligation, render, canonicalize, sha256, prepared)
                    && replays_prepared(
                    obligation,
                    engine,
                    witness,
                    prepared,
                    sha256,
                    decode,
                    check,
                    answer,
                )
        },
    }
}

/// A witness is accepted only where it names the obligation, claims a lossless
/// encoding, carries the digests of the obligation lowered afresh and of the
/// consumer's own configuration, and is of a kind that can be replayed; one from
/// unrolling needs a budget of the ladder and an obligation without unsupported
/// constructs.
pub proof fn law_accepted_witnesses_match<N, C, H, X, M>(
    obligation: MirChcPdrObligation,
    engine: ChcPdrEngine,
    witness: ChcPdrRefutationWitness,
    render: N,
    canonicalize: C,
    sha256: H,
    decode: X,
    check: M,
    answer: NativeSolveResult<String>,
) where
    N: Fn(&ChcProblem) -> String,
    C: Fn(&str) -> String,
    H: Fn(&[u8]) -> EvidenceHash,
    X: Fn(&String) -> Result<DirectSmtRefutationReplayPayload, String>,
    M: Fn(&ChcProblem, &AcyclicUnsafeWitness) -> Result<(), String>,

    requires
        replays_witness(
            obligation,
            engine,
            witness,
            render,
            canonicalize,
            sha256,
            decode,
            check,
            answer,
        ),
        answer is Ok,
    ensures
        obligation.fault is None,
        witness.obligation_id@ == obligation.obligation_id@,
        witness.concreteness.lossless(),
        obligation.target_derived(),
        lowering::lowered_vc(obligation.vc) is Ok,
        identity::config_digest(
            sha256,
            engine,
            TypedChcPdrRoute::PdrProof,
            witness.semantic_config_sha256@,
        ),
        exists|prepared: PreparedTypedChcPdrInput| #[trigger]
            identity::prepared_for(obligation, render, canonicalize, sha256, prepared)
                && witness.encoded_formula_sha256@
                == prepared.normalized.normalized_input_hash@.value,
        witness.verification is DirectSmtModel || witness.verification
            is BoundedUnrollDirectSmtModel,
        witness.verification matches ChcPdrCexVerification::BoundedUnrollDirectSmtModel { k } ==> k
            <= u32::MAX && BOUNDED_UNROLL_K_LADDER@.contains(k as u32)
            && obligation.fail_closed_sites() == 0,
        witness.verification is BoundedUnrollDirectSmtModel ==> obligation.kind
            == MirObligationKind::Assertion && (obligation.native_metadata matches Some(metadata)
            && metadata.structural_reachability_complete
            && metadata.fail_closed_lowering_site_count == 0),
{
}

/// Replays a refutation against a retained obligation. `decode` reads the
/// counterexample and `check` has its model checked on the derivation; the answer
/// is a summary of what was replayed.
pub fn independently_replay_typed_chc_pdr_refutation_witness<N, C, H, X, M>(
    obligation: &MirChcPdrObligation,
    expected_engine: ChcPdrEngine,
    witness: &ChcPdrRefutationWitness,
    render: &N,
    canonicalize: &C,
    sha256: &H,
    decode: &X,
    check: &M,
) -> (answer: NativeSolveResult<String>) where
    N: Fn(&ChcProblem) -> String,
    C: Fn(&str) -> String,
    H: Fn(&[u8]) -> EvidenceHash,
    X: Fn(&String) -> Result<DirectSmtRefutationReplayPayload, String>,
    M: Fn(&ChcProblem, &AcyclicUnsafeWitness) -> Result<(), String>,

    requires
        forall|problem: &ChcProblem| #[trigger] render.requires((problem,)),
        forall|input: &str| #[trigger] canonicalize.requires((input,)),
        evidence::total(*sha256),
        forall|payload: &String| #[trigger] decode.requires((payload,)),
        forall|copy: &ChcProblem, found: &AcyclicUnsafeWitness| #[trigger]
            check.requires((copy, found)),
    ensures
        replays_witness(
            *obligation,
            expected_engine,
            *witness,
            *render,
            *canonicalize,
            *sha256,
            *decode,
            *check,
            answer,
        ),
{
    match check_early(obligation, witness) {
        Ok(()) => {},
        Err(refused) => {
            return Err(refused);
        },
    }
    let prepared = match prepare_validated_typed_chc_pdr_input(
        obligation,
        render,
        canonicalize,
        sha256,
    ) {
        Ok(prepared) => prepared,
        Err(fault) => {
            return Err(fault);
        },
    };
    let ghost kept = prepared;
    assert(identity::prepared_for(*obligation, *render, *canonicalize, *sha256, kept));
    match prepared.normalized.route {
        TypedChcPdrRoute::PdrProof => {},
        TypedChcPdrRoute::TriviallySafe => {
            return Err(reject("retained obligation does not select the typed CHC/PDR route"));
        },
    }
    if !same_text(
        witness.encoded_formula_sha256.as_str(),
        prepared.normalized.normalized_input_hash.value.as_str(),
    ) {
        return Err(reject("encoded-formula digest differs from the fresh exact lowering"));
    }
    let config = typed_chc_pdr_semantic_config_sha256(
        expected_engine,
        TypedChcPdrRoute::PdrProof,
        sha256,
    );
    assert(identity::config_digest(
        *sha256,
        expected_engine,
        TypedChcPdrRoute::PdrProof,
        config@,
    ));
    if !same_text(witness.semantic_config_sha256.as_str(), config.as_str()) {
        return Err(
            reject("semantic-configuration digest differs from the consumer configuration"),
        );
    }
    let problem = match prepared.problem {
        Some(problem) => problem,
        None => {
            return Err(reject("fresh typed lowering retained no CHC problem"));
        },
    };
    // The length of the list is a `usize`, which bounds it for the law.
    let relation_count: usize = obligation.vc.relations.len();
    proof {
        assert(obligation.vc.relations@.len() == relation_count);
        lowering::law_lowered_problem_is_closed(obligation.vc);
    }
    let decoded = decode(&witness.counterexample_json);
    assert(decode.ensures((&witness.counterexample_json,), decoded));
    match decoded {
        Ok(payload) => replay_payload(obligation, problem, witness.verification, payload, check),
        Err(fault) => {
            let detail = concat2(
                "counterexample payload does not match the strict JSON schema: ",
                fault.as_str(),
            );
            Err(reject(detail.as_str()))
        },
    }
}

} // verus!
