//! What the replay of a refutation promises.
//!
//! The witness that a solve attaches to a refutation is accepted by whoever keeps
//! the obligation and replays it. The laws speak of outside functions that answer
//! the same question alike.
use serde_json::Value;
use vstd::prelude::*;
use vstd::string::*;

use crate::chc::{ChcProblem, ProblemModel};
use crate::documents;
use crate::error;
use crate::error::NativeSolveResult;
use crate::evidence;
use crate::evidence::{
    ArtifactBytes, ChcPdrCexVerification, ChcPdrEncodingConcreteness, ChcPdrEngine,
    ChcPdrRefutationWitness, ChcPdrSolveOptions, ChcPdrSolveStatus, EvidenceHash,
    MirChcPdrObligation, MirObligationKind, StatusModel,
};
use crate::graph;
use crate::grounding_laws;
use crate::identity;
use crate::identity::{FullVerificationCacheKey, PreparedTypedChcPdrInput, TypedChcPdrRoute};
use crate::identity_laws::{canonicalizes_alike, lemma_prepared_alike, renders_alike};
use crate::json;
use crate::json::JsonModel;
use crate::ladder;
use crate::lanes;
use crate::lanes::{AcyclicDecision, AcyclicUnsafeWitness, TypedSolve};
use crate::lowering;
use crate::replay;
use crate::replay::{
    DirectSmtRefutationReplayPayload, MAX_REFUTATION_REPLAY_PAYLOAD_BYTES,
    MAX_REFUTATION_REPLAY_RELATIONS, MAX_REFUTATION_REPLAY_RULES,
};
use crate::seal::TypedChcPdrFullVerification;
use crate::solve;
use crate::text;
use crate::unroll;
use crate::unroll::BOUNDED_UNROLL_K_LADDER;
use crate::verdicts;
use crate::verdicts::{CandidateBytes, ChcPdrProofEvidence, FullVerificationArtifact, ReplayWording};

verus! {

/// Whether a decoder reads a document back: the counterexample of an acyclic
/// problem, or of an unrolling where a budget is given.
pub open spec fn reads_back<X>(decode: X) -> bool where
    X: Fn(&String) -> Result<DirectSmtRefutationReplayPayload, String>,
 {
    forall|
        content: String,
        decoded: Result<DirectSmtRefutationReplayPayload, String>,
        k: Option<u32>,
        indices: Seq<u64>,
        model: Value,
    |
        #![trigger decode.ensures((&content,), decoded), counterexample(k, indices, json::json_content(model))]
        decode.ensures((&content,), decoded) && content@ == json::json_display(
            counterexample(k, indices, json::json_content(model)),
        ) ==> (decoded matches Ok(payload) && holds(
            payload,
            k,
            indices,
            json::json_content(model),
        ))
}

/// The counterexample of an acyclic problem, or of an unrolling where a budget is
/// given.
pub open spec fn counterexample(k: Option<u32>, indices: Seq<u64>, model: JsonModel) -> JsonModel {
    match k {
        Some(k) => documents::unrolled_counterexample(k, indices, model),
        None => documents::acyclic_counterexample(indices, model),
    }
}

/// Whether a payload holds what a counterexample says.
pub open spec fn holds(
    payload: DirectSmtRefutationReplayPayload,
    k: Option<u32>,
    indices: Seq<u64>,
    model: JsonModel,
) -> bool {
    &&& payload.schema@ == replay::counterexample_schema()
    &&& payload.source@ == match k {
        Some(_) => "direct-smt-bounded-unroll-error-derivation"@,
        None => "direct-smt-acyclic-error-derivation"@,
    }
    &&& payload.unroll_k == k
    &&& payload.derivation_clause_indices@ == indices
    &&& json::json_content(payload.witness_model) == model
}

/// Whether a checker accepts an error derivation wherever it is given one with the
/// same clauses and the same model for the same problem.
pub open spec fn accepts<M>(check: M, problem: ChcProblem, found: AcyclicUnsafeWitness) -> bool where
    M: Fn(&ChcProblem, &AcyclicUnsafeWitness) -> Result<(), String>,
 {
    forall|copy: ChcProblem, own: AcyclicUnsafeWitness, checked: Result<(), String>|
        #![trigger check.ensures((&copy, &own), checked)]
        check.ensures((&copy, &own), checked) && copy@ == problem@
            && own.derivation_clause_indices@ == found.derivation_clause_indices@
            && json::json_content(own.model) == json::json_content(found.model) ==> checked is Ok
}

/// Whether a witness and its obligation keep within what a replay takes.
pub open spec fn within_budget(
    obligation: MirChcPdrObligation,
    witness: ChcPdrRefutationWitness,
) -> bool {
    &&& vstd::utf8::encode_utf8(witness.counterexample_json@).len()
        <= MAX_REFUTATION_REPLAY_PAYLOAD_BYTES
    &&& obligation.vc.relations@.len() <= MAX_REFUTATION_REPLAY_RELATIONS
    &&& obligation.vc.rules@.len() <= MAX_REFUTATION_REPLAY_RULES
}

/// The configuration has one digest.
proof fn lemma_one_config<H: Fn(&[u8]) -> EvidenceHash>(
    sha256: H,
    engine: evidence::ChcPdrEngine,
    route: TypedChcPdrRoute,
    one: Seq<char>,
    other: Seq<char>,
)
    requires
        evidence::settled(sha256),
        identity::config_digest(sha256, engine, route, one),
        identity::config_digest(sha256, engine, route, other),
    ensures
        one == other,
{
}

/// What a witness that binds a counterexample of the obligation leads to: the
/// replay goes on to the decoded counterexample and, where the problem to be
/// replayed on can be rebuilt, ends with what the checker says.
proof fn lemma_bound_witness_is_replayed<N, C, H, X, M>(
    obligation: MirChcPdrObligation,
    options: ChcPdrSolveOptions,
    render: N,
    canonicalize: C,
    sha256: H,
    prepared: PreparedTypedChcPdrInput,
    decode: X,
    check: M,
    k: Option<u32>,
    found: AcyclicUnsafeWitness,
    problem: ChcProblem,
    summary: Seq<char>,
    witness: ChcPdrRefutationWitness,
    answer: NativeSolveResult<String>,
) where
    N: Fn(&ChcProblem) -> String,
    C: Fn(&str) -> String,
    H: Fn(&[u8]) -> EvidenceHash,
    X: Fn(&String) -> Result<DirectSmtRefutationReplayPayload, String>,
    M: Fn(&ChcProblem, &AcyclicUnsafeWitness) -> Result<(), String>,

    requires
        renders_alike(render),
        canonicalizes_alike(canonicalize),
        evidence::settled(sha256),
        reads_back(decode),
        accepts(check, problem, found),
        obligation.fault is None,
        obligation.target_derived(),
        within_budget(obligation, witness),
        identity::prepared_for(obligation, render, canonicalize, sha256, prepared),
        verdicts::binds(
            sha256,
            obligation.obligation_id@,
            prepared.normalized.normalized_input_hash@,
            options.engine,
            TypedChcPdrRoute::PdrProof,
            counterexample(
                k,
                found.derivation_clause_indices@,
                json::json_content(found.model),
            ),
            witness.verification,
            witness@,
        ),
        forall|payload: DirectSmtRefutationReplayPayload|
            #![trigger replay::replay_target(obligation, prepared.problem->0@, witness.verification, payload)]
            holds(
                payload,
                k,
                found.derivation_clause_indices@,
                json::json_content(found.model),
            ) ==> (replay::replay_target(
                obligation,
                prepared.problem->0@,
                witness.verification,
                payload,
            ) matches Ok(target) && target == (problem@, summary)),
        replay::replays_witness(
            obligation,
            options.engine,
            witness,
            render,
            canonicalize,
            sha256,
            decode,
            check,
            answer,
        ),
    ensures
        answer matches Ok(own) && own@ == summary,
{
    let indices = found.derivation_clause_indices@;
    let model = json::json_content(found.model);
    assert(lowering::lowered_vc(obligation.vc) is Ok);
    assert(replay::early_fault(obligation, witness) is None);
    let again = choose|again: PreparedTypedChcPdrInput| #[trigger]
        identity::prepared_for(obligation, render, canonicalize, sha256, again)
            && replay::replays_prepared(
            obligation,
            options.engine,
            witness,
            again,
            sha256,
            decode,
            check,
            answer,
        );
    lemma_prepared_alike(
        obligation,
        obligation,
        render,
        canonicalize,
        sha256,
        prepared,
        again,
    );
    let config = choose|config: Seq<char>| #[trigger]
        identity::config_digest(sha256, options.engine, TypedChcPdrRoute::PdrProof, config)
            && if witness.semantic_config_sha256@ != config {
            error::failure(answer) == Some(
                replay::witness_refusal(
                    "semantic-configuration digest differs from the consumer configuration"@,
                ),
            )
        } else {
            replay::replays_decoded(obligation, witness, again, decode, check, answer)
        };
    lemma_one_config(
        sha256,
        options.engine,
        TypedChcPdrRoute::PdrProof,
        witness.semantic_config_sha256@,
        config,
    );
    assert(replay::replays_decoded(obligation, witness, again, decode, check, answer));
    let decoded = choose|decoded: Result<DirectSmtRefutationReplayPayload, String>| #[trigger]
        decode.ensures((&witness.counterexample_json,), decoded) && match decoded {
            Err(fault) => error::failure(answer) == Some(
                replay::witness_refusal(
                    text::concat(
                        seq![
                            "counterexample payload does not match the strict JSON schema: "@,
                            fault@,
                        ],
                    ),
                ),
            ),
            Ok(payload) => replay::replays_payload(
                obligation,
                again.problem->0@,
                witness.verification,
                payload,
                check,
                answer,
            ),
        };
    assert(witness.counterexample_json@ == json::json_display(counterexample(k, indices, model)));
    assert(decoded is Ok);
    let payload = decoded->Ok_0;
    assert(holds(payload, k, indices, model));
    assert(replay::replay_target(
        obligation,
        prepared.problem->0@,
        witness.verification,
        payload,
    ) == Ok::<(ProblemModel, Seq<char>), Seq<char>>((problem@, summary)));
}

/// A refutation on a ladder comes from one of its rungs.
proof fn lemma_rung_of_refutation<H, S>(
    solve: TypedSolve,
    sha256: H,
    search: S,
    ladder: Seq<u32>,
    verification: TypedChcPdrFullVerification,
) -> (rung: (u32, ChcProblem, AcyclicUnsafeWitness)) where
    H: Fn(&[u8]) -> EvidenceHash,
    S: Fn(&ChcProblem, u32) -> Option<AcyclicDecision>,

    requires
        ladder::climbs(solve, sha256, search, ladder, Some(verification)),
    ensures
        ladder.contains(rung.0),
        unroll::unrolls(solve.problem@, rung.0 as nat),
        rung.1@ == unroll::unrolled(solve.problem@, rung.0 as nat),
        search.ensures((&rung.1, rung.0), Some(AcyclicDecision::Unsafe(rung.2))),
        solve.refuted_by(
            sha256,
            verification,
            documents::unrolled_counterexample(
                rung.0,
                rung.2.derivation_clause_indices@,
                json::json_content(rung.2.model),
            ),
            ChcPdrCexVerification::BoundedUnrollDirectSmtModel { k: rung.0 as u64 },
            ladder::unroll_diagnostic(rung.0),
        ),
    decreases ladder.len(),
{
    let k = ladder[0];
    let step = Some(verification);
    let (copy, decision) = choose|copy: ChcProblem, decision: Option<AcyclicDecision>| #[trigger]
        search.ensures((&copy, k), decision) && copy@ == unroll::unrolled(
            solve.problem@,
            k as nat,
        ) && match decision {
            None => step is None,
            Some(AcyclicDecision::Unsafe(found)) => solve.refuted_by(
                sha256,
                verification,
                documents::unrolled_counterexample(
                    k,
                    found.derivation_clause_indices@,
                    json::json_content(found.model),
                ),
                ChcPdrCexVerification::BoundedUnrollDirectSmtModel { k: k as u64 },
                ladder::unroll_diagnostic(k),
            ),
            Some(_) => ladder::climbs(solve, sha256, search, ladder.drop_first(), step),
        };
    match decision {
        Some(AcyclicDecision::Unsafe(found)) => {
            assert(ladder.contains(k));
            (k, copy, found)
        },
        _ => {
            let rung = lemma_rung_of_refutation(
                solve,
                sha256,
                search,
                ladder.drop_first(),
                verification,
            );
            let at = choose|at: int|
                0 <= at < ladder.drop_first().len() && ladder.drop_first()[at] == rung.0;
            assert(ladder[at + 1] == rung.0);
            rung
        },
    }
}

/// Who keeps the obligation accepts the witness of a refutation by unrolling, where
/// the checker accepts what the search of an unrolled copy finds and the witness
/// keeps within the replay's budget.
pub proof fn law_unrolled_witnesses_are_accepted<N, C, H, S, X, M>(
    obligation: MirChcPdrObligation,
    options: ChcPdrSolveOptions,
    render: N,
    canonicalize: C,
    sha256: H,
    prepared: PreparedTypedChcPdrInput,
    key: FullVerificationCacheKey,
    wording: ReplayWording,
    solve: TypedSolve,
    search: S,
    verification: TypedChcPdrFullVerification,
    witness: ChcPdrRefutationWitness,
    decode: X,
    check: M,
    answer: NativeSolveResult<String>,
) where
    N: Fn(&ChcProblem) -> String,
    C: Fn(&str) -> String,
    H: Fn(&[u8]) -> EvidenceHash,
    S: Fn(&ChcProblem, u32) -> Option<AcyclicDecision>,
    X: Fn(&String) -> Result<DirectSmtRefutationReplayPayload, String>,
    M: Fn(&ChcProblem, &AcyclicUnsafeWitness) -> Result<(), String>,

    requires
        renders_alike(render),
        canonicalizes_alike(canonicalize),
        evidence::settled(sha256),
        reads_back(decode),
        forall|copy: ChcProblem, k: u32, found: AcyclicUnsafeWitness|
            #![trigger search.ensures((&copy, k), Some(AcyclicDecision::Unsafe(found)))]
            search.ensures((&copy, k), Some(AcyclicDecision::Unsafe(found))) ==> accepts(
                check,
                copy,
                found,
            ),
        obligation.fault is None,
        identity::prepared_for(obligation, render, canonicalize, sha256, prepared),
        solve::starts_from(obligation, options, prepared, key, wording, solve),
        ladder::unroll_lane(solve, sha256, search, Some(verification)),
        verification.outcome.status == (ChcPdrSolveStatus::Refuted { witness: Some(witness) }),
        within_budget(obligation, witness),
        replay::replays_witness(
            obligation,
            options.engine,
            witness,
            render,
            canonicalize,
            sha256,
            decode,
            check,
            answer,
        ),
    ensures
        witness.verification matches ChcPdrCexVerification::BoundedUnrollDirectSmtModel { k } && (
        answer matches Ok(own) && own@ == text::concat(
            seq![
                "fresh k="@,
                text::decimal(k as nat),
                " bounded-unroll derivation and exact model replay"@,
            ],
        )),
{
    let (k, copy, found) = lemma_rung_of_refutation(
        solve,
        sha256,
        search,
        BOUNDED_UNROLL_K_LADDER@,
        verification,
    );
    assert(verification.outcome@.status == StatusModel::Refuted(Some(witness@)));
    lemma_bound_witness_is_replayed(
        obligation,
        options,
        render,
        canonicalize,
        sha256,
        prepared,
        decode,
        check,
        Some(k),
        found,
        copy,
        text::concat(
            seq![
                "fresh k="@,
                text::decimal(k as nat),
                " bounded-unroll derivation and exact model replay"@,
            ],
        ),
        witness,
        answer,
    );
}

/// Who keeps the obligation accepts the witness of a refutation by the exhaustive
/// search of an acyclic problem, where the checker accepts what the search found
/// and the witness keeps within the replay's budget.
pub proof fn law_direct_witnesses_are_accepted<N, C, H, L, P, X, M>(
    obligation: MirChcPdrObligation,
    options: ChcPdrSolveOptions,
    render: N,
    canonicalize: C,
    sha256: H,
    link: L,
    publish: P,
    prepared: PreparedTypedChcPdrInput,
    key: FullVerificationCacheKey,
    wording: ReplayWording,
    solve: TypedSolve,
    found: AcyclicUnsafeWitness,
    verification: TypedChcPdrFullVerification,
    witness: ChcPdrRefutationWitness,
    decode: X,
    check: M,
    answer: NativeSolveResult<String>,
) where
    N: Fn(&ChcProblem) -> String,
    C: Fn(&str) -> String,
    H: Fn(&[u8]) -> EvidenceHash,
    L: Fn(&MirChcPdrObligation, &CandidateBytes) -> Option<ChcPdrProofEvidence>,
    P: Fn(&ArtifactBytes) -> Option<FullVerificationArtifact>,
    X: Fn(&String) -> Result<DirectSmtRefutationReplayPayload, String>,
    M: Fn(&ChcProblem, &AcyclicUnsafeWitness) -> Result<(), String>,

    requires
        renders_alike(render),
        canonicalizes_alike(canonicalize),
        evidence::settled(sha256),
        reads_back(decode),
        accepts(check, solve.problem, found),
        obligation.fault is None,
        identity::prepared_for(obligation, render, canonicalize, sha256, prepared),
        solve::starts_from(obligation, options, prepared, key, wording, solve),
        !graph::has_cycle(solve.problem@),
        lanes::follows_search(
            solve,
            sha256,
            link,
            publish,
            Some(AcyclicDecision::Unsafe(found)),
            Some(verification),
        ),
        verification.outcome.status == (ChcPdrSolveStatus::Refuted { witness: Some(witness) }),
        within_budget(obligation, witness),
        replay::replays_witness(
            obligation,
            options.engine,
            witness,
            render,
            canonicalize,
            sha256,
            decode,
            check,
            answer,
        ),
    ensures
        answer matches Ok(own) && own@
            == "fresh direct-SMT acyclic derivation and exact model replay"@,
{
    assert(verification.outcome@.status == StatusModel::Refuted(Some(witness@)));
    lemma_bound_witness_is_replayed(
        obligation,
        options,
        render,
        canonicalize,
        sha256,
        prepared,
        decode,
        check,
        None,
        found,
        solve.problem,
        "fresh direct-SMT acyclic derivation and exact model replay"@,
        witness,
        answer,
    );
}

/// Whether a decoder reads a text one way.
pub open spec fn decodes_alike<X>(decode: X) -> bool where
    X: Fn(&String) -> Result<DirectSmtRefutationReplayPayload, String>,
 {
    forall|
        left: String,
        right: String,
        one: Result<DirectSmtRefutationReplayPayload, String>,
        other: Result<DirectSmtRefutationReplayPayload, String>,
    |
        #![trigger decode.ensures((&left,), one), decode.ensures((&right,), other)]
        decode.ensures((&left,), one) && decode.ensures((&right,), other) && left@ == right@
            ==> match (one, other) {
            (Ok(one), Ok(other)) => one.source@ == other.source@ && one.unroll_k == other.unroll_k,
            (Err(_), Err(_)) => true,
            _ => false,
        }
}

/// Whether a witness differs from an accepted one in what it is bound to: its
/// obligation, the digest of the formula, the digest of the configuration, or the
/// class of its verification where the counterexample is the same.
pub open spec fn rebound(witness: ChcPdrRefutationWitness, altered: ChcPdrRefutationWitness) -> bool {
    ||| altered.obligation_id@ != witness.obligation_id@
    ||| altered.encoded_formula_sha256@ != witness.encoded_formula_sha256@
    ||| altered.semantic_config_sha256@ != witness.semantic_config_sha256@
    ||| altered.counterexample_json@ == witness.counterexample_json@ && altered.verification
        != witness.verification
}

/// Whether a witness cannot be replayed: it claims no lossless encoding, it is too
/// long, its counterexample cannot be decoded, or the checker refuses the derivation
/// that the counterexample holds.
pub open spec fn unreplayable<X, M>(altered: ChcPdrRefutationWitness, decode: X, check: M) -> bool where
    X: Fn(&String) -> Result<DirectSmtRefutationReplayPayload, String>,
    M: Fn(&ChcProblem, &AcyclicUnsafeWitness) -> Result<(), String>,
 {
    ||| !altered.concreteness.lossless()
    ||| vstd::utf8::encode_utf8(altered.counterexample_json@).len()
        > MAX_REFUTATION_REPLAY_PAYLOAD_BYTES
    ||| forall|decoded: Result<DirectSmtRefutationReplayPayload, String>| #[trigger]
        decode.ensures((&altered.counterexample_json,), decoded) ==> decoded is Err
    ||| forall|
        payload: DirectSmtRefutationReplayPayload,
        copy: ChcProblem,
        found: AcyclicUnsafeWitness,
        checked: Result<(), String>,
    |
        #![trigger decode.ensures((&altered.counterexample_json,), Ok(payload)), check.ensures((&copy, &found), checked)]
        decode.ensures((&altered.counterexample_json,), Ok(payload)) && check.ensures(
            (&copy, &found),
            checked,
        ) && found.model == payload.witness_model && found.derivation_clause_indices
            == payload.derivation_clause_indices ==> checked is Err
}

/// The decoded counterexample behind an accepted witness fits its class.
proof fn lemma_accepted_payload<N, C, H, X, M>(
    obligation: MirChcPdrObligation,
    engine: ChcPdrEngine,
    witness: ChcPdrRefutationWitness,
    render: N,
    canonicalize: C,
    sha256: H,
    decode: X,
    check: M,
    answer: NativeSolveResult<String>,
) -> (prepared: (PreparedTypedChcPdrInput, DirectSmtRefutationReplayPayload)) where
    N: Fn(&ChcProblem) -> String,
    C: Fn(&str) -> String,
    H: Fn(&[u8]) -> EvidenceHash,
    X: Fn(&String) -> Result<DirectSmtRefutationReplayPayload, String>,
    M: Fn(&ChcProblem, &AcyclicUnsafeWitness) -> Result<(), String>,

    requires
        replay::replays_witness(
            obligation,
            engine,
            witness,
            render,
            canonicalize,
            sha256,
            decode,
            check,
            answer,
        ),
        answer is Ok,
    ensures
        identity::prepared_for(obligation, render, canonicalize, sha256, prepared.0),
        witness.encoded_formula_sha256@ == prepared.0.normalized.normalized_input_hash@.value,
        decode.ensures((&witness.counterexample_json,), Ok(prepared.1)),
        replay::replay_target(
            obligation,
            prepared.0.problem->0@,
            witness.verification,
            prepared.1,
        ) is Ok,
        exists|copy: ChcProblem, found: AcyclicUnsafeWitness, checked: Result<(), String>|
            #[trigger]
            check.ensures((&copy, &found), checked) && checked is Ok && found.model
                == prepared.1.witness_model && found.derivation_clause_indices
                == prepared.1.derivation_clause_indices,
{
    let prepared = choose|prepared: PreparedTypedChcPdrInput| #[trigger]
        identity::prepared_for(obligation, render, canonicalize, sha256, prepared)
            && replay::replays_prepared(
            obligation,
            engine,
            witness,
            prepared,
            sha256,
            decode,
            check,
            answer,
        );
    assert(replay::replays_decoded(obligation, witness, prepared, decode, check, answer));
    let payload = choose|payload: DirectSmtRefutationReplayPayload| #[trigger]
        decode.ensures((&witness.counterexample_json,), Ok(payload)) && replay::replays_payload(
            obligation,
            prepared.problem->0@,
            witness.verification,
            payload,
            check,
            answer,
        );
    (prepared, payload)
}

/// Where a witness is accepted, an altered one is refused, and so is any witness
/// with its digests under another engine.
pub proof fn law_altered_witnesses_are_refused<N, C, H, X, M>(
    obligation: MirChcPdrObligation,
    engine: ChcPdrEngine,
    witness: ChcPdrRefutationWitness,
    accepted: NativeSolveResult<String>,
    other_engine: ChcPdrEngine,
    altered: ChcPdrRefutationWitness,
    answer: NativeSolveResult<String>,
    render: N,
    canonicalize: C,
    sha256: H,
    decode: X,
    check: M,
) where
    N: Fn(&ChcProblem) -> String,
    C: Fn(&str) -> String,
    H: Fn(&[u8]) -> EvidenceHash,
    X: Fn(&String) -> Result<DirectSmtRefutationReplayPayload, String>,
    M: Fn(&ChcProblem, &AcyclicUnsafeWitness) -> Result<(), String>,

    requires
        renders_alike(render),
        canonicalizes_alike(canonicalize),
        evidence::settled(sha256),
        evidence::tells_apart(sha256),
        decodes_alike(decode),
        replay::replays_witness(
            obligation,
            engine,
            witness,
            render,
            canonicalize,
            sha256,
            decode,
            check,
            accepted,
        ),
        accepted is Ok,
        replay::replays_witness(
            obligation,
            other_engine,
            altered,
            render,
            canonicalize,
            sha256,
            decode,
            check,
            answer,
        ),
        if other_engine == engine {
            rebound(witness, altered) || unreplayable(altered, decode, check)
        } else {
            altered.semantic_config_sha256@ == witness.semantic_config_sha256@
        },
    ensures
        answer is Err,
{
    if answer is Ok {
        replay::law_accepted_witnesses_match(
            obligation,
            engine,
            witness,
            render,
            canonicalize,
            sha256,
            decode,
            check,
            accepted,
        );
        replay::law_accepted_witnesses_match(
            obligation,
            other_engine,
            altered,
            render,
            canonicalize,
            sha256,
            decode,
            check,
            answer,
        );
        let (own, payload) = lemma_accepted_payload(
            obligation,
            engine,
            witness,
            render,
            canonicalize,
            sha256,
            decode,
            check,
            accepted,
        );
        let (again, other) = lemma_accepted_payload(
            obligation,
            other_engine,
            altered,
            render,
            canonicalize,
            sha256,
            decode,
            check,
            answer,
        );
        lemma_prepared_alike(
            obligation,
            obligation,
            render,
            canonicalize,
            sha256,
            own,
            again,
        );
        let route = TypedChcPdrRoute::PdrProof;
        if other_engine == engine {
            lemma_one_config(
                sha256,
                engine,
                route,
                witness.semantic_config_sha256@,
                altered.semantic_config_sha256@,
            );
            reveal_strlit("direct-smt-acyclic-error-derivation");
            reveal_strlit("direct-smt-bounded-unroll-error-derivation");
            assert("direct-smt-acyclic-error-derivation"@.len()
                != "direct-smt-bounded-unroll-error-derivation"@.len());
        } else {
            let one = identity::semantic_config(engine, route);
            let two = identity::semantic_config(other_engine, route);
            vstd::utf8::encode_utf8_decode_utf8(one);
            vstd::utf8::encode_utf8_decode_utf8(two);
            assert(one == two);
            identity::law_config_tells_engine_and_route(engine, route, other_engine, route);
        }
    }
}

/// Whether a decoded counterexample is to be checked on a problem, by the fields that it
/// has: one from the exhaustive search on the lowered problem itself, which has no loop
/// of predicates; one from unrolling on the copy with four, sixteen or sixty-four
/// retreating steps, where the obligation is an assertion whose metadata claims
/// completeness and counts no unsupported construct. No other kind is checked.
pub open spec fn checked_on(
    obligation: MirChcPdrObligation,
    problem: ProblemModel,
    verification: ChcPdrCexVerification,
    payload: DirectSmtRefutationReplayPayload,
    target: ProblemModel,
) -> bool {
    &&& payload.schema@ == "trust_mc.typed-chc-pdr-counterexample/v1"@
    &&& match verification {
        ChcPdrCexVerification::DirectSmtModel => {
            &&& payload.source@ == "direct-smt-acyclic-error-derivation"@
            &&& payload.unroll_k is None
            &&& !exists|walk: Seq<int>| #[trigger] grounding_laws::is_loop(problem, walk)
            &&& target == problem
        },
        ChcPdrCexVerification::BoundedUnrollDirectSmtModel { k } => {
            &&& k == 4 || k == 16 || k == 64
            &&& payload.source@ == "direct-smt-bounded-unroll-error-derivation"@
            &&& payload.unroll_k == Some(k as u32)
            &&& obligation.kind == MirObligationKind::Assertion
            &&& obligation.native_metadata matches Some(metadata)
                && metadata.structural_reachability_complete
                && metadata.fail_closed_lowering_site_count == 0
            &&& unroll::unrolls(problem, k as nat)
            &&& target == unroll::unrolled(problem, k as nat)
        },
        ChcPdrCexVerification::AyChcReplayVerified { .. } => false,
    }
}

/// A decoded counterexample is accepted exactly where it is to be checked on a problem
/// and the checker accepts its model and derivation there.
pub proof fn law_accepted_counterexamples_were_checked<M>(
    obligation: MirChcPdrObligation,
    problem: ProblemModel,
    verification: ChcPdrCexVerification,
    payload: DirectSmtRefutationReplayPayload,
    check: M,
    answer: NativeSolveResult<String>,
) where M: Fn(&ChcProblem, &AcyclicUnsafeWitness) -> Result<(), String>
    requires
        replay::replays_payload(obligation, problem, verification, payload, check, answer),
    ensures
        answer is Ok ==> exists|copy: ChcProblem, found: AcyclicUnsafeWitness, checked: Result<(), String>|
            #[trigger] check.ensures((&copy, &found), checked) && checked is Ok && checked_on(
                obligation,
                problem,
                verification,
                payload,
                copy@,
            ) && found.model == payload.witness_model && found.derivation_clause_indices
                == payload.derivation_clause_indices,
        (exists|target: ProblemModel| #[trigger]
            checked_on(obligation, problem, verification, payload, target)) && (forall|
            copy: ChcProblem,
            found: AcyclicUnsafeWitness,
            checked: Result<(), String>,
        | #[trigger]
            check.ensures((&copy, &found), checked) && found.model == payload.witness_model
                && found.derivation_clause_indices == payload.derivation_clause_indices
                ==> checked is Ok) ==> answer is Ok,
{
    grounding_laws::law_cycles_are_loops(problem);
    let ladder = BOUNDED_UNROLL_K_LADDER@;
    assert(ladder.len() == 3 && ladder[0] == 4 && ladder[1] == 16 && ladder[2] == 64);
    assert forall|k: u32| #[trigger] ladder.contains(k) <==> k == 4 || k == 16 || k == 64 by {
        if k == 4 {
            assert(ladder[0] == k);
        }
        if k == 16 {
            assert(ladder[1] == k);
        }
        if k == 64 {
            assert(ladder[2] == k);
        }
    }
    if let ChcPdrCexVerification::BoundedUnrollDirectSmtModel { k } = verification {
        assert(k <= u32::MAX ==> (ladder.contains(k as u32) <==> k == 4 || k == 16 || k == 64));
    }
    if answer is Ok {
        let target = replay::replay_target(obligation, problem, verification, payload)->Ok_0.0;
        assert(checked_on(obligation, problem, verification, payload, target));
    }
}

/// A witness is accepted only within the replay's budget: sixteen mebibytes of
/// counterexample, 65,536 relations and 262,144 rules; and only for an obligation whose
/// query target some rule derives.
pub proof fn law_accepted_witnesses_keep_the_budget<N, C, H, X, M>(
    obligation: MirChcPdrObligation,
    engine: ChcPdrEngine,
    witness: ChcPdrRefutationWitness,
    render: N,
    canonicalize: C,
    sha256: H,
    decode: X,
    check: M,
    answer: NativeSolveResult<String>,
) where
    N: Fn(&ChcProblem) -> String,
    C: Fn(&str) -> String,
    H: Fn(&[u8]) -> EvidenceHash,
    X: Fn(&String) -> Result<DirectSmtRefutationReplayPayload, String>,
    M: Fn(&ChcProblem, &AcyclicUnsafeWitness) -> Result<(), String>,

    requires
        replay::replays_witness(
            obligation,
            engine,
            witness,
            render,
            canonicalize,
            sha256,
            decode,
            check,
            answer,
        ),
        answer is Ok,
    ensures
        vstd::utf8::encode_utf8(witness.counterexample_json@).len() <= 16_777_216,
        obligation.vc.relations@.len() <= 65_536,
        obligation.vc.rules@.len() <= 262_144,
        exists|i: int|
            0 <= i < obligation.vc.rules@.len() && (
            #[trigger] obligation.vc.rules@[i]).head.name@ == obligation.vc.query_target@,
        witness.concreteness matches ChcPdrEncodingConcreteness::ExactEncoding {
            translation_drops,
            havocs,
            undef_diagnostic_havocs,
        } && translation_drops == 0 && havocs == 0 && undef_diagnostic_havocs == 0,
{
    let prepared = choose|prepared: PreparedTypedChcPdrInput| #[trigger]
        identity::prepared_for(obligation, render, canonicalize, sha256, prepared)
            && replay::replays_prepared(
            obligation,
            engine,
            witness,
            prepared,
            sha256,
            decode,
            check,
            answer,
        );
    assert(obligation.target_derived());
}

} // verus!
