//! Identity of a typed obligation: its route, its normalized input and the parts
//! of its cache key.
use serde_json::Value;
use vstd::prelude::*;
use vstd::string::*;

use crate::chc::{ChcProblem, ProblemModel};
use crate::error;
use crate::error::{ErrorModel, NativeSolveResult};
use crate::evidence;
use crate::evidence::{
    digest_bytes, digest_text, effective_typed_chc_timeout, publish_document, ArtifactBytes,
    ArtifactModel, ChcPdrEngine, ChcPdrSolveOptions, ChcPdrStats, EvidenceHash,
    FullVerificationArtifactKind, HashModel, MirChcPdrObligation, NativeTypedChcObligationMetadata,
    SolveTimeout,
};
use crate::json;
use crate::json::{
    json_array, json_bytes, json_copy, json_null, json_numbers, json_object, json_set,
    json_texts, set_bool, set_number, set_text, JsonModel,
};
use crate::lowering;
use crate::lowering::{lower_obligation_with_accounting, TypedChcLoweringAccounting};
use crate::text;
use crate::text::{concat2, concat4, concat5, decode_utf8};
use crate::vc::{RelationApp, RelationDecl, Rule};

verus! {

/// Route of a typed solve.
#[derive(Debug, Clone, Copy, PartialEq, Eq, Structural)]
pub enum TypedChcPdrRoute {
    /// No rule derives the query target.
    TriviallySafe,
    /// The proof engine decides.
    PdrProof,
}

impl TypedChcPdrRoute {
    /// Name of the route.
    pub open spec fn label(self) -> Seq<char> {
        match self {
            TypedChcPdrRoute::TriviallySafe => "TriviallySafe"@,
            TypedChcPdrRoute::PdrProof => "PdrProof"@,
        }
    }

    /// Name of the route.
    pub fn name(self) -> (name: &'static str)
        ensures
            name@ == self.label(),
    {
        match self {
            TypedChcPdrRoute::TriviallySafe => "TriviallySafe",
            TypedChcPdrRoute::PdrProof => "PdrProof",
        }
    }

    /// Name of the route in an obligation set.
    pub open spec fn set_label(self) -> Seq<char> {
        match self {
            TypedChcPdrRoute::TriviallySafe => "trivially_safe"@,
            TypedChcPdrRoute::PdrProof => "pdr_proof"@,
        }
    }

    fn set_name(self) -> (name: &'static str)
        ensures
            name@ == self.set_label(),
    {
        match self {
            TypedChcPdrRoute::TriviallySafe => "trivially_safe",
            TypedChcPdrRoute::PdrProof => "pdr_proof",
        }
    }
}

/// The route of an obligation.
pub open spec fn route_of(obligation: MirChcPdrObligation) -> TypedChcPdrRoute {
    if obligation.target_derived() {
        TypedChcPdrRoute::PdrProof
    } else {
        TypedChcPdrRoute::TriviallySafe
    }
}

/// The route of an obligation.
pub fn typed_chc_pdr_route(obligation: &MirChcPdrObligation) -> (route: TypedChcPdrRoute)
    ensures
        route == route_of(*obligation),
{
    if obligation.is_trivially_safe() {
        TypedChcPdrRoute::TriviallySafe
    } else {
        TypedChcPdrRoute::PdrProof
    }
}

/// The configuration that selects what a solve means.
pub open spec fn semantic_config(engine: ChcPdrEngine, route: TypedChcPdrRoute) -> Seq<char> {
    text::concat(
        seq![
            "{\"schema\":\"trust_mc.typed-chc-pdr-semantic-config/v1\",\"engine\":\""@,
            engine.label(),
            "\",\"route\":\""@,
            route.label(),
            "\",\"typed_lowering\":\"typed-chc-ay/exact-or-reject/v1\"}"@,
        ],
    )
}

/// The configuration that selects what a solve means: its engine, its route and
/// the lowering. Limits are left out, since they change no meaning.
pub fn typed_chc_pdr_semantic_config(engine: ChcPdrEngine, route: TypedChcPdrRoute) -> (config:
    String)
    ensures
        config@ == semantic_config(engine, route),
{
    concat5(
        "{\"schema\":\"trust_mc.typed-chc-pdr-semantic-config/v1\",\"engine\":\"",
        engine.name(),
        "\",\"route\":\"",
        route.name(),
        "\",\"typed_lowering\":\"typed-chc-ay/exact-or-reject/v1\"}",
    )
}

/// Two solves with one configuration have the same engine and the same route.
pub proof fn law_config_tells_engine_and_route(
    left_engine: ChcPdrEngine,
    left_route: TypedChcPdrRoute,
    right_engine: ChcPdrEngine,
    right_route: TypedChcPdrRoute,
)
    requires
        semantic_config(left_engine, left_route) == semantic_config(right_engine, right_route),
    ensures
        left_engine == right_engine,
        left_route == right_route,
{
    reveal_strlit("{\"schema\":\"trust_mc.typed-chc-pdr-semantic-config/v1\",\"engine\":\"");
    reveal_strlit("\",\"route\":\"");
    reveal_strlit("Auto");
    reveal_strlit("Pdr");
    reveal_strlit("AdaptivePortfolio");
    reveal_strlit("TriviallySafe");
    reveal_strlit("PdrProof");
    lemma_config_parts(left_engine, left_route);
    lemma_config_parts(right_engine, right_route);
    let before = "{\"schema\":\"trust_mc.typed-chc-pdr-semantic-config/v1\",\"engine\":\""@.len() as int;
    let config = semantic_config(left_engine, left_route);
    assert(config[before] == left_engine.label()[0]);
    assert(config[before] == right_engine.label()[0]);
    assert(config[before + 1] == left_engine.label()[1]);
    assert(config[before + 1] == right_engine.label()[1]);
    let at = before + left_engine.label().len() + "\",\"route\":\""@.len();
    assert(config[at] == left_route.label()[0]);
    assert(config[at] == right_route.label()[0]);
}

/// Where the parts of a configuration stand.
proof fn lemma_config_parts(engine: ChcPdrEngine, route: TypedChcPdrRoute)
    ensures
        ({
            let before = "{\"schema\":\"trust_mc.typed-chc-pdr-semantic-config/v1\",\"engine\":\""@;
            let between = "\",\"route\":\""@;
            let after = "\",\"typed_lowering\":\"typed-chc-ay/exact-or-reject/v1\"}"@;
            semantic_config(engine, route) == before + engine.label() + between + route.label()
                + after
        }),
{
    reveal_with_fuel(text::concat, 6);
    let before = "{\"schema\":\"trust_mc.typed-chc-pdr-semantic-config/v1\",\"engine\":\""@;
    let between = "\",\"route\":\""@;
    let after = "\",\"typed_lowering\":\"typed-chc-ay/exact-or-reject/v1\"}"@;
    let parts = seq![before, engine.label(), between, route.label(), after];
    assert(parts.drop_last() =~= seq![before, engine.label(), between, route.label()]);
    assert(parts.drop_last().drop_last() =~= seq![before, engine.label(), between]);
    assert(parts.drop_last().drop_last().drop_last() =~= seq![before, engine.label()]);
    assert(seq![before, engine.label()].drop_last() =~= seq![before]);
    assert(seq![before].drop_last() =~= Seq::empty());
    assert(semantic_config(engine, route) =~= before + engine.label() + between + route.label()
        + after);
}

/// Whether a text may be the digest of a configuration.
pub open spec fn config_digest<H: Fn(&[u8]) -> EvidenceHash>(
    sha256: H,
    engine: ChcPdrEngine,
    route: TypedChcPdrRoute,
    digest: Seq<char>,
) -> bool {
    exists|hash: HashModel| #[trigger]
        evidence::digests(
            sha256,
            vstd::utf8::encode_utf8(semantic_config(engine, route)),
            hash,
        ) && hash.value == digest
}

/// The digest of the configuration that selects what a solve means.
pub fn typed_chc_pdr_semantic_config_sha256<H: Fn(&[u8]) -> EvidenceHash>(
    engine: ChcPdrEngine,
    route: TypedChcPdrRoute,
    sha256: &H,
) -> (digest: String)
    requires
        evidence::total(*sha256),
    ensures
        config_digest(*sha256, engine, route, digest@),
{
    let config = typed_chc_pdr_semantic_config(engine, route);
    let hash = digest_text(sha256, config.as_str());
    assert(evidence::digests(
        *sha256,
        vstd::utf8::encode_utf8(semantic_config(engine, route)),
        hash@,
    ));
    hash.value
}

/// The size of a problem, as a document.
pub open spec fn stats_document(stats: ChcPdrStats) -> JsonModel {
    JsonModel::Object(
        map![
            "relation_count"@ => JsonModel::Number(stats.relation_count as nat),
            "clause_count"@ => JsonModel::Number(stats.clause_count as nat),
        ],
    )
}

pub(crate) fn stats_value(stats: ChcPdrStats) -> (value: Value)
    ensures
        json::json_content(value) == stats_document(stats),
{
    let mut document = json_object();
    set_number(&mut document, "relation_count", stats.relation_count as u64);
    set_number(&mut document, "clause_count", stats.clause_count as u64);
    document
}

/// A digest, as a document.
pub open spec fn hash_document(hash: HashModel) -> JsonModel {
    JsonModel::Object(
        map![
            "algorithm"@ => JsonModel::Text(hash.algorithm),
            "value"@ => JsonModel::Text(hash.value),
        ],
    )
}

pub(crate) fn hash_value(hash: &EvidenceHash) -> (value: Value)
    ensures
        json::json_content(value) == hash_document(hash@),
{
    let mut document = json_object();
    set_text(&mut document, "algorithm", hash.algorithm.as_str());
    set_text(&mut document, "value", hash.value.as_str());
    document
}

/// The metadata of an obligation, as a document.
pub open spec fn metadata_document(
    metadata: Option<NativeTypedChcObligationMetadata>,
) -> JsonModel {
    match metadata {
        Some(metadata) => json::json_content(metadata.serialized),
        None => JsonModel::Null,
    }
}

pub(crate) fn metadata_value(metadata: &Option<NativeTypedChcObligationMetadata>) -> (value: Value)
    ensures
        json::json_content(value) == metadata_document(*metadata),
{
    match metadata {
        Some(metadata) => json_copy(&metadata.serialized),
        None => json_null(),
    }
}

/// A declared relation, as a document.
pub open spec fn relation_document(relation: RelationDecl) -> JsonModel {
    JsonModel::Object(
        map![
            "name"@ => JsonModel::Text(relation.name@),
            "arity"@ => JsonModel::Number(relation.arg_sorts@.len()),
            "sorts"@ => JsonModel::Array(
                Seq::new(
                    relation.arg_sorts@.len(),
                    |i: int| JsonModel::Text(relation.arg_sorts@[i].rendering@),
                ),
            ),
        ],
    )
}

fn relation_value(relation: &RelationDecl) -> (value: Value)
    ensures
        json::json_content(value) == relation_document(*relation),
{
    let mut sorts: Vec<Value> = Vec::new();
    for i in 0..relation.arg_sorts.len()
        invariant
            sorts@.len() == i,
            forall|j: int|
                0 <= j < i ==> json::json_content(#[trigger] sorts@[j]) == JsonModel::Text(
                    relation.arg_sorts@[j].rendering@,
                ),
    {
        sorts.push(json::json_text(relation.arg_sorts[i].rendering.as_str()));
    }
    assert(json::json_contents(sorts@) =~= Seq::new(
        relation.arg_sorts@.len(),
        |i: int| JsonModel::Text(relation.arg_sorts@[i].rendering@),
    ));
    let mut document = json_object();
    set_text(&mut document, "name", relation.name.as_str());
    set_number(&mut document, "arity", relation.arg_sorts.len() as u64);
    json_set(&mut document, "sorts", json_array(sorts));
    document
}

/// An applied relation, as a document.
pub open spec fn application_document(relation: RelationApp, args: Seq<String>) -> JsonModel {
    JsonModel::Object(
        map![
            "name"@ => JsonModel::Text(relation.name@),
            "arity"@ => JsonModel::Number(relation.args@.len()),
            "args"@ => json::text_array(text::owned_texts(args)),
        ],
    )
}

fn application_value(relation: &RelationApp, args: &Vec<String>) -> (value: Value)
    ensures
        json::json_content(value) == application_document(*relation, args@),
{
    let mut document = json_object();
    set_text(&mut document, "name", relation.name.as_str());
    set_number(&mut document, "arity", relation.args.len() as u64);
    json_set(&mut document, "args", json_texts(args));
    document
}

/// A rule, as a document.
pub open spec fn rule_document(rule: Rule) -> JsonModel {
    JsonModel::Object(
        map![
            "head"@ => application_document(rule.head, rule.texts.head_args@),
            "body_relation"@ => match rule.body.relation {
                Some(relation) => application_document(relation, rule.texts.relation_args@),
                None => JsonModel::Null,
            },
            "constraints"@ => json::text_array(text::owned_texts(rule.texts.constraints@)),
        ],
    )
}

fn rule_value(rule: &Rule) -> (value: Value)
    ensures
        json::json_content(value) == rule_document(*rule),
{
    let mut document = json_object();
    json_set(&mut document, "head", application_value(&rule.head, &rule.texts.head_args));
    let relation = match &rule.body.relation {
        Some(relation) => application_value(relation, &rule.texts.relation_args),
        None => json_null(),
    };
    json_set(&mut document, "body_relation", relation);
    json_set(&mut document, "constraints", json_texts(&rule.texts.constraints));
    document
}

/// An obligation on a route, as a document.
pub open spec fn obligation_set_document(
    obligation: MirChcPdrObligation,
    route: TypedChcPdrRoute,
) -> JsonModel {
    JsonModel::Object(
        map![
            "schema"@ => JsonModel::Text("trust_mc.typed-chc-pdr-obligation-set/v2"@),
            "route"@ => JsonModel::Text(route.set_label()),
            "obligation_id"@ => JsonModel::Text(obligation.obligation_id@),
            "function_name"@ => JsonModel::Text(obligation.function_name@),
            "kind"@ => json::json_content(obligation.kind_form),
            "origin"@ => json::json_content(obligation.origin_form),
            "native_metadata"@ => metadata_document(obligation.native_metadata),
            "query_target"@ => JsonModel::Text(obligation.vc.query_target@),
            "relations"@ => JsonModel::Array(
                Seq::new(
                    obligation.vc.relations@.len(),
                    |i: int| relation_document(obligation.vc.relations@[i]),
                ),
            ),
            "rules"@ => JsonModel::Array(
                Seq::new(
                    obligation.vc.rules@.len(),
                    |i: int| rule_document(obligation.vc.rules@[i]),
                ),
            ),
        ],
    )
}

/// The encoding of an obligation on a route. It names every relation, rule and
/// constraint, so that it changes with the meaning of the obligation.
pub fn typed_obligation_set_bytes(obligation: &MirChcPdrObligation, route: TypedChcPdrRoute) -> (bytes:
    Vec<u8>)
    ensures
        bytes@ == json::json_encoding(obligation_set_document(*obligation, route)),
        vstd::utf8::valid_utf8(bytes@),
{
    let vc = &obligation.vc;
    let mut relations: Vec<Value> = Vec::new();
    for i in 0..vc.relations.len()
        invariant
            vc == obligation.vc,
            relations@.len() == i,
            forall|j: int|
                0 <= j < i ==> json::json_content(#[trigger] relations@[j]) == relation_document(
                    vc.relations@[j],
                ),
    {
        relations.push(relation_value(&vc.relations[i]));
    }
    assert(json::json_contents(relations@) =~= Seq::new(
        obligation.vc.relations@.len(),
        |i: int| relation_document(obligation.vc.relations@[i]),
    ));
    let mut rules: Vec<Value> = Vec::new();
    for i in 0..vc.rules.len()
        invariant
            vc == obligation.vc,
            rules@.len() == i,
            forall|j: int|
                0 <= j < i ==> json::json_content(#[trigger] rules@[j]) == rule_document(
                    vc.rules@[j],
                ),
    {
        rules.push(rule_value(&vc.rules[i]));
    }
    assert(json::json_contents(rules@) =~= Seq::new(
        obligation.vc.rules@.len(),
        |i: int| rule_document(obligation.vc.rules@[i]),
    ));
    let mut document = json_object();
    set_text(&mut document, "schema", "trust_mc.typed-chc-pdr-obligation-set/v2");
    set_text(&mut document, "route", route.set_name());
    set_text(&mut document, "obligation_id", obligation.obligation_id.as_str());
    set_text(&mut document, "function_name", obligation.function_name.as_str());
    json_set(&mut document, "kind", json_copy(&obligation.kind_form));
    json_set(&mut document, "origin", json_copy(&obligation.origin_form));
    json_set(&mut document, "native_metadata", metadata_value(&obligation.native_metadata));
    set_text(&mut document, "query_target", vc.query_target.as_str());
    json_set(&mut document, "relations", json_array(relations));
    json_set(&mut document, "rules", json_array(rules));
    json_bytes(&document)
}

/// The input of an obligation that no rule refutes: the obligation itself.
pub fn trivial_typed_chc_pdr_normalized_input(obligation: &MirChcPdrObligation) -> (input: String)
    ensures
        vstd::utf8::encode_utf8(input@) == json::json_encoding(
            obligation_set_document(*obligation, TypedChcPdrRoute::TriviallySafe),
        ),
{
    let bytes = typed_obligation_set_bytes(obligation, TypedChcPdrRoute::TriviallySafe);
    match decode_utf8(bytes.as_slice()) {
        Ok(input) => input,
        Err(_) => String::new(),
    }
}

/// Normalized input of an obligation.
#[derive(Debug, PartialEq, Eq)]
pub struct NativeTypedChcPdrNormalizedInput {
    pub route: TypedChcPdrRoute,
    /// The canonical input.
    pub normalized_input: String,
    /// Its digest.
    pub normalized_input_hash: EvidenceHash,
    /// Digest of the obligation on its route.
    pub obligation_set_hash: EvidenceHash,
}

/// Whether a text may be the canonical form of an input.
pub open spec fn canonical_form<C: Fn(&str) -> String>(
    canonicalize: C,
    input: Seq<char>,
    canonical: String,
) -> bool {
    exists|slice: &str| #[trigger] canonicalize.ensures((slice,), canonical) && slice@ == input
}

/// Whether a record identifies an obligation on a route by a canonical input.
pub open spec fn identifies<H: Fn(&[u8]) -> EvidenceHash>(
    sha256: H,
    obligation: MirChcPdrObligation,
    normalized: NativeTypedChcPdrNormalizedInput,
) -> bool {
    &&& evidence::digests(
        sha256,
        vstd::utf8::encode_utf8(normalized.normalized_input@),
        normalized.normalized_input_hash@,
    )
    &&& evidence::digests(
        sha256,
        json::json_encoding(obligation_set_document(obligation, normalized.route)),
        normalized.obligation_set_hash@,
    )
}

/// The record that identifies an obligation by the canonical form of an input.
/// Every later use of the input is of this canonical form, so that all digests
/// of it agree.
pub fn native_typed_chc_pdr_normalized_input<C: Fn(&str) -> String, H: Fn(&[u8]) -> EvidenceHash>(
    obligation: &MirChcPdrObligation,
    route: TypedChcPdrRoute,
    input: &str,
    canonicalize: &C,
    sha256: &H,
) -> (normalized: NativeTypedChcPdrNormalizedInput)
    requires
        canonicalize.requires((input,)),
        evidence::total(*sha256),
    ensures
        normalized.route == route,
        canonical_form(*canonicalize, input@, normalized.normalized_input),
        identifies(*sha256, *obligation, normalized),
{
    let normalized_input = canonicalize(input);
    assert(canonicalize.ensures((input,), normalized_input));
    let normalized_input_hash = digest_text(sha256, normalized_input.as_str());
    let set_bytes = typed_obligation_set_bytes(obligation, route);
    let obligation_set_hash = digest_bytes(sha256, &set_bytes);
    NativeTypedChcPdrNormalizedInput {
        route,
        normalized_input,
        normalized_input_hash,
        obligation_set_hash,
    }
}

/// Everything that a solve of an obligation starts from.
pub struct PreparedTypedChcPdrInput {
    pub normalized: NativeTypedChcPdrNormalizedInput,
    /// The lowered problem, on the route of the proof engine.
    pub problem: Option<ChcProblem>,
    /// How exact the lowering was, on that route.
    pub lowering: Option<TypedChcLoweringAccounting>,
}

/// Whether an input is prepared as its obligation asks.
pub open spec fn prepared_for<
    R: Fn(&ChcProblem) -> String,
    C: Fn(&str) -> String,
    H: Fn(&[u8]) -> EvidenceHash,
>(
    obligation: MirChcPdrObligation,
    render: R,
    canonicalize: C,
    sha256: H,
    prepared: PreparedTypedChcPdrInput,
) -> bool {
    &&& prepared.normalized.route == route_of(obligation)
    &&& identifies(sha256, obligation, prepared.normalized)
    &&& match route_of(obligation) {
        TypedChcPdrRoute::TriviallySafe => {
            &&& prepared.problem is None
            &&& prepared.lowering is None
            &&& exists|input: Seq<char>| #[trigger]
                canonical_form(canonicalize, input, prepared.normalized.normalized_input)
                    && vstd::utf8::encode_utf8(input) == json::json_encoding(
                    obligation_set_document(obligation, TypedChcPdrRoute::TriviallySafe),
                )
        },
        TypedChcPdrRoute::PdrProof => {
            &&& prepared.problem matches Some(problem) && lowering::lowered_vc(obligation.vc)
                == Ok::<ProblemModel, ErrorModel>(problem@) && exists|input: String| #[trigger]
                render.ensures((&problem,), input) && canonical_form(
                    canonicalize,
                    input@,
                    prepared.normalized.normalized_input,
                )
            &&& prepared.lowering == Some(TypedChcLoweringAccounting::exact())
        },
    }
}

/// Prepares the solve of a well-formed obligation: chooses the route, lowers the
/// problem where the proof engine is to decide, and fixes the input's identity.
pub fn prepare_validated_typed_chc_pdr_input<
    R: Fn(&ChcProblem) -> String,
    C: Fn(&str) -> String,
    H: Fn(&[u8]) -> EvidenceHash,
>(
    obligation: &MirChcPdrObligation,
    render: &R,
    canonicalize: &C,
    sha256: &H,
) -> (prepared: NativeSolveResult<PreparedTypedChcPdrInput>)
    requires
        forall|problem: &ChcProblem| #[trigger] render.requires((problem,)),
        forall|input: &str| #[trigger] canonicalize.requires((input,)),
        evidence::total(*sha256),
    ensures
        match prepared {
            Ok(prepared) => prepared_for(*obligation, *render, *canonicalize, *sha256, prepared),
            Err(fault) => obligation.target_derived() && lowering::lowered_vc(obligation.vc) == Err::<
                ProblemModel,
                ErrorModel,
            >(fault@),
        },
{
    match typed_chc_pdr_route(obligation) {
        TypedChcPdrRoute::TriviallySafe => {
            let input = trivial_typed_chc_pdr_normalized_input(obligation);
            let normalized = native_typed_chc_pdr_normalized_input(
                obligation,
                TypedChcPdrRoute::TriviallySafe,
                input.as_str(),
                canonicalize,
                sha256,
            );
            assert(canonical_form(*canonicalize, input@, normalized.normalized_input));
            Ok(PreparedTypedChcPdrInput { normalized, problem: None, lowering: None })
        },
        TypedChcPdrRoute::PdrProof => {
            let (problem, accounting) = match lower_obligation_with_accounting(&obligation.vc) {
                Ok(lowered) => lowered,
                Err(fault) => {
                    return Err(fault);
                },
            };
            let input = render(&problem);
            let normalized = native_typed_chc_pdr_normalized_input(
                obligation,
                TypedChcPdrRoute::PdrProof,
                input.as_str(),
                canonicalize,
                sha256,
            );
            assert(render.ensures((&problem,), input));
            Ok(
                PreparedTypedChcPdrInput {
                    normalized,
                    problem: Some(problem),
                    lowering: Some(accounting),
                },
            )
        },
    }
}

/// The refusal of a malformed obligation.
pub open spec fn obligation_fault(obligation: MirChcPdrObligation) -> Option<ErrorModel> {
    match obligation.fault {
        Some(fault) => Some(error::invalid_model("request.obligation"@, fault@)),
        None => None,
    }
}

/// Refuses a malformed obligation.
pub(crate) fn validate_obligation(obligation: &MirChcPdrObligation) -> (valid: NativeSolveResult<
    (),
>)
    ensures
        error::failure(valid) == obligation_fault(*obligation),
{
    match &obligation.fault {
        Some(fault) => Err(error::invalid_input("request.obligation", fault.as_str())),
        None => Ok(()),
    }
}

/// Whether an answer is the normalized input of an obligation: the refusal where
/// it is malformed or cannot be lowered, and its record otherwise.
pub open spec fn normalizes<
    R: Fn(&ChcProblem) -> String,
    C: Fn(&str) -> String,
    H: Fn(&[u8]) -> EvidenceHash,
>(
    obligation: MirChcPdrObligation,
    render: R,
    canonicalize: C,
    sha256: H,
    normalized: NativeSolveResult<NativeTypedChcPdrNormalizedInput>,
) -> bool {
    match obligation_fault(obligation) {
        Some(fault) => error::failure(normalized) == Some(fault),
        None => match normalized {
            Ok(normalized) => exists|prepared: PreparedTypedChcPdrInput| #[trigger]
                prepared_for(obligation, render, canonicalize, sha256, prepared)
                    && prepared.normalized == normalized,
            Err(fault) => obligation.target_derived() && lowering::lowered_vc(obligation.vc)
                == Err::<ProblemModel, ErrorModel>(fault@),
        },
    }
}

/// The normalized input by which a solve of an obligation will be identified.
pub fn normalized_typed_chc_pdr_input<
    R: Fn(&ChcProblem) -> String,
    C: Fn(&str) -> String,
    H: Fn(&[u8]) -> EvidenceHash,
>(
    obligation: &MirChcPdrObligation,
    render: &R,
    canonicalize: &C,
    sha256: &H,
) -> (normalized: NativeSolveResult<NativeTypedChcPdrNormalizedInput>)
    requires
        forall|problem: &ChcProblem| #[trigger] render.requires((problem,)),
        forall|input: &str| #[trigger] canonicalize.requires((input,)),
        evidence::total(*sha256),
    ensures
        normalizes(*obligation, *render, *canonicalize, *sha256, normalized),
{
    match validate_obligation(obligation) {
        Ok(()) => {},
        Err(fault) => {
            return Err(fault);
        },
    }
    match prepare_validated_typed_chc_pdr_input(obligation, render, canonicalize, sha256) {
        Ok(prepared) => {
            assert(prepared_for(*obligation, *render, *canonicalize, *sha256, prepared));
            Ok(prepared.normalized)
        },
        Err(fault) => Err(fault),
    }
}

/// A typed problem, as a document. `hash` is the digest of the input.
pub open spec fn typed_problem_document(
    obligation: MirChcPdrObligation,
    hash: HashModel,
) -> JsonModel {
    JsonModel::Object(
        map![
            "schema"@ => JsonModel::Text("trust_mc.typed-chc-problem/v1"@),
            "source"@ => JsonModel::Text("trust_mc_core::MirChcPdrObligation"@),
            "obligation_id"@ => JsonModel::Text(obligation.obligation_id@),
            "function_name"@ => JsonModel::Text(obligation.function_name@),
            "kind"@ => JsonModel::Text(obligation.kind_name@),
            "origin"@ => JsonModel::Text(obligation.origin_name@),
            "native_metadata"@ => metadata_document(obligation.native_metadata),
            "query_target"@ => JsonModel::Text(obligation.vc.query_target@),
            "stats"@ => stats_document(obligation.size()),
            "normalized_input_sha256"@ => hash_document(hash),
        ],
    )
}

/// Whether bytes may be the encoding of a typed problem with the given input.
pub open spec fn encodes_typed_problem<H: Fn(&[u8]) -> EvidenceHash>(
    sha256: H,
    obligation: MirChcPdrObligation,
    input: Seq<char>,
    bytes: Seq<u8>,
) -> bool {
    exists|hash: HashModel| #[trigger]
        evidence::digests(sha256, vstd::utf8::encode_utf8(input), hash) && bytes
            == json::json_encoding(typed_problem_document(obligation, hash))
}

/// The encoding of a typed problem with the given input.
pub(crate) fn typed_chc_problem_artifact_bytes<H: Fn(&[u8]) -> EvidenceHash>(
    obligation: &MirChcPdrObligation,
    input: &str,
    sha256: &H,
) -> (bytes: Vec<u8>)
    requires
        evidence::total(*sha256),
    ensures
        encodes_typed_problem(*sha256, *obligation, input@, bytes@),
{
    let hash = digest_text(sha256, input);
    let mut document = json_object();
    set_text(&mut document, "schema", "trust_mc.typed-chc-problem/v1");
    set_text(&mut document, "source", "trust_mc_core::MirChcPdrObligation");
    set_text(&mut document, "obligation_id", obligation.obligation_id.as_str());
    set_text(&mut document, "function_name", obligation.function_name.as_str());
    set_text(&mut document, "kind", obligation.kind_name.as_str());
    set_text(&mut document, "origin", obligation.origin_name.as_str());
    json_set(&mut document, "native_metadata", metadata_value(&obligation.native_metadata));
    set_text(&mut document, "query_target", obligation.vc.query_target.as_str());
    json_set(&mut document, "stats", stats_value(obligation.stats()));
    json_set(&mut document, "normalized_input_sha256", hash_value(&hash));
    json_bytes(&document)
}

/// Milliseconds of a limit.
pub open spec fn timeout_millis(timeout: SolveTimeout) -> int {
    timeout.secs * 1000 + timeout.nanos as int / 1_000_000
}

/// Whether the milliseconds of an optional limit fit a JSON number.
pub open spec fn millis_fit(timeout: Option<SolveTimeout>) -> bool {
    timeout matches Some(timeout) ==> timeout_millis(timeout) <= u64::MAX
}

/// A limit, as a document.
pub open spec fn duration_document(timeout: Option<SolveTimeout>) -> JsonModel {
    match timeout {
        Some(timeout) => JsonModel::Object(
            map![
                "secs"@ => JsonModel::Number(timeout.secs as nat),
                "nanos"@ => JsonModel::Number(timeout.nanos as nat),
                "millis"@ => JsonModel::Number(timeout_millis(timeout) as nat),
            ],
        ),
        None => JsonModel::Null,
    }
}

/// A limit, as a document.
pub fn duration_descriptor(timeout: Option<SolveTimeout>) -> (value: Value)
    requires
        millis_fit(timeout),
    ensures
        json::json_content(value) == duration_document(timeout),
{
    match timeout {
        Some(timeout) => {
            let millis: u64 = timeout.secs * 1000 + (timeout.nanos / 1_000_000) as u64;
            let mut document = json_object();
            set_number(&mut document, "secs", timeout.secs);
            set_number(&mut document, "nanos", timeout.nanos as u64);
            set_number(&mut document, "millis", millis);
            document
        },
        None => json_null(),
    }
}

/// The options of a solve on a route, as an artifact.
pub open spec fn options_artifact(
    options: ChcPdrSolveOptions,
    route: TypedChcPdrRoute,
) -> ArtifactModel {
    evidence::document_artifact(
        FullVerificationArtifactKind::VerificationOptions,
        "trust_mc://native/typed-chc-pdr/options.json"@,
        JsonModel::Object(
            map![
                "schema"@ => JsonModel::Text("trust_mc.typed-chc-pdr-options/v1"@),
                "engine"@ => JsonModel::Text(options.engine.label()),
                "route"@ => JsonModel::Text(route.label()),
                "timeout"@ => duration_document(options.timeout),
                "produce_proof_certificate"@ => JsonModel::Bool(options.produce_proof_certificate),
            ],
        ),
    )
}

/// The options of a solve on a route, as an artifact.
pub fn typed_options_artifact(options: &ChcPdrSolveOptions, route: TypedChcPdrRoute) -> (artifact:
    ArtifactBytes)
    requires
        millis_fit(options.timeout),
    ensures
        artifact@ == options_artifact(*options, route),
{
    let mut document = json_object();
    set_text(&mut document, "schema", "trust_mc.typed-chc-pdr-options/v1");
    set_text(&mut document, "engine", options.engine.name());
    set_text(&mut document, "route", route.name());
    json_set(&mut document, "timeout", duration_descriptor(options.timeout));
    set_bool(&mut document, "produce_proof_certificate", options.produce_proof_certificate);
    publish_document(
        FullVerificationArtifactKind::VerificationOptions,
        "trust_mc://native/typed-chc-pdr/options.json".to_owned(),
        &document,
    )
}

/// The limits of a solve, as an artifact.
pub open spec fn resource_limits_artifact(options: ChcPdrSolveOptions) -> ArtifactModel {
    evidence::document_artifact(
        FullVerificationArtifactKind::ResourceLimits,
        "trust_mc://native/typed-chc-pdr/resource-limits.json"@,
        JsonModel::Object(
            map![
                "schema"@ => JsonModel::Text("trust_mc.typed-chc-pdr-resource-limits/v1"@),
                "requested_timeout"@ => duration_document(options.timeout),
                "effective_timeout"@ => duration_document(
                    Some(evidence::effective_timeout(options)),
                ),
            ],
        ),
    )
}

/// The limits of a solve, as an artifact.
pub fn typed_resource_limits_artifact(options: &ChcPdrSolveOptions) -> (artifact: ArtifactBytes)
    requires
        millis_fit(options.timeout),
    ensures
        artifact@ == resource_limits_artifact(*options),
{
    let mut document = json_object();
    set_text(&mut document, "schema", "trust_mc.typed-chc-pdr-resource-limits/v1");
    json_set(&mut document, "requested_timeout", duration_descriptor(options.timeout));
    json_set(
        &mut document,
        "effective_timeout",
        duration_descriptor(Some(effective_typed_chc_timeout(options))),
    );
    publish_document(
        FullVerificationArtifactKind::ResourceLimits,
        "trust_mc://native/typed-chc-pdr/resource-limits.json".to_owned(),
        &document,
    )
}

/// The bundle that an obligation comes from, as an artifact.
pub open spec fn snapshot_artifact(metadata: NativeTypedChcObligationMetadata) -> ArtifactModel {
    evidence::document_artifact(
        FullVerificationArtifactKind::CompilerInput,
        "trust_mc://native/typed-chc-pdr/trust_ir-snapshot.json"@,
        JsonModel::Object(
            map![
                "schema"@ => JsonModel::Text("trust_mc.typed-chc-pdr-trust_ir-snapshot/v1"@),
                "producer"@ => JsonModel::Text(metadata.producer@),
                "adapter_input"@ => json::json_content(metadata.adapter_input),
                "source_digest"@ => json::json_content(metadata.source_digest),
                "trust_ir_module_digest"@ => json::json_content(metadata.trust_ir_module_digest),
                "lineage_manifest_digest"@ => json::json_content(metadata.lineage_manifest_digest),
                "compiler_facts_digest"@ => json::json_content(metadata.compiler_facts_digest),
                "replay_identity"@ => json::json_content(metadata.replay_identity),
                "replay_context"@ => json::json_content(metadata.replay_context),
                "native_request_id"@ => JsonModel::Number(metadata.native_request_id as nat),
                "function_id"@ => JsonModel::Number(metadata.function_id as nat),
                "proof_obligation_ids"@ => json::number_array(metadata.proof_obligation_ids@),
                "lineage_root_ids"@ => json::number_array(metadata.lineage_root_ids@),
            ],
        ),
    )
}

/// The bundle that an obligation comes from, as an artifact.
pub fn typed_trust_ir_snapshot_artifact(obligation: &MirChcPdrObligation) -> (artifact: Option<
    ArtifactBytes,
>)
    ensures
        match (artifact, obligation.native_metadata) {
            (Some(artifact), Some(metadata)) => artifact@ == snapshot_artifact(metadata),
            (None, None) => true,
            _ => false,
        },
{
    let metadata = match &obligation.native_metadata {
        Some(metadata) => metadata,
        None => {
            return None;
        },
    };
    let mut document = json_object();
    set_text(&mut document, "schema", "trust_mc.typed-chc-pdr-trust_ir-snapshot/v1");
    set_text(&mut document, "producer", metadata.producer.as_str());
    json_set(&mut document, "adapter_input", json_copy(&metadata.adapter_input));
    json_set(&mut document, "source_digest", json_copy(&metadata.source_digest));
    json_set(&mut document, "trust_ir_module_digest", json_copy(&metadata.trust_ir_module_digest));
    json_set(
        &mut document,
        "lineage_manifest_digest",
        json_copy(&metadata.lineage_manifest_digest),
    );
    json_set(&mut document, "compiler_facts_digest", json_copy(&metadata.compiler_facts_digest));
    json_set(&mut document, "replay_identity", json_copy(&metadata.replay_identity));
    json_set(&mut document, "replay_context", json_copy(&metadata.replay_context));
    set_number(&mut document, "native_request_id", metadata.native_request_id as u64);
    set_number(&mut document, "function_id", metadata.function_id as u64);
    json_set(&mut document, "proof_obligation_ids", json_numbers(&metadata.proof_obligation_ids));
    json_set(&mut document, "lineage_root_ids", json_numbers(&metadata.lineage_root_ids));
    Some(
        publish_document(
            FullVerificationArtifactKind::CompilerInput,
            "trust_mc://native/typed-chc-pdr/trust_ir-snapshot.json".to_owned(),
            &document,
        ),
    )
}

/// Build that a verification ran with.
#[derive(Debug, PartialEq, Eq)]
pub struct BuildIdentity {
    pub version: String,
    pub commit: String,
    pub dirty: bool,
    /// Version of the solver.
    pub solver_version: String,
}

/// The solver, as an artifact.
pub open spec fn solver_artifact(solver_version: Seq<char>) -> ArtifactModel {
    evidence::document_artifact(
        FullVerificationArtifactKind::SolverBinary,
        "ay://solver/ay-chc-native"@,
        JsonModel::Object(
            map![
                "schema"@ => JsonModel::Text("trust_mc.ay-solver-identity/v1"@),
                "solver"@ => JsonModel::Text("ay-chc-native"@),
                "ay_version"@ => JsonModel::Text(solver_version),
                "ay_chc_crate"@ => JsonModel::Text("ay-chc"@),
            ],
        ),
    )
}

/// The solver, as an artifact.
pub fn ay_solver_identity_artifact(solver_version: &str) -> (artifact: ArtifactBytes)
    ensures
        artifact@ == solver_artifact(solver_version@),
{
    let mut document = json_object();
    set_text(&mut document, "schema", "trust_mc.ay-solver-identity/v1");
    set_text(&mut document, "solver", "ay-chc-native");
    set_text(&mut document, "ay_version", solver_version);
    set_text(&mut document, "ay_chc_crate", "ay-chc");
    publish_document(
        FullVerificationArtifactKind::SolverBinary,
        "ay://solver/ay-chc-native".to_owned(),
        &document,
    )
}

/// The proof mode of a solve on a route.
pub open spec fn proof_mode_label(
    options: ChcPdrSolveOptions,
    route: TypedChcPdrRoute,
) -> Seq<char> {
    text::concat(seq!["typed-chc-pdr::"@, route.label(), "::"@, options.engine.label()])
}

/// The proof mode of a solve on a route.
pub fn typed_proof_mode(options: &ChcPdrSolveOptions, route: TypedChcPdrRoute) -> (mode: String)
    ensures
        mode@ == proof_mode_label(*options, route),
{
    concat4("typed-chc-pdr::", route.name(), "::", options.engine.name())
}

/// What a cache key covers.
#[derive(Debug, PartialEq, Eq)]
pub struct FullVerificationCacheKeyParts {
    pub trust_mc_version: String,
    pub trust_mc_commit: String,
    pub trust_mc_dirty: bool,
    pub ay_solver: ArtifactBytes,
    pub trust_ir_snapshot: Option<ArtifactBytes>,
    pub proof_mode: String,
    pub options: ArtifactBytes,
    pub resource_limits: ArtifactBytes,
    pub normalized_input_hash: EvidenceHash,
    pub obligation_set_hash: EvidenceHash,
}

/// Cache key of a verification.
#[derive(Debug, PartialEq, Eq)]
pub struct FullVerificationCacheKey {
    /// The key.
    pub key: EvidenceHash,
    /// Digest of the normalized input that it covers.
    pub normalized_input_hash: EvidenceHash,
    /// Digest of the obligation that it covers.
    pub obligation_set_hash: EvidenceHash,
    /// Whether the key matches its parts.
    pub valid: bool,
    /// Serialized form.
    pub serialized: Value,
}

impl FullVerificationCacheKey {
    /// The same key.
    pub fn duplicate(&self) -> (copy: FullVerificationCacheKey)
        ensures
            copy.same_as(*self),
    {
        FullVerificationCacheKey {
            key: self.key.duplicate(),
            normalized_input_hash: self.normalized_input_hash.duplicate(),
            obligation_set_hash: self.obligation_set_hash.duplicate(),
            valid: self.valid,
            serialized: json_copy(&self.serialized),
        }
    }

    /// Whether two keys hold the same.
    pub open spec fn same_as(self, other: FullVerificationCacheKey) -> bool {
        &&& self.key@ == other.key@
        &&& self.normalized_input_hash@ == other.normalized_input_hash@
        &&& self.obligation_set_hash@ == other.obligation_set_hash@
        &&& self.valid == other.valid
        &&& json::json_content(self.serialized) == json::json_content(other.serialized)
    }
}

/// Whether the parts of a cache key are those of a solve.
pub open spec fn covers(
    build: BuildIdentity,
    obligation: MirChcPdrObligation,
    options: ChcPdrSolveOptions,
    normalized: NativeTypedChcPdrNormalizedInput,
    parts: FullVerificationCacheKeyParts,
) -> bool {
    &&& parts.trust_mc_version@ == build.version@
    &&& parts.trust_mc_commit@ == build.commit@
    &&& parts.trust_mc_dirty == build.dirty
    &&& parts.ay_solver@ == solver_artifact(build.solver_version@)
    &&& match (parts.trust_ir_snapshot, obligation.native_metadata) {
        (Some(artifact), Some(metadata)) => artifact@ == snapshot_artifact(metadata),
        (None, None) => true,
        _ => false,
    }
    &&& parts.proof_mode@ == proof_mode_label(options, normalized.route)
    &&& parts.options@ == options_artifact(options, normalized.route)
    &&& parts.resource_limits@ == resource_limits_artifact(options)
    &&& parts.normalized_input_hash@ == normalized.normalized_input_hash@
    &&& parts.obligation_set_hash@ == normalized.obligation_set_hash@
}

/// The cache key of a solve: the key that `from_parts` gives for everything that
/// the verdict depends on.
pub fn typed_full_verification_cache_key<
    K: Fn(&FullVerificationCacheKeyParts) -> FullVerificationCacheKey,
>(
    build: &BuildIdentity,
    obligation: &MirChcPdrObligation,
    options: &ChcPdrSolveOptions,
    normalized: &NativeTypedChcPdrNormalizedInput,
    from_parts: &K,
) -> (key: FullVerificationCacheKey)
    requires
        millis_fit(options.timeout),
        forall|parts: &FullVerificationCacheKeyParts| #[trigger] from_parts.requires((parts,)),
    ensures
        exists|parts: FullVerificationCacheKeyParts| #[trigger]
            from_parts.ensures((&parts,), key) && covers(
                *build,
                *obligation,
                *options,
                *normalized,
                parts,
            ),
{
    let parts = FullVerificationCacheKeyParts {
        trust_mc_version: build.version.clone(),
        trust_mc_commit: build.commit.clone(),
        trust_mc_dirty: build.dirty,
        ay_solver: ay_solver_identity_artifact(build.solver_version.as_str()),
        trust_ir_snapshot: typed_trust_ir_snapshot_artifact(obligation),
        proof_mode: typed_proof_mode(options, normalized.route),
        options: typed_options_artifact(options, normalized.route),
        resource_limits: typed_resource_limits_artifact(options),
        normalized_input_hash: normalized.normalized_input_hash.duplicate(),
        obligation_set_hash: normalized.obligation_set_hash.duplicate(),
    };
    let key = from_parts(&parts);
    assert(from_parts.ensures((&parts,), key));
    key
}

/// The artifact directory of a cache key.
pub open spec fn artifact_directory_of(key: HashModel) -> Seq<char> {
    text::concat(seq!["target/trust_mc/native/typed-chc-pdr/"@, key.value])
}

/// The artifact directory of a cache key.
pub fn typed_artifact_directory(cache_key: &FullVerificationCacheKey) -> (directory: String)
    ensures
        directory@ == artifact_directory_of(cache_key.key@),
{
    concat2("target/trust_mc/native/typed-chc-pdr/", cache_key.key.value.as_str())
}

} // verus!
