//! What the identity of an input promises.
use vstd::prelude::*;

use crate::chc::ChcProblem;
use crate::error;
use crate::error::NativeSolveResult;
use crate::evidence;
use crate::evidence::{
    ChcPdrEngine, ChcPdrSolveOptions, EvidenceHash, HashModel, MirChcPdrObligation,
    NativeTypedChcObligationMetadata, SolveTimeout,
};
use crate::identity;
use crate::identity::{
    BuildIdentity, FullVerificationCacheKeyParts, NativeTypedChcPdrNormalizedInput,
    PreparedTypedChcPdrInput, TypedChcPdrRoute,
};
use crate::json;
use crate::json::JsonModel;
use crate::text;
use crate::vc::{RelationApp, RelationDecl, Rule};

verus! {

/// Whether problems that are the same are rendered alike.
pub open spec fn renders_alike<N: Fn(&ChcProblem) -> String>(render: N) -> bool {
    forall|left: ChcProblem, right: ChcProblem, one: String, other: String|
        #![trigger render.ensures((&left,), one), render.ensures((&right,), other)]
        render.ensures((&left,), one) && render.ensures((&right,), other) && left@ == right@
            ==> one@ == other@
}

/// Whether a text has one canonical form.
pub open spec fn canonicalizes_alike<C: Fn(&str) -> String>(canonicalize: C) -> bool {
    forall|input: Seq<char>, one: String, other: String|
        #![trigger identity::canonical_form(canonicalize, input, one), identity::canonical_form(canonicalize, input, other)]
        identity::canonical_form(canonicalize, input, one) && identity::canonical_form(
            canonicalize,
            input,
            other,
        ) ==> one@ == other@
}

/// Whether two obligations ask the same.
pub open spec fn same_obligation(left: MirChcPdrObligation, right: MirChcPdrObligation) -> bool {
    &&& left.obligation_id@ == right.obligation_id@
    &&& left.function_name@ == right.function_name@
    &&& json::json_content(left.kind_form) == json::json_content(right.kind_form)
    &&& json::json_content(left.origin_form) == json::json_content(right.origin_form)
    &&& identity::metadata_document(left.native_metadata) == identity::metadata_document(
        right.native_metadata,
    )
    &&& left.vc.relations@ == right.vc.relations@
    &&& left.vc.rules@ == right.vc.rules@
    &&& left.vc.query_target@ == right.vc.query_target@
    &&& identity::obligation_fault(left) == identity::obligation_fault(right)
}

/// Whether two records hold the same.
pub open spec fn same_record(
    left: NativeTypedChcPdrNormalizedInput,
    right: NativeTypedChcPdrNormalizedInput,
) -> bool {
    &&& left.route == right.route
    &&& left.normalized_input@ == right.normalized_input@
    &&& left.normalized_input_hash@ == right.normalized_input_hash@
    &&& left.obligation_set_hash@ == right.obligation_set_hash@
}

/// Obligations that ask the same have the same document.
proof fn lemma_same_document(
    left: MirChcPdrObligation,
    right: MirChcPdrObligation,
    route: TypedChcPdrRoute,
)
    requires
        same_obligation(left, right),
    ensures
        identity::obligation_set_document(left, route) == identity::obligation_set_document(
            right,
            route,
        ),
{
    assert(Seq::new(
        left.vc.relations@.len(),
        |i: int| identity::relation_document(left.vc.relations@[i]),
    ) =~= Seq::new(
        right.vc.relations@.len(),
        |i: int| identity::relation_document(right.vc.relations@[i]),
    ));
    assert(Seq::new(left.vc.rules@.len(), |i: int| identity::rule_document(left.vc.rules@[i]))
        =~= Seq::new(
        right.vc.rules@.len(),
        |i: int| identity::rule_document(right.vc.rules@[i]),
    ));
}

/// Obligations that ask the same are prepared alike.
pub proof fn lemma_prepared_alike<N, C, H>(
    left: MirChcPdrObligation,
    right: MirChcPdrObligation,
    render: N,
    canonicalize: C,
    sha256: H,
    one: PreparedTypedChcPdrInput,
    other: PreparedTypedChcPdrInput,
) where N: Fn(&ChcProblem) -> String, C: Fn(&str) -> String, H: Fn(&[u8]) -> EvidenceHash
    requires
        renders_alike(render),
        canonicalizes_alike(canonicalize),
        evidence::settled(sha256),
        same_obligation(left, right),
        identity::prepared_for(left, render, canonicalize, sha256, one),
        identity::prepared_for(right, render, canonicalize, sha256, other),
    ensures
        same_record(one.normalized, other.normalized),
        left.target_derived() ==> one.problem->0@ == other.problem->0@,
{
    let route = identity::route_of(left);
    assert(left.target_derived() == right.target_derived());
    lemma_same_document(left, right, route);
    if left.target_derived() {
        let own = one.problem->0;
        let again = other.problem->0;
        let one_input = choose|input: String| #[trigger]
            render.ensures((&own,), input) && identity::canonical_form(
                canonicalize,
                input@,
                one.normalized.normalized_input,
            );
        let other_input = choose|input: String| #[trigger]
            render.ensures((&again,), input) && identity::canonical_form(
                canonicalize,
                input@,
                other.normalized.normalized_input,
            );
        assert(one_input@ == other_input@);
    } else {
        let one_input = choose|input: Seq<char>| #[trigger]
            identity::canonical_form(canonicalize, input, one.normalized.normalized_input)
                && vstd::utf8::encode_utf8(input) == json::json_encoding(
                identity::obligation_set_document(left, route),
            );
        let other_input = choose|input: Seq<char>| #[trigger]
            identity::canonical_form(canonicalize, input, other.normalized.normalized_input)
                && vstd::utf8::encode_utf8(input) == json::json_encoding(
                identity::obligation_set_document(right, route),
            );
        vstd::utf8::encode_utf8_decode_utf8(one_input);
        vstd::utf8::encode_utf8_decode_utf8(other_input);
        assert(one_input == other_input);
    }
    assert(one.normalized.normalized_input@ == other.normalized.normalized_input@);
}

/// Normalizing gives the same answer for obligations that ask the same, and so a
/// second time: the same record, or the same refusal.
pub proof fn law_normalizing_is_repeatable<N, C, H>(
    left: MirChcPdrObligation,
    right: MirChcPdrObligation,
    render: N,
    canonicalize: C,
    sha256: H,
    one: NativeSolveResult<NativeTypedChcPdrNormalizedInput>,
    other: NativeSolveResult<NativeTypedChcPdrNormalizedInput>,
) where N: Fn(&ChcProblem) -> String, C: Fn(&str) -> String, H: Fn(&[u8]) -> EvidenceHash
    requires
        renders_alike(render),
        canonicalizes_alike(canonicalize),
        evidence::settled(sha256),
        same_obligation(left, right),
        identity::normalizes(left, render, canonicalize, sha256, one),
        identity::normalizes(right, render, canonicalize, sha256, other),
    ensures
        match (one, other) {
            (Ok(one), Ok(other)) => same_record(one, other),
            (Err(_), Err(_)) => error::failure(one) == error::failure(other),
            _ => false,
        },
{
    assert(left.target_derived() == right.target_derived());
    if let (Ok(one), Ok(other)) = (one, other) {
        let own = choose|prepared: PreparedTypedChcPdrInput| #[trigger]
            identity::prepared_for(left, render, canonicalize, sha256, prepared)
                && prepared.normalized == one;
        let again = choose|prepared: PreparedTypedChcPdrInput| #[trigger]
            identity::prepared_for(right, render, canonicalize, sha256, prepared)
                && prepared.normalized == other;
        lemma_prepared_alike(left, right, render, canonicalize, sha256, own, again);
    }
}

/// Whether two relations are declared alike, as far as texts tell.
pub open spec fn declared_alike(left: RelationDecl, right: RelationDecl) -> bool {
    &&& left.name@ == right.name@
    &&& left.arg_sorts@.len() == right.arg_sorts@.len()
    &&& forall|i: int|
        0 <= i < left.arg_sorts@.len() ==> (#[trigger] left.arg_sorts@[i]).rendering@
            == right.arg_sorts@[i].rendering@
}

/// Whether two rules say the same, as far as their texts tell.
pub open spec fn ruled_alike(left: Rule, right: Rule) -> bool {
    &&& left.head.name@ == right.head.name@
    &&& left.head.args@.len() == right.head.args@.len()
    &&& text::owned_texts(left.texts.head_args@) == text::owned_texts(right.texts.head_args@)
    &&& match (left.body.relation, right.body.relation) {
        (Some(one), Some(other)) => one.name@ == other.name@ && one.args@.len()
            == other.args@.len() && text::owned_texts(left.texts.relation_args@)
            == text::owned_texts(right.texts.relation_args@),
        (one, other) => one is None && other is None,
    }
    &&& text::owned_texts(left.texts.constraints@) == text::owned_texts(right.texts.constraints@)
}

proof fn lemma_text_arrays(left: Seq<Seq<char>>, right: Seq<Seq<char>>)
    requires
        json::text_array(left) == json::text_array(right),
    ensures
        left == right,
{
    let one = json::text_array(left)->Array_0;
    let other = json::text_array(right)->Array_0;
    assert(one.len() == left.len() && other.len() == right.len());
    assert forall|i: int| 0 <= i < left.len() implies #[trigger] left[i] == right[i] by {
        assert(one[i] == JsonModel::Text(left[i]));
        assert(other[i] == JsonModel::Text(right[i]));
    }
    assert(left =~= right);
}

proof fn lemma_relations_told_apart(left: RelationDecl, right: RelationDecl)
    requires
        identity::relation_document(left) == identity::relation_document(right),
    ensures
        declared_alike(left, right),
{
    reveal_strlit("name");
    reveal_strlit("arity");
    reveal_strlit("sorts");
    assert("name"@.len() == 4 && "arity"@.len() == 5 && "sorts"@.len() == 5);
    assert("arity"@[0] == 'a' && "sorts"@[0] == 's');
    let one = identity::relation_document(left)->Object_0;
    let other = identity::relation_document(right)->Object_0;
    assert(one["name"@] == JsonModel::Text(left.name@));
    assert(other["name"@] == JsonModel::Text(right.name@));
    let sorts = one["sorts"@]->Array_0;
    let others = other["sorts"@]->Array_0;
    assert(sorts.len() == left.arg_sorts@.len());
    assert(others.len() == right.arg_sorts@.len());
    assert forall|i: int| 0 <= i < left.arg_sorts@.len() implies (
    #[trigger] left.arg_sorts@[i]).rendering@ == right.arg_sorts@[i].rendering@ by {
        assert(sorts[i] == JsonModel::Text(left.arg_sorts@[i].rendering@));
        assert(others[i] == JsonModel::Text(right.arg_sorts@[i].rendering@));
    }
}

proof fn lemma_applications_told_apart(
    left: RelationApp,
    left_args: Seq<String>,
    right: RelationApp,
    right_args: Seq<String>,
)
    requires
        identity::application_document(left, left_args) == identity::application_document(
            right,
            right_args,
        ),
    ensures
        left.name@ == right.name@,
        left.args@.len() == right.args@.len(),
        text::owned_texts(left_args) == text::owned_texts(right_args),
{
    reveal_strlit("name");
    reveal_strlit("arity");
    reveal_strlit("args");
    assert("name"@.len() == 4 && "arity"@.len() == 5 && "args"@.len() == 4);
    assert("name"@[0] == 'n' && "args"@[0] == 'a');
    let one = identity::application_document(left, left_args)->Object_0;
    let other = identity::application_document(right, right_args)->Object_0;
    assert(one["name"@] == JsonModel::Text(left.name@));
    assert(other["name"@] == JsonModel::Text(right.name@));
    assert(one["arity"@] == JsonModel::Number(left.args@.len()));
    assert(other["arity"@] == JsonModel::Number(right.args@.len()));
    assert(one["args"@] == json::text_array(text::owned_texts(left_args)));
    assert(other["args"@] == json::text_array(text::owned_texts(right_args)));
    lemma_text_arrays(text::owned_texts(left_args), text::owned_texts(right_args));
}

proof fn lemma_rules_told_apart(left: Rule, right: Rule)
    requires
        identity::rule_document(left) == identity::rule_document(right),
    ensures
        ruled_alike(left, right),
{
    reveal_strlit("head");
    reveal_strlit("body_relation");
    reveal_strlit("constraints");
    assert("head"@.len() == 4 && "body_relation"@.len() == 13 && "constraints"@.len() == 11);
    let one = identity::rule_document(left)->Object_0;
    let other = identity::rule_document(right)->Object_0;
    assert(one["head"@] == identity::application_document(left.head, left.texts.head_args@));
    assert(other["head"@] == identity::application_document(right.head, right.texts.head_args@));
    lemma_applications_told_apart(
        left.head,
        left.texts.head_args@,
        right.head,
        right.texts.head_args@,
    );
    assert(one["constraints"@] == json::text_array(text::owned_texts(left.texts.constraints@)));
    assert(other["constraints"@] == json::text_array(text::owned_texts(right.texts.constraints@)));
    lemma_text_arrays(
        text::owned_texts(left.texts.constraints@),
        text::owned_texts(right.texts.constraints@),
    );
    assert(one["body_relation"@] == match left.body.relation {
        Some(relation) => identity::application_document(relation, left.texts.relation_args@),
        None => JsonModel::Null,
    });
    assert(other["body_relation"@] == match right.body.relation {
        Some(relation) => identity::application_document(relation, right.texts.relation_args@),
        None => JsonModel::Null,
    });
    if let (Some(a), Some(b)) = (left.body.relation, right.body.relation) {
        lemma_applications_told_apart(a, left.texts.relation_args@, b, right.texts.relation_args@);
    }
}

proof fn lemma_set_keys()
    ensures
        "schema"@ != "origin"@,
        "route"@ != "rules"@,
        "obligation_id"@ != "function_name"@,
        "schema"@.len() == 6,
        "route"@.len() == 5,
        "obligation_id"@.len() == 13,
        "function_name"@.len() == 13,
        "kind"@.len() == 4,
        "origin"@.len() == 6,
        "native_metadata"@.len() == 15,
        "query_target"@.len() == 12,
        "relations"@.len() == 9,
        "rules"@.len() == 5,
{
    reveal_strlit("schema");
    reveal_strlit("route");
    reveal_strlit("obligation_id");
    reveal_strlit("function_name");
    reveal_strlit("kind");
    reveal_strlit("origin");
    reveal_strlit("native_metadata");
    reveal_strlit("query_target");
    reveal_strlit("relations");
    reveal_strlit("rules");
    assert("schema"@[0] == 's' && "origin"@[0] == 'o');
    assert("route"@[1] == 'o' && "rules"@[1] == 'u');
    assert("obligation_id"@[0] == 'o' && "function_name"@[0] == 'f');
}

/// The document of an obligation tells obligations apart: two that have one document
/// take the same route, are of the same name, function, kind, origin and metadata, and
/// have the same query target, relations and rules, one by one and in order.
pub proof fn law_documents_tell_obligations_apart(
    left: MirChcPdrObligation,
    left_route: TypedChcPdrRoute,
    right: MirChcPdrObligation,
    right_route: TypedChcPdrRoute,
)
    requires
        identity::obligation_set_document(left, left_route) == identity::obligation_set_document(
            right,
            right_route,
        ),
    ensures
        left_route == right_route,
        left.obligation_id@ == right.obligation_id@,
        left.function_name@ == right.function_name@,
        json::json_content(left.kind_form) == json::json_content(right.kind_form),
        json::json_content(left.origin_form) == json::json_content(right.origin_form),
        (left.native_metadata matches Some(one) && right.native_metadata matches Some(other))
            ==> json::json_content((left.native_metadata->0).serialized) == json::json_content(
            (right.native_metadata->0).serialized,
        ),
        left.vc.query_target@ == right.vc.query_target@,
        left.vc.relations@.len() == right.vc.relations@.len(),
        forall|i: int|
            0 <= i < left.vc.relations@.len() ==> declared_alike(
                #[trigger] left.vc.relations@[i],
                right.vc.relations@[i],
            ),
        left.vc.rules@.len() == right.vc.rules@.len(),
        forall|i: int|
            0 <= i < left.vc.rules@.len() ==> ruled_alike(
                #[trigger] left.vc.rules@[i],
                right.vc.rules@[i],
            ),
{
    lemma_set_keys();
    let one = identity::obligation_set_document(left, left_route)->Object_0;
    let other = identity::obligation_set_document(right, right_route)->Object_0;
    lemma_set_fields(left, left_route);
    lemma_set_fields(right, right_route);
    lemma_route_labels(left_route, right_route);
    let relations = one["relations"@]->Array_0;
    let others = other["relations"@]->Array_0;
    assert(relations.len() == left.vc.relations@.len());
    assert(others.len() == right.vc.relations@.len());
    assert forall|i: int| 0 <= i < left.vc.relations@.len() implies declared_alike(
        #[trigger] left.vc.relations@[i],
        right.vc.relations@[i],
    ) by {
        assert(relations[i] == identity::relation_document(left.vc.relations@[i]));
        assert(others[i] == identity::relation_document(right.vc.relations@[i]));
        lemma_relations_told_apart(left.vc.relations@[i], right.vc.relations@[i]);
    }
    let rules = one["rules"@]->Array_0;
    let other_rules = other["rules"@]->Array_0;
    assert(rules.len() == left.vc.rules@.len());
    assert(other_rules.len() == right.vc.rules@.len());
    assert forall|i: int| 0 <= i < left.vc.rules@.len() implies ruled_alike(
        #[trigger] left.vc.rules@[i],
        right.vc.rules@[i],
    ) by {
        assert(rules[i] == identity::rule_document(left.vc.rules@[i]));
        assert(other_rules[i] == identity::rule_document(right.vc.rules@[i]));
        lemma_rules_told_apart(left.vc.rules@[i], right.vc.rules@[i]);
    }
}

proof fn lemma_set_fields(obligation: MirChcPdrObligation, route: TypedChcPdrRoute)
    ensures
        ({
            let fields = identity::obligation_set_document(obligation, route)->Object_0;
            &&& fields["route"@] == JsonModel::Text(route.set_label())
            &&& fields["obligation_id"@] == JsonModel::Text(obligation.obligation_id@)
            &&& fields["function_name"@] == JsonModel::Text(obligation.function_name@)
            &&& fields["kind"@] == json::json_content(obligation.kind_form)
            &&& fields["origin"@] == json::json_content(obligation.origin_form)
            &&& fields["native_metadata"@] == identity::metadata_document(
                obligation.native_metadata,
            )
            &&& fields["query_target"@] == JsonModel::Text(obligation.vc.query_target@)
            &&& fields["relations"@] == JsonModel::Array(
                Seq::new(
                    obligation.vc.relations@.len(),
                    |i: int| identity::relation_document(obligation.vc.relations@[i]),
                ),
            )
            &&& fields["rules"@] == JsonModel::Array(
                Seq::new(
                    obligation.vc.rules@.len(),
                    |i: int| identity::rule_document(obligation.vc.rules@[i]),
                ),
            )
        }),
{
    lemma_set_keys();
}

proof fn lemma_route_labels(left: TypedChcPdrRoute, right: TypedChcPdrRoute)
    requires
        left.set_label() == right.set_label(),
    ensures
        left == right,
{
    reveal_strlit("trivially_safe");
    reveal_strlit("pdr_proof");
    assert("trivially_safe"@.len() == 14 && "pdr_proof"@.len() == 9);
}

/// Whether two lists of parts hold the same.
pub open spec fn same_parts(
    left: FullVerificationCacheKeyParts,
    right: FullVerificationCacheKeyParts,
) -> bool {
    &&& left.trust_mc_version@ == right.trust_mc_version@
    &&& left.trust_mc_commit@ == right.trust_mc_commit@
    &&& left.trust_mc_dirty == right.trust_mc_dirty
    &&& left.ay_solver@ == right.ay_solver@
    &&& match (left.trust_ir_snapshot, right.trust_ir_snapshot) {
        (Some(one), Some(other)) => one@ == other@,
        (one, other) => one is None && other is None,
    }
    &&& left.proof_mode@ == right.proof_mode@
    &&& left.options@ == right.options@
    &&& left.resource_limits@ == right.resource_limits@
    &&& left.normalized_input_hash@ == right.normalized_input_hash@
    &&& left.obligation_set_hash@ == right.obligation_set_hash@
}

/// Whether every document has an encoding of its own.
pub open spec fn encodings_differ() -> bool {
    forall|left: JsonModel, right: JsonModel|
        #![trigger json::json_encoding(left), json::json_encoding(right)]
        json::encoded_apart(left, right)
}

/// Whether metadata tell of the same part of the same bundle.
pub open spec fn same_origin(
    left: NativeTypedChcObligationMetadata,
    right: NativeTypedChcObligationMetadata,
) -> bool {
    &&& left.producer@ == right.producer@
    &&& json::json_content(left.adapter_input) == json::json_content(right.adapter_input)
    &&& json::json_content(left.source_digest) == json::json_content(right.source_digest)
    &&& json::json_content(left.trust_ir_module_digest) == json::json_content(
        right.trust_ir_module_digest,
    )
    &&& json::json_content(left.lineage_manifest_digest) == json::json_content(
        right.lineage_manifest_digest,
    )
    &&& json::json_content(left.compiler_facts_digest) == json::json_content(
        right.compiler_facts_digest,
    )
    &&& json::json_content(left.replay_identity) == json::json_content(right.replay_identity)
    &&& json::json_content(left.replay_context) == json::json_content(right.replay_context)
    &&& left.native_request_id == right.native_request_id
    &&& left.function_id == right.function_id
    &&& left.proof_obligation_ids@ == right.proof_obligation_ids@
    &&& left.lineage_root_ids@ == right.lineage_root_ids@
}

proof fn lemma_durations_told_apart(left: Option<SolveTimeout>, right: Option<SolveTimeout>)
    requires
        identity::duration_document(left) == identity::duration_document(right),
    ensures
        left == right,
{
    reveal_strlit("secs");
    reveal_strlit("nanos");
    reveal_strlit("millis");
    assert("secs"@.len() == 4 && "nanos"@.len() == 5 && "millis"@.len() == 6);
    if let (Some(one), Some(other)) = (left, right) {
        let fields = identity::duration_document(left)->Object_0;
        let others = identity::duration_document(right)->Object_0;
        assert(fields["secs"@] == JsonModel::Number(one.secs as nat));
        assert(others["secs"@] == JsonModel::Number(other.secs as nat));
        assert(fields["nanos"@] == JsonModel::Number(one.nanos as nat));
        assert(others["nanos"@] == JsonModel::Number(other.nanos as nat));
    }
}

proof fn lemma_labels(
    left_engine: ChcPdrEngine,
    left_route: TypedChcPdrRoute,
    right_engine: ChcPdrEngine,
    right_route: TypedChcPdrRoute,
)
    ensures
        left_engine.label() == right_engine.label() ==> left_engine == right_engine,
        left_route.label() == right_route.label() ==> left_route == right_route,
{
    reveal_strlit("Auto");
    reveal_strlit("Pdr");
    reveal_strlit("AdaptivePortfolio");
    reveal_strlit("TriviallySafe");
    reveal_strlit("PdrProof");
    assert("Auto"@.len() == 4 && "Pdr"@.len() == 3 && "AdaptivePortfolio"@.len() == 17);
    assert("TriviallySafe"@.len() == 13 && "PdrProof"@.len() == 8);
}

proof fn lemma_options_told_apart(
    left: ChcPdrSolveOptions,
    left_route: TypedChcPdrRoute,
    right: ChcPdrSolveOptions,
    right_route: TypedChcPdrRoute,
)
    requires
        encodings_differ(),
        identity::options_artifact(left, left_route) == identity::options_artifact(
            right,
            right_route,
        ),
    ensures
        left == right,
        left_route == right_route,
{
    reveal_strlit("schema");
    reveal_strlit("engine");
    reveal_strlit("route");
    reveal_strlit("timeout");
    reveal_strlit("produce_proof_certificate");
    assert("schema"@.len() == 6 && "engine"@.len() == 6 && "route"@.len() == 5 && "timeout"@.len()
        == 7 && "produce_proof_certificate"@.len() == 25);
    assert("schema"@[0] == 's' && "engine"@[0] == 'e');
    let one = JsonModel::Object(
        map![
            "schema"@ => JsonModel::Text("trust_mc.typed-chc-pdr-options/v1"@),
            "engine"@ => JsonModel::Text(left.engine.label()),
            "route"@ => JsonModel::Text(left_route.label()),
            "timeout"@ => identity::duration_document(left.timeout),
            "produce_proof_certificate"@ => JsonModel::Bool(left.produce_proof_certificate),
        ],
    );
    let other = JsonModel::Object(
        map![
            "schema"@ => JsonModel::Text("trust_mc.typed-chc-pdr-options/v1"@),
            "engine"@ => JsonModel::Text(right.engine.label()),
            "route"@ => JsonModel::Text(right_route.label()),
            "timeout"@ => identity::duration_document(right.timeout),
            "produce_proof_certificate"@ => JsonModel::Bool(right.produce_proof_certificate),
        ],
    );
    assert(json::encoded_apart(one, other));
    let fields = one->Object_0;
    let others = other->Object_0;
    assert(fields["engine"@] == JsonModel::Text(left.engine.label()));
    assert(others["engine"@] == JsonModel::Text(right.engine.label()));
    assert(fields["route"@] == JsonModel::Text(left_route.label()));
    assert(others["route"@] == JsonModel::Text(right_route.label()));
    assert(fields["timeout"@] == identity::duration_document(left.timeout));
    assert(others["timeout"@] == identity::duration_document(right.timeout));
    assert(fields["produce_proof_certificate"@] == JsonModel::Bool(
        left.produce_proof_certificate,
    ));
    assert(others["produce_proof_certificate"@] == JsonModel::Bool(
        right.produce_proof_certificate,
    ));
    lemma_labels(left.engine, left_route, right.engine, right_route);
    lemma_durations_told_apart(left.timeout, right.timeout);
}

proof fn lemma_solvers_told_apart(left: Seq<char>, right: Seq<char>)
    requires
        encodings_differ(),
        identity::solver_artifact(left) == identity::solver_artifact(right),
    ensures
        left == right,
{
    reveal_strlit("schema");
    reveal_strlit("solver");
    reveal_strlit("ay_version");
    reveal_strlit("ay_chc_crate");
    assert("schema"@.len() == 6 && "solver"@.len() == 6 && "ay_version"@.len() == 10
        && "ay_chc_crate"@.len() == 12);
    let one = JsonModel::Object(
        map![
            "schema"@ => JsonModel::Text("trust_mc.ay-solver-identity/v1"@),
            "solver"@ => JsonModel::Text("ay-chc-native"@),
            "ay_version"@ => JsonModel::Text(left),
            "ay_chc_crate"@ => JsonModel::Text("ay-chc"@),
        ],
    );
    let other = JsonModel::Object(
        map![
            "schema"@ => JsonModel::Text("trust_mc.ay-solver-identity/v1"@),
            "solver"@ => JsonModel::Text("ay-chc-native"@),
            "ay_version"@ => JsonModel::Text(right),
            "ay_chc_crate"@ => JsonModel::Text("ay-chc"@),
        ],
    );
    assert(json::encoded_apart(one, other));
    assert(one->Object_0["ay_version"@] == JsonModel::Text(left));
    assert(other->Object_0["ay_version"@] == JsonModel::Text(right));
}

proof fn lemma_number_arrays(left: Seq<u32>, right: Seq<u32>)
    requires
        json::number_array(left) == json::number_array(right),
    ensures
        left == right,
{
    let one = json::number_array(left)->Array_0;
    let other = json::number_array(right)->Array_0;
    assert(one.len() == left.len() && other.len() == right.len());
    assert forall|i: int| 0 <= i < left.len() implies #[trigger] left[i] == right[i] by {
        assert(one[i] == JsonModel::Number(left[i] as nat));
        assert(other[i] == JsonModel::Number(right[i] as nat));
    }
    assert(left =~= right);
}

/// The fields of the document that tells of the bundle.
spec fn snapshot_fields(metadata: NativeTypedChcObligationMetadata) -> Map<Seq<char>, JsonModel> {
    map![
        "schema"@ => JsonModel::Text("trust_mc.typed-chc-pdr-trust_ir-snapshot/v1"@),
        "producer"@ => JsonModel::Text(metadata.producer@),
        "adapter_input"@ => json::json_content(metadata.adapter_input),
        "source_digest"@ => json::json_content(metadata.source_digest),
        "trust_ir_module_digest"@ => json::json_content(metadata.trust_ir_module_digest),
        "lineage_manifest_digest"@ => json::json_content(metadata.lineage_manifest_digest),
        "compiler_facts_digest"@ => json::json_content(metadata.compiler_facts_digest),
        "replay_identity"@ => json::json_content(metadata.replay_identity),
        "replay_context"@ => json::json_content(metadata.replay_context),
        "native_request_id"@ => JsonModel::Number(metadata.native_request_id as nat),
        "function_id"@ => JsonModel::Number(metadata.function_id as nat),
        "proof_obligation_ids"@ => json::number_array(metadata.proof_obligation_ids@),
        "lineage_root_ids"@ => json::number_array(metadata.lineage_root_ids@),
    ]
}

proof fn lemma_snapshot_fields(metadata: NativeTypedChcObligationMetadata)
    ensures
        ({
            let fields = snapshot_fields(metadata);
            &&& fields["producer"@] == JsonModel::Text(metadata.producer@)
            &&& fields["adapter_input"@] == json::json_content(metadata.adapter_input)
            &&& fields["source_digest"@] == json::json_content(metadata.source_digest)
            &&& fields["trust_ir_module_digest"@] == json::json_content(
                metadata.trust_ir_module_digest,
            )
            &&& fields["lineage_manifest_digest"@] == json::json_content(
                metadata.lineage_manifest_digest,
            )
            &&& fields["compiler_facts_digest"@] == json::json_content(
                metadata.compiler_facts_digest,
            )
            &&& fields["replay_identity"@] == json::json_content(metadata.replay_identity)
            &&& fields["replay_context"@] == json::json_content(metadata.replay_context)
            &&& fields["native_request_id"@] == JsonModel::Number(metadata.native_request_id as nat)
            &&& fields["function_id"@] == JsonModel::Number(metadata.function_id as nat)
            &&& fields["proof_obligation_ids"@] == json::number_array(
                metadata.proof_obligation_ids@,
            )
            &&& fields["lineage_root_ids"@] == json::number_array(metadata.lineage_root_ids@)
        }),
{
    reveal_strlit("schema");
    reveal_strlit("producer");
    reveal_strlit("adapter_input");
    reveal_strlit("source_digest");
    reveal_strlit("trust_ir_module_digest");
    reveal_strlit("lineage_manifest_digest");
    reveal_strlit("compiler_facts_digest");
    reveal_strlit("replay_identity");
    reveal_strlit("replay_context");
    reveal_strlit("native_request_id");
    reveal_strlit("function_id");
    reveal_strlit("proof_obligation_ids");
    reveal_strlit("lineage_root_ids");
    assert("schema"@.len() == 6 && "producer"@.len() == 8 && "adapter_input"@.len() == 13
        && "source_digest"@.len() == 13 && "trust_ir_module_digest"@.len() == 22
        && "lineage_manifest_digest"@.len() == 23 && "compiler_facts_digest"@.len() == 21
        && "replay_identity"@.len() == 15 && "replay_context"@.len() == 14
        && "native_request_id"@.len() == 17 && "function_id"@.len() == 11
        && "proof_obligation_ids"@.len() == 20 && "lineage_root_ids"@.len() == 16);
    assert("adapter_input"@[0] == 'a' && "source_digest"@[0] == 's');
}

proof fn lemma_snapshots_told_apart(
    left: NativeTypedChcObligationMetadata,
    right: NativeTypedChcObligationMetadata,
)
    requires
        encodings_differ(),
        identity::snapshot_artifact(left) == identity::snapshot_artifact(right),
    ensures
        same_origin(left, right),
{
    let one = JsonModel::Object(snapshot_fields(left));
    let other = JsonModel::Object(snapshot_fields(right));
    assert(json::encoded_apart(one, other));
    lemma_snapshot_fields(left);
    lemma_snapshot_fields(right);
    lemma_number_arrays(left.proof_obligation_ids@, right.proof_obligation_ids@);
    lemma_number_arrays(left.lineage_root_ids@, right.lineage_root_ids@);
}

/// A cache key covers what a verdict depends on: where documents have encodings of
/// their own, two solves with the same parts have the same build and solver, the same
/// options and route, the same input and obligation digests, and come from the same
/// part of the same bundle, or both from none.
pub proof fn law_cache_keys_cover_the_solve(
    left_build: BuildIdentity,
    left: MirChcPdrObligation,
    left_options: ChcPdrSolveOptions,
    left_input: NativeTypedChcPdrNormalizedInput,
    left_parts: FullVerificationCacheKeyParts,
    right_build: BuildIdentity,
    right: MirChcPdrObligation,
    right_options: ChcPdrSolveOptions,
    right_input: NativeTypedChcPdrNormalizedInput,
    right_parts: FullVerificationCacheKeyParts,
)
    requires
        encodings_differ(),
        identity::covers(left_build, left, left_options, left_input, left_parts),
        identity::covers(right_build, right, right_options, right_input, right_parts),
        same_parts(left_parts, right_parts),
    ensures
        left_build.version@ == right_build.version@,
        left_build.commit@ == right_build.commit@,
        left_build.dirty == right_build.dirty,
        left_build.solver_version@ == right_build.solver_version@,
        left_options == right_options,
        left_input.route == right_input.route,
        left_input.normalized_input_hash@ == right_input.normalized_input_hash@,
        left_input.obligation_set_hash@ == right_input.obligation_set_hash@,
        match (left.native_metadata, right.native_metadata) {
            (Some(one), Some(other)) => same_origin(one, other),
            (one, other) => one is None && other is None,
        },
{
    lemma_solvers_told_apart(left_build.solver_version@, right_build.solver_version@);
    lemma_options_told_apart(left_options, left_input.route, right_options, right_input.route);
    if let (Some(one), Some(other)) = (left.native_metadata, right.native_metadata) {
        lemma_snapshots_told_apart(one, other);
    }
}

/// A solve runs under its own limit, or under two minutes where it sets none. The
/// watchdog grants two seconds more, as long as there are that many.
pub proof fn law_limits(options: ChcPdrSolveOptions)
    ensures
        options.timeout matches Some(timeout) ==> evidence::effective_timeout(options) == timeout,
        options.timeout is None ==> evidence::effective_timeout(options).secs == 120
            && evidence::effective_timeout(options).nanos == 0,
        ({
            let limit = evidence::effective_timeout(options);
            let ceiling = evidence::watchdog_limit(limit);
            &&& limit.secs <= u64::MAX - 2 ==> ceiling.secs == limit.secs + 2 && ceiling.nanos
                == limit.nanos
            &&& limit.secs > u64::MAX - 2 ==> ceiling.secs == u64::MAX && ceiling.nanos
                == 999_999_999
        }),
{
}

/// An obligation goes to the proof engine exactly where some rule derives its query
/// target.
pub proof fn law_routes(obligation: MirChcPdrObligation)
    ensures
        identity::route_of(obligation) == TypedChcPdrRoute::PdrProof <==> exists|i: int|
            0 <= i < obligation.vc.rules@.len() && (
            #[trigger] obligation.vc.rules@[i]).head.name@ == obligation.vc.query_target@,
{
}

/// Two cache keys with one artifact directory have the same value.
pub proof fn law_directories_tell_keys_apart(left: HashModel, right: HashModel)
    requires
        identity::artifact_directory_of(left) == identity::artifact_directory_of(right),
    ensures
        left.value == right.value,
{
    let root = "target/trust_mc/native/typed-chc-pdr/"@;
    reveal_with_fuel(text::concat, 3);
    assert(seq![root, left.value].drop_last() =~= seq![root]);
    assert(seq![root, right.value].drop_last() =~= seq![root]);
    assert(seq![root].drop_last() =~= Seq::empty());
    assert(identity::artifact_directory_of(left) =~= root + left.value);
    assert(identity::artifact_directory_of(right) =~= root + right.value);
    assert((root + left.value).skip(root.len() as int) =~= left.value);
    assert((root + right.value).skip(root.len() as int) =~= right.value);
}

} // verus!
