//! What holds of a pact that is written as a JSON document and of the
//! document that is read again: the parties, the interactions and their
//! order are those of the pact, and only the metadata are made anew.

use vstd::prelude::*;
use crate::bodies::{body_json, body_of_json, BodyModel};
use crate::collections::{keys_increasing, lemma_put, lemma_put_last, lookup, put, Entries};
use crate::content_types::{unknown_type, ContentTypeModel};
use crate::generator_laws::{generators_form, lemma_generators_round_trip};
use crate::generators::{
    generators_from, generators_members, no_generators, GeneratorModel, GeneratorsModel,
};
use crate::header_laws::{headers_form, lemma_headers_round_trip};
use crate::headers::{declared_type, header_members, headers_from, resolved_type, Headers};
use crate::interactions::{
    async_message_members, comments_of, http_key, http_members, key_of, message_content_members,
    message_key, metadata_type, request_response_members, request_response_of, type_of_text,
    type_text,
    v4_interaction_of, v4_interactions_of, v4_members, v4_metadata_of, written_key,
    AsynchronousMessageModel, RequestResponseModel, SynchronousHttpModel, V4InteractionType,
    V4Model,
};
use crate::json::{member, number_model, plain_text, JsonModel};
use crate::matchingrules::{matchers_from, matchers_json, no_rules, CategoryModel};
use crate::rule_laws::{lemma_matchers_round_trip, nested_form};
use crate::message::{description_of, id_of};
use crate::models::{
    method_of, nested_forms, part_members, party_members, party_name, path_of, query_json,
    query_members, query_of, query_value_members, query_values, request_members, request_of,
    response_members, response_of, status_of, strings_json, version_text, PactSpecification,
    RequestModel, ResponseModel,
};
use crate::pacts::{
    consumer_of, interactions_json, interactions_of, lemma_metadata_rewritten,
    lemma_v4_metadata_rewritten, library_version, metadata_members, pact_members,
    parsed_interactions, provider_of,
    request_response_pact_members, request_response_pact_of, stamped, v4_group_members,
    v4_interactions_json, v4_metadata, v4_pact_members, v4_pact_of, version_object,
    RequestResponsePactModel, V4PactModel,
};
use crate::provider_states::{
    single_state, state_members, state_of, states_json, states_of, StateModel,
};
use crate::text::{
    ascii_text, ascii_uppercase, lemma_decimal_reads_back, lemma_uppercase_twice, text_order,
    uppercase,
};
use crate::v4_parts::{
    v4_body_json, v4_body_of, v4_part_members, v4_query_of, v4_request_members, v4_request_of,
    v4_response_members, v4_response_of,
};

verus! {

/// The names of the members of a pact and of an interaction are all
/// different.
proof fn lemma_member_names()
    ensures
        "consumer"@ != "provider"@,
        "consumer"@ != "interactions"@,
        "consumer"@ != "metadata"@,
        "provider"@ != "interactions"@,
        "provider"@ != "metadata"@,
        "interactions"@ != "metadata"@,
        "description"@ != "request"@,
        "description"@ != "response"@,
        "description"@ != "providerStates"@,
        "description"@ != "providerState"@,
        "description"@ != "provider_state"@,
        "description"@ != "_id"@,
        "request"@ != "response"@,
        "request"@ != "providerStates"@,
        "request"@ != "providerState"@,
        "request"@ != "provider_state"@,
        "request"@ != "_id"@,
        "response"@ != "providerStates"@,
        "response"@ != "providerState"@,
        "response"@ != "provider_state"@,
        "response"@ != "_id"@,
        "providerStates"@ != "providerState"@,
        "providerStates"@ != "provider_state"@,
        "providerStates"@ != "_id"@,
        "providerState"@ != "provider_state"@,
        "providerState"@ != "_id"@,
        "name"@ != "params"@,
{
    reveal_strlit("consumer");
    reveal_strlit("provider");
    reveal_strlit("interactions");
    reveal_strlit("metadata");
    reveal_strlit("description");
    reveal_strlit("request");
    reveal_strlit("response");
    reveal_strlit("providerStates");
    reveal_strlit("providerState");
    reveal_strlit("provider_state");
    reveal_strlit("_id");
    reveal_strlit("name");
    reveal_strlit("params");
    assert("consumer"@.len() == 8 && "provider"@.len() == 8 && "metadata"@.len() == 8);
    assert("interactions"@.len() == 12 && "description"@.len() == 11);
    assert("request"@.len() == 7 && "response"@.len() == 8 && "_id"@.len() == 3);
    assert("providerStates"@.len() == 14 && "providerState"@.len() == 13);
    assert("provider_state"@.len() == 14 && "name"@.len() == 4 && "params"@.len() == 6);
    assert("consumer"@[0] == 'c' && "provider"@[0] == 'p' && "metadata"@[0] == 'm');
    assert("response"@[0] == 'r');
    assert("providerStates"@[8] == 'S' && "provider_state"@[8] == '_');
}

/// The document of a party gives the name of the party.
pub proof fn lemma_party_document(name: Seq<char>, fallback: Seq<char>)
    ensures
        party_name(JsonModel::Object(party_members(name)), fallback) == name,
{
    lemma_put(Seq::<(Seq<char>, JsonModel)>::empty(), "name"@, JsonModel::String(name));
}

/// In the document of a pact the parties are read as they were written,
/// and the interactions and the metadata stand under their names.
pub proof fn lemma_pact_document(
    consumer: Seq<char>,
    provider: Seq<char>,
    interactions: Seq<JsonModel>,
    metadata: Entries<JsonModel>,
)
    ensures
        ({
            let k = JsonModel::Object(
                pact_members(consumer, provider, "interactions"@, interactions, metadata),
            );
            &&& consumer_of(k) == consumer
            &&& provider_of(k) == provider
            &&& member(k, "interactions"@) == Some(JsonModel::Array(interactions))
            &&& member(k, "metadata"@) == Some(JsonModel::Object(metadata))
        }),
{
    lemma_member_names();
    let m0 = Seq::<(Seq<char>, JsonModel)>::empty();
    let m1 = put(m0, "consumer"@, JsonModel::Object(party_members(consumer)));
    let m2 = put(m1, "provider"@, JsonModel::Object(party_members(provider)));
    let m3 = put(m2, "interactions"@, JsonModel::Array(interactions));
    lemma_put(m0, "consumer"@, JsonModel::Object(party_members(consumer)));
    lemma_put(m1, "provider"@, JsonModel::Object(party_members(provider)));
    lemma_put(m2, "interactions"@, JsonModel::Array(interactions));
    lemma_put(m3, "metadata"@, JsonModel::Object(metadata));
    lemma_party_document(consumer, "consumer"@);
    lemma_party_document(provider, "provider"@);
}

/// The document of a provider state gives the state.
pub proof fn lemma_state_document(s: StateModel)
    ensures
        state_of(JsonModel::Object(state_members(s))) == s,
{
    lemma_member_names();
    let m0 = Seq::<(Seq<char>, JsonModel)>::empty();
    let m1 = put(m0, "name"@, JsonModel::String(s.name));
    lemma_put(m0, "name"@, JsonModel::String(s.name));
    lemma_put(m1, "params"@, JsonModel::Object(s.params));
    if s.params.len() == 0 {
        assert(s.params =~= Seq::<(Seq<char>, JsonModel)>::empty());
    }
}

/// What is read of the provider states that an interaction was written
/// with for the version `spec`: all of them for version 3; for an earlier
/// version the first one by its name alone, which is all that such a
/// version writes.
pub open spec fn states_kept(states: Seq<StateModel>, spec: PactSpecification) -> Seq<StateModel> {
    if spec is V3 || states.len() == 0 {
        states
    } else {
        single_state(JsonModel::String(states[0].name))
    }
}

/// In the document of an interaction of versions 1 to 3 the description is
/// read as it was written, and so are the provider states as far as the
/// version writes them; the request and the response stand under their
/// names; and the identifier, which is not written, is not read.
pub proof fn lemma_interaction_document(
    i: RequestResponseModel,
    spec: PactSpecification,
    index: usize,
)
    ensures
        ({
            let k = JsonModel::Object(request_response_members(i, spec));
            &&& description_of(k, "Interaction"@, index) == i.description
            &&& states_of(k) == states_kept(i.provider_states, spec)
            &&& member(k, "request"@) == Some(
                JsonModel::Object(request_members(i.request, spec)),
            )
            &&& member(k, "response"@) == Some(
                JsonModel::Object(response_members(i.response, spec)),
            )
            &&& id_of(k) is None
        }),
{
    lemma_member_names();
    let m0 = Seq::<(Seq<char>, JsonModel)>::empty();
    let m1 = put(m0, "description"@, JsonModel::String(i.description));
    let m2 = put(m1, "request"@, JsonModel::Object(request_members(i.request, spec)));
    let m3 = put(m2, "response"@, JsonModel::Object(response_members(i.response, spec)));
    lemma_put(m0, "description"@, JsonModel::String(i.description));
    lemma_put(m1, "request"@, JsonModel::Object(request_members(i.request, spec)));
    lemma_put(m2, "response"@, JsonModel::Object(response_members(i.response, spec)));
    let k = JsonModel::Object(request_response_members(i, spec));
    if i.provider_states.len() > 0 {
        if spec is V3 {
            let items = states_json(i.provider_states);
            lemma_put(m3, "providerStates"@, JsonModel::Array(items));
            assert forall|n: int| 0 <= n < items.len() implies state_of(#[trigger] items[n])
                == i.provider_states[n] by {
                lemma_state_document(i.provider_states[n]);
            }
            assert(states_of(k) =~= i.provider_states);
        } else {
            lemma_put(m3, "providerState"@, JsonModel::String(i.provider_states[0].name));
        }
    } else {
        assert(states_of(k) =~= i.provider_states);
    }
}

/// The entries `m` with `v` under the key `k` where `wanted` holds, else
/// as they are.
spec fn put_where(
    wanted: bool,
    m: Entries<JsonModel>,
    k: Seq<char>,
    v: JsonModel,
) -> Entries<JsonModel> {
    if wanted {
        put(m, k, v)
    } else {
        m
    }
}

/// Putting a value where it is wanted leaves the keys increasing; every
/// lookup of its key then finds it where it was wanted, and every other
/// lookup what it found before.
proof fn lemma_put_where(wanted: bool, m: Entries<JsonModel>, k: Seq<char>, v: JsonModel)
    requires
        keys_increasing(m),
    ensures
        keys_increasing(put_where(wanted, m, k, v)),
        forall|other: Seq<char>|
            #[trigger] lookup(put_where(wanted, m, k, v), other) == if wanted && other == k {
                Some(v)
            } else {
                lookup(m, other)
            },
{
    if wanted {
        lemma_put(m, k, v);
    }
}

/// The names of the members of a request and of a response are all
/// different.
proof fn lemma_part_names()
    ensures
        "method"@ != "path"@,
        "method"@ != "query"@,
        "method"@ != "headers"@,
        "method"@ != "body"@,
        "method"@ != "matchingRules"@,
        "method"@ != "generators"@,
        "path"@ != "query"@,
        "path"@ != "headers"@,
        "path"@ != "body"@,
        "path"@ != "matchingRules"@,
        "path"@ != "generators"@,
        "status"@ != "headers"@,
        "status"@ != "body"@,
        "status"@ != "matchingRules"@,
        "status"@ != "generators"@,
        "query"@ != "headers"@,
        "query"@ != "body"@,
        "query"@ != "matchingRules"@,
        "query"@ != "generators"@,
        "body"@ != "headers"@,
        "body"@ != "matchingRules"@,
        "body"@ != "generators"@,
        "body"@ != "query"@,
        "body"@ != "method"@,
        "body"@ != "path"@,
        "body"@ != "status"@,
        "content"@ != "contentType"@,
        "content"@ != "encoded"@,
        "matchingRules"@ != "generators"@,
        "headers"@ != "method"@,
        "headers"@ != "path"@,
        "headers"@ != "status"@,
        "generators"@ != "method"@,
        "generators"@ != "path"@,
        "generators"@ != "query"@,
        "generators"@ != "status"@,
        "generators"@ != "headers"@,
        "matchingRules"@ != "method"@,
        "matchingRules"@ != "path"@,
        "matchingRules"@ != "query"@,
        "matchingRules"@ != "status"@,
        "matchingRules"@ != "headers"@,
        "requestMatchingRules"@ != "method"@,
        "requestMatchingRules"@ != "path"@,
        "requestMatchingRules"@ != "query"@,
        "requestMatchingRules"@ != "headers"@,
        "requestMatchingRules"@ != "body"@,
        "requestMatchingRules"@ != "matchingRules"@,
        "requestMatchingRules"@ != "generators"@,
        "responseMatchingRules"@ != "status"@,
        "responseMatchingRules"@ != "headers"@,
        "responseMatchingRules"@ != "body"@,
        "responseMatchingRules"@ != "matchingRules"@,
        "responseMatchingRules"@ != "generators"@,
{
    reveal_strlit("requestMatchingRules");
    reveal_strlit("responseMatchingRules");
    assert("requestMatchingRules"@.len() == 20 && "responseMatchingRules"@.len() == 21);
    reveal_strlit("content");
    reveal_strlit("contentType");
    reveal_strlit("encoded");
    assert("content"@.len() == 7 && "contentType"@.len() == 11 && "encoded"@.len() == 7);
    assert("content"@[0] == 'c' && "encoded"@[0] == 'e');
    reveal_strlit("method");
    reveal_strlit("path");
    reveal_strlit("query");
    reveal_strlit("status");
    reveal_strlit("headers");
    reveal_strlit("body");
    reveal_strlit("matchingRules");
    reveal_strlit("generators");
    assert("method"@.len() == 6 && "path"@.len() == 4 && "query"@.len() == 5);
    assert("status"@.len() == 6 && "headers"@.len() == 7 && "body"@.len() == 4);
    assert("matchingRules"@.len() == 13 && "generators"@.len() == 10);
    assert("path"@[0] == 'p' && "body"@[0] == 'b');
}

/// The members that a request and a response share leave every member of
/// another name as it was.
proof fn lemma_part_members(
    base: Entries<JsonModel>,
    headers: Headers,
    body: BodyModel,
    matching_rules: Entries<CategoryModel>,
    generators: GeneratorsModel,
    spec: PactSpecification,
    name: Seq<char>,
)
    requires
        keys_increasing(base),
        name != "headers"@,
        name != "body"@,
        name != "matchingRules"@,
        name != "generators"@,
    ensures
        lookup(part_members(base, headers, body, matching_rules, generators, spec), name)
            == lookup(base, name),
{
    let h = match headers {
        Some(h) => JsonModel::Object(header_members(h)),
        None => JsonModel::Null,
    };
    let m1 = put_where(headers is Some, base, "headers"@, h);
    lemma_put_where(headers is Some, base, "headers"@, h);
    let resolved = match resolved_type(body, headers) {
        Some(c) => c,
        None => unknown_type(),
    };
    let b = match body_json(body, resolved) {
        Some(b) => b,
        None => JsonModel::Null,
    };
    let m2 = put_where(body_json(body, resolved) is Some, m1, "body"@, b);
    lemma_put_where(body_json(body, resolved) is Some, m1, "body"@, b);
    let rules = matchers_json(matching_rules, nested_forms(spec));
    let m3 = put_where(!no_rules(matching_rules), m2, "matchingRules"@, rules);
    lemma_put_where(!no_rules(matching_rules), m2, "matchingRules"@, rules);
    let written = JsonModel::Object(generators_members(generators));
    let m4 = put_where(!no_generators(generators), m3, "generators"@, written);
    lemma_put_where(!no_generators(generators), m3, "generators"@, written);
    assert(m4 == part_members(base, headers, body, matching_rules, generators, spec));
}

/// The members that a request and a response share in version 4 leave
/// every member of another name as it was.
proof fn lemma_v4_part_members(
    base: Entries<JsonModel>,
    headers: Headers,
    body: BodyModel,
    matching_rules: Entries<CategoryModel>,
    generators: GeneratorsModel,
    name: Seq<char>,
)
    requires
        keys_increasing(base),
        name != "headers"@,
        name != "body"@,
        name != "matchingRules"@,
        name != "generators"@,
    ensures
        lookup(v4_part_members(base, headers, body, matching_rules, generators), name) == lookup(
            base,
            name,
        ),
{
    let h = match headers {
        Some(h) => JsonModel::Object(header_members(h)),
        None => JsonModel::Null,
    };
    let m1 = put_where(headers is Some, base, "headers"@, h);
    lemma_put_where(headers is Some, base, "headers"@, h);
    let m2 = put_where(!(body is Missing), m1, "body"@, v4_body_json(body));
    lemma_put_where(!(body is Missing), m1, "body"@, v4_body_json(body));
    let rules = matchers_json(matching_rules, true);
    let m3 = put_where(!no_rules(matching_rules), m2, "matchingRules"@, rules);
    lemma_put_where(!no_rules(matching_rules), m2, "matchingRules"@, rules);
    let written = JsonModel::Object(generators_members(generators));
    let m4 = put_where(!no_generators(generators), m3, "generators"@, written);
    lemma_put_where(!no_generators(generators), m3, "generators"@, written);
    assert(m4 == v4_part_members(base, headers, body, matching_rules, generators));
}

/// Among the members that a request and a response share in version 4,
/// the body stands under its name unless it is missing.
proof fn lemma_v4_part_body(
    base: Entries<JsonModel>,
    headers: Headers,
    body: BodyModel,
    matching_rules: Entries<CategoryModel>,
    generators: GeneratorsModel,
)
    requires
        keys_increasing(base),
        lookup(base, "body"@) is None,
    ensures
        lookup(v4_part_members(base, headers, body, matching_rules, generators), "body"@) == if body is Missing {
            None
        } else {
            Some(v4_body_json(body))
        },
{
    lemma_part_names();
    let h = match headers {
        Some(h) => JsonModel::Object(header_members(h)),
        None => JsonModel::Null,
    };
    let m1 = put_where(headers is Some, base, "headers"@, h);
    lemma_put_where(headers is Some, base, "headers"@, h);
    let m2 = put_where(!(body is Missing), m1, "body"@, v4_body_json(body));
    lemma_put_where(!(body is Missing), m1, "body"@, v4_body_json(body));
    let rules = matchers_json(matching_rules, true);
    let m3 = put_where(!no_rules(matching_rules), m2, "matchingRules"@, rules);
    lemma_put_where(!no_rules(matching_rules), m2, "matchingRules"@, rules);
    let written = JsonModel::Object(generators_members(generators));
    let m4 = put_where(!no_generators(generators), m3, "generators"@, written);
    lemma_put_where(!no_generators(generators), m3, "generators"@, written);
    assert(m4 == v4_part_members(base, headers, body, matching_rules, generators));
}

/// Among the members that a request and a response share, a body that is
/// missing, null or empty is read as it was written, whatever content type
/// is declared for it.
proof fn lemma_part_body(
    base: Entries<JsonModel>,
    headers: Headers,
    body: BodyModel,
    matching_rules: Entries<CategoryModel>,
    generators: GeneratorsModel,
    spec: PactSpecification,
    declared: Option<ContentTypeModel>,
)
    requires
        keys_increasing(base),
        lookup(base, "body"@) is None,
        !(body is Present),
    ensures
        body_of_json(
            lookup(part_members(base, headers, body, matching_rules, generators, spec), "body"@),
            declared,
        ) == body,
{
    lemma_part_names();
    let h = match headers {
        Some(h) => JsonModel::Object(header_members(h)),
        None => JsonModel::Null,
    };
    let m1 = put_where(headers is Some, base, "headers"@, h);
    lemma_put_where(headers is Some, base, "headers"@, h);
    let resolved = match resolved_type(body, headers) {
        Some(c) => c,
        None => unknown_type(),
    };
    let b = match body_json(body, resolved) {
        Some(b) => b,
        None => JsonModel::Null,
    };
    let m2 = put_where(body_json(body, resolved) is Some, m1, "body"@, b);
    lemma_put_where(body_json(body, resolved) is Some, m1, "body"@, b);
    let rules = matchers_json(matching_rules, nested_forms(spec));
    let m3 = put_where(!no_rules(matching_rules), m2, "matchingRules"@, rules);
    lemma_put_where(!no_rules(matching_rules), m2, "matchingRules"@, rules);
    let written = JsonModel::Object(generators_members(generators));
    let m4 = put_where(!no_generators(generators), m3, "generators"@, written);
    lemma_put_where(!no_generators(generators), m3, "generators"@, written);
    assert(m4 == part_members(base, headers, body, matching_rules, generators, spec));
    assert(Seq::<char>::empty().len() == 0);
}

/// In the document of a request or of a response of the versions 1 to 3 a
/// body that is missing, null or empty is read as it was written: the
/// three stay distinct.
pub proof fn lemma_body_document(
    request: RequestModel,
    response: ResponseModel,
    spec: PactSpecification,
    declared: Option<ContentTypeModel>,
)
    ensures
        !(request.body is Present) ==> body_of_json(
            member(JsonModel::Object(request_members(request, spec)), "body"@),
            declared,
        ) == request.body,
        !(response.body is Present) ==> body_of_json(
            member(JsonModel::Object(response_members(response, spec)), "body"@),
            declared,
        ) == response.body,
{
    lemma_part_names();
    let m0 = Seq::<(Seq<char>, JsonModel)>::empty();
    if !(request.body is Present) {
        let m1 = put(m0, "method"@, JsonModel::String(uppercase(request.method)));
        let m2 = put(m1, "path"@, JsonModel::String(request.path));
        lemma_put(m0, "method"@, JsonModel::String(uppercase(request.method)));
        lemma_put(m1, "path"@, JsonModel::String(request.path));
        let q = match request.query {
            Some(q) => query_json(q, spec),
            None => JsonModel::Null,
        };
        let m3 = put_where(request.query is Some, m2, "query"@, q);
        lemma_put_where(request.query is Some, m2, "query"@, q);
        lemma_part_body(
            m3,
            request.headers,
            request.body,
            request.matching_rules,
            request.generators,
            spec,
            declared,
        );
    }
    if !(response.body is Present) {
        let n1 = put(m0, "status"@, number_model(response.status as nat));
        lemma_put(m0, "status"@, number_model(response.status as nat));
        lemma_part_body(
            n1,
            response.headers,
            response.body,
            response.matching_rules,
            response.generators,
            spec,
            declared,
        );
    }
}

/// A body that is null or empty is read from what version 4 writes for it
/// as it was, whatever content type is declared for it.
pub proof fn lemma_v4_body_reads_back(body: BodyModel, declared: Option<ContentTypeModel>)
    requires
        body is Null || body is Empty,
    ensures
        v4_body_of(Some(v4_body_json(body)), declared) == body,
{
    lemma_part_names();
    if body is Empty {
        let nothing = Seq::<char>::empty();
        lemma_put(Seq::<(Seq<char>, JsonModel)>::empty(), "content"@, JsonModel::String(nothing));
        assert(vstd::utf8::encode_utf8(nothing) =~= Seq::<u8>::empty());
    }
}

/// In the document of a request or of a response of version 4 a body that
/// is missing, null or empty is read as it was written: the three stay
/// distinct.
pub proof fn lemma_v4_body_document(
    request: RequestModel,
    response: ResponseModel,
    declared: Option<ContentTypeModel>,
)
    ensures
        !(request.body is Present) ==> v4_body_of(
            member(JsonModel::Object(v4_request_members(request)), "body"@),
            declared,
        ) == request.body,
        !(response.body is Present) ==> v4_body_of(
            member(JsonModel::Object(v4_response_members(response)), "body"@),
            declared,
        ) == response.body,
{
    lemma_part_names();
    let m0 = Seq::<(Seq<char>, JsonModel)>::empty();
    if !(request.body is Present) {
        let m1 = put(m0, "method"@, JsonModel::String(uppercase(request.method)));
        let m2 = put(m1, "path"@, JsonModel::String(request.path));
        lemma_put(m0, "method"@, JsonModel::String(uppercase(request.method)));
        lemma_put(m1, "path"@, JsonModel::String(request.path));
        let q = match request.query {
            Some(q) => JsonModel::Object(query_value_members(q)),
            None => JsonModel::Null,
        };
        let m3 = put_where(request.query is Some, m2, "query"@, q);
        lemma_put_where(request.query is Some, m2, "query"@, q);
        lemma_v4_part_body(
            m3,
            request.headers,
            request.body,
            request.matching_rules,
            request.generators,
        );
        if !(request.body is Missing) {
            lemma_v4_body_reads_back(request.body, declared);
        }
    }
    if !(response.body is Present) {
        let n1 = put(m0, "status"@, number_model(response.status as nat));
        lemma_put(m0, "status"@, number_model(response.status as nat));
        lemma_v4_part_body(
            n1,
            response.headers,
            response.body,
            response.matching_rules,
            response.generators,
        );
        if !(response.body is Missing) {
            lemma_v4_body_reads_back(response.body, declared);
        }
    }
}

/// Among the members that a request and a response share, the matching
/// rules stand under their name where there are any, for the versions 1 to
/// 3 and for version 4.
proof fn lemma_part_rules(
    base: Entries<JsonModel>,
    headers: Headers,
    body: BodyModel,
    matching_rules: Entries<CategoryModel>,
    generators: GeneratorsModel,
    spec: PactSpecification,
)
    requires
        keys_increasing(base),
        lookup(base, "matchingRules"@) is None,
    ensures
        lookup(
            part_members(base, headers, body, matching_rules, generators, spec),
            "matchingRules"@,
        ) == if no_rules(matching_rules) {
            None
        } else {
            Some(matchers_json(matching_rules, nested_forms(spec)))
        },
        lookup(v4_part_members(base, headers, body, matching_rules, generators), "matchingRules"@)
            == if no_rules(matching_rules) {
            None
        } else {
            Some(matchers_json(matching_rules, true))
        },
{
    lemma_part_names();
    let h = match headers {
        Some(h) => JsonModel::Object(header_members(h)),
        None => JsonModel::Null,
    };
    let m1 = put_where(headers is Some, base, "headers"@, h);
    lemma_put_where(headers is Some, base, "headers"@, h);
    let written = JsonModel::Object(generators_members(generators));
    {
        let resolved = match resolved_type(body, headers) {
            Some(c) => c,
            None => unknown_type(),
        };
        let b = match body_json(body, resolved) {
            Some(b) => b,
            None => JsonModel::Null,
        };
        let m2 = put_where(body_json(body, resolved) is Some, m1, "body"@, b);
        lemma_put_where(body_json(body, resolved) is Some, m1, "body"@, b);
        let rules = matchers_json(matching_rules, nested_forms(spec));
        let m3 = put_where(!no_rules(matching_rules), m2, "matchingRules"@, rules);
        lemma_put_where(!no_rules(matching_rules), m2, "matchingRules"@, rules);
        let m4 = put_where(!no_generators(generators), m3, "generators"@, written);
        lemma_put_where(!no_generators(generators), m3, "generators"@, written);
        assert(m4 == part_members(base, headers, body, matching_rules, generators, spec));
    }
    {
        let m2 = put_where(!(body is Missing), m1, "body"@, v4_body_json(body));
        lemma_put_where(!(body is Missing), m1, "body"@, v4_body_json(body));
        let rules = matchers_json(matching_rules, true);
        let m3 = put_where(!no_rules(matching_rules), m2, "matchingRules"@, rules);
        lemma_put_where(!no_rules(matching_rules), m2, "matchingRules"@, rules);
        let m4 = put_where(!no_generators(generators), m3, "generators"@, written);
        lemma_put_where(!no_generators(generators), m3, "generators"@, written);
        assert(m4 == v4_part_members(base, headers, body, matching_rules, generators));
    }
}

/// Whether matching rules are read back as they were written in the
/// nested form: they are in the form that is written without loss, and
/// some category has rules unless there is no category at all, since
/// matching rules without rules are not written.
pub open spec fn rules_kept(cats: Entries<CategoryModel>) -> bool {
    nested_form(cats) && (no_rules(cats) ==> cats.len() == 0)
}

/// In the document of a request or of a response of version 3 or of
/// version 4, matching rules that are kept are read as they were written.
pub proof fn lemma_rules_document(request: RequestModel, response: ResponseModel)
    ensures
        rules_kept(request.matching_rules) ==> matchers_from(
            JsonModel::Object(request_members(request, PactSpecification::V3)),
            Some("requestMatchingRules"@),
        ) == Ok::<Entries<CategoryModel>, Seq<char>>(request.matching_rules) && matchers_from(
            JsonModel::Object(v4_request_members(request)),
            None,
        ) == Ok::<Entries<CategoryModel>, Seq<char>>(request.matching_rules),
        rules_kept(response.matching_rules) ==> matchers_from(
            JsonModel::Object(response_members(response, PactSpecification::V3)),
            Some("responseMatchingRules"@),
        ) == Ok::<Entries<CategoryModel>, Seq<char>>(response.matching_rules) && matchers_from(
            JsonModel::Object(v4_response_members(response)),
            None,
        ) == Ok::<Entries<CategoryModel>, Seq<char>>(response.matching_rules),
{
    lemma_part_names();
    let spec = PactSpecification::V3;
    let m0 = Seq::<(Seq<char>, JsonModel)>::empty();
    if rules_kept(request.matching_rules) {
        let r = request;
        let m1 = put(m0, "method"@, JsonModel::String(uppercase(r.method)));
        let m2 = put(m1, "path"@, JsonModel::String(r.path));
        lemma_put(m0, "method"@, JsonModel::String(uppercase(r.method)));
        lemma_put(m1, "path"@, JsonModel::String(r.path));
        let v = match r.query {
            Some(q) => JsonModel::Object(query_value_members(q)),
            None => JsonModel::Null,
        };
        let m3 = put_where(r.query is Some, m2, "query"@, v);
        lemma_put_where(r.query is Some, m2, "query"@, v);
        lemma_part_rules(m3, r.headers, r.body, r.matching_rules, r.generators, spec);
        lemma_part_members(
            m3,
            r.headers,
            r.body,
            r.matching_rules,
            r.generators,
            spec,
            "requestMatchingRules"@,
        );
        let k = JsonModel::Object(request_members(r, spec));
        let k4 = JsonModel::Object(v4_request_members(r));
        if no_rules(r.matching_rules) {
            assert(r.matching_rules =~= Seq::<(Seq<char>, CategoryModel)>::empty());
        } else {
            lemma_matchers_round_trip(r.matching_rules, k, Some("requestMatchingRules"@));
            lemma_matchers_round_trip(r.matching_rules, k4, None);
        }
    }
    if rules_kept(response.matching_rules) {
        let r = response;
        let n1 = put(m0, "status"@, number_model(r.status as nat));
        lemma_put(m0, "status"@, number_model(r.status as nat));
        lemma_part_rules(n1, r.headers, r.body, r.matching_rules, r.generators, spec);
        lemma_part_members(
            n1,
            r.headers,
            r.body,
            r.matching_rules,
            r.generators,
            spec,
            "responseMatchingRules"@,
        );
        let k = JsonModel::Object(response_members(r, spec));
        let k4 = JsonModel::Object(v4_response_members(r));
        if no_rules(r.matching_rules) {
            assert(r.matching_rules =~= Seq::<(Seq<char>, CategoryModel)>::empty());
        } else {
            lemma_matchers_round_trip(r.matching_rules, k, Some("responseMatchingRules"@));
            lemma_matchers_round_trip(r.matching_rules, k4, None);
        }
    }
}

/// Among the members that a request and a response share, the generators
/// stand under their name where there are any, for the versions 1 to 3
/// and for version 4.
proof fn lemma_part_generators(
    base: Entries<JsonModel>,
    headers: Headers,
    body: BodyModel,
    matching_rules: Entries<CategoryModel>,
    generators: GeneratorsModel,
    spec: PactSpecification,
)
    requires
        keys_increasing(base),
        lookup(base, "generators"@) is None,
    ensures
        lookup(
            part_members(base, headers, body, matching_rules, generators, spec),
            "generators"@,
        ) == if no_generators(generators) {
            None
        } else {
            Some(JsonModel::Object(generators_members(generators)))
        },
        lookup(v4_part_members(base, headers, body, matching_rules, generators), "generators"@)
            == if no_generators(generators) {
            None
        } else {
            Some(JsonModel::Object(generators_members(generators)))
        },
{
    lemma_part_names();
    let h = match headers {
        Some(h) => JsonModel::Object(header_members(h)),
        None => JsonModel::Null,
    };
    let m1 = put_where(headers is Some, base, "headers"@, h);
    lemma_put_where(headers is Some, base, "headers"@, h);
    let written = JsonModel::Object(generators_members(generators));
    {
        let resolved = match resolved_type(body, headers) {
            Some(c) => c,
            None => unknown_type(),
        };
        let b = match body_json(body, resolved) {
            Some(b) => b,
            None => JsonModel::Null,
        };
        let m2 = put_where(body_json(body, resolved) is Some, m1, "body"@, b);
        lemma_put_where(body_json(body, resolved) is Some, m1, "body"@, b);
        let rules = matchers_json(matching_rules, nested_forms(spec));
        let m3 = put_where(!no_rules(matching_rules), m2, "matchingRules"@, rules);
        lemma_put_where(!no_rules(matching_rules), m2, "matchingRules"@, rules);
        let m4 = put_where(!no_generators(generators), m3, "generators"@, written);
        lemma_put_where(!no_generators(generators), m3, "generators"@, written);
        assert(m4 == part_members(base, headers, body, matching_rules, generators, spec));
    }
    {
        let m2 = put_where(!(body is Missing), m1, "body"@, v4_body_json(body));
        lemma_put_where(!(body is Missing), m1, "body"@, v4_body_json(body));
        let rules = matchers_json(matching_rules, true);
        let m3 = put_where(!no_rules(matching_rules), m2, "matchingRules"@, rules);
        lemma_put_where(!no_rules(matching_rules), m2, "matchingRules"@, rules);
        let m4 = put_where(!no_generators(generators), m3, "generators"@, written);
        lemma_put_where(!no_generators(generators), m3, "generators"@, written);
        assert(m4 == v4_part_members(base, headers, body, matching_rules, generators));
    }
}

/// Whether generators are read back as they were written: they are in the
/// form that is written without loss, and some category has a generator
/// unless there is no category at all, since generators without a
/// generator are not written.
pub open spec fn generators_kept(cats: GeneratorsModel) -> bool {
    generators_form(cats) && (no_generators(cats) ==> cats.len() == 0)
}

/// In the document of a request or of a response, of any version,
/// generators that are kept are read as they were written.
pub proof fn lemma_generators_document(
    request: RequestModel,
    response: ResponseModel,
    spec: PactSpecification,
)
    ensures
        generators_kept(request.generators) ==> generators_from(
            JsonModel::Object(request_members(request, spec)),
        ) == Ok::<GeneratorsModel, Seq<char>>(request.generators) && generators_from(
            JsonModel::Object(v4_request_members(request)),
        ) == Ok::<GeneratorsModel, Seq<char>>(request.generators),
        generators_kept(response.generators) ==> generators_from(
            JsonModel::Object(response_members(response, spec)),
        ) == Ok::<GeneratorsModel, Seq<char>>(response.generators) && generators_from(
            JsonModel::Object(v4_response_members(response)),
        ) == Ok::<GeneratorsModel, Seq<char>>(response.generators),
{
    lemma_part_names();
    let m0 = Seq::<(Seq<char>, JsonModel)>::empty();
    if generators_kept(request.generators) {
        let r = request;
        let m1 = put(m0, "method"@, JsonModel::String(uppercase(r.method)));
        let m2 = put(m1, "path"@, JsonModel::String(r.path));
        lemma_put(m0, "method"@, JsonModel::String(uppercase(r.method)));
        lemma_put(m1, "path"@, JsonModel::String(r.path));
        let q = match r.query {
            Some(q) => query_json(q, spec),
            None => JsonModel::Null,
        };
        let m3 = put_where(r.query is Some, m2, "query"@, q);
        lemma_put_where(r.query is Some, m2, "query"@, q);
        lemma_part_generators(m3, r.headers, r.body, r.matching_rules, r.generators, spec);
        let v = match r.query {
            Some(q) => JsonModel::Object(query_value_members(q)),
            None => JsonModel::Null,
        };
        let n3 = put_where(r.query is Some, m2, "query"@, v);
        lemma_put_where(r.query is Some, m2, "query"@, v);
        lemma_part_generators(n3, r.headers, r.body, r.matching_rules, r.generators, spec);
        if no_generators(r.generators) {
            assert(r.generators =~= Seq::<(Seq<char>, Entries<GeneratorModel>)>::empty());
        } else {
            lemma_generators_round_trip(
                r.generators,
                JsonModel::Object(request_members(r, spec)),
            );
            lemma_generators_round_trip(r.generators, JsonModel::Object(v4_request_members(r)));
        }
    }
    if generators_kept(response.generators) {
        let r = response;
        let n1 = put(m0, "status"@, number_model(r.status as nat));
        lemma_put(m0, "status"@, number_model(r.status as nat));
        lemma_part_generators(n1, r.headers, r.body, r.matching_rules, r.generators, spec);
        if no_generators(r.generators) {
            assert(r.generators =~= Seq::<(Seq<char>, Entries<GeneratorModel>)>::empty());
        } else {
            lemma_generators_round_trip(
                r.generators,
                JsonModel::Object(response_members(r, spec)),
            );
            lemma_generators_round_trip(r.generators, JsonModel::Object(v4_response_members(r)));
        }
    }
}

/// In the document of a request the path is read as it was written, and
/// the method is read as the upper case of what was written for it, which
/// is the method in upper case: a method of ASCII is read in upper case.
/// This holds for the versions 1 to 3 and for version 4.
pub proof fn lemma_request_document(r: RequestModel, spec: PactSpecification)
    ensures
        path_of(JsonModel::Object(request_members(r, spec))) == r.path,
        method_of(JsonModel::Object(request_members(r, spec))) == uppercase(uppercase(r.method)),
        path_of(JsonModel::Object(v4_request_members(r))) == r.path,
        method_of(JsonModel::Object(v4_request_members(r))) == uppercase(uppercase(r.method)),
        ascii_text(r.method) ==> uppercase(uppercase(r.method)) == uppercase(r.method),
{
    if ascii_text(r.method) {
        lemma_uppercase_twice(r.method);
    }
    lemma_part_names();
    let m0 = Seq::<(Seq<char>, JsonModel)>::empty();
    let m1 = put(m0, "method"@, JsonModel::String(uppercase(r.method)));
    let m2 = put(m1, "path"@, JsonModel::String(r.path));
    lemma_put(m0, "method"@, JsonModel::String(uppercase(r.method)));
    lemma_put(m1, "path"@, JsonModel::String(r.path));
    let q = match r.query {
        Some(q) => query_json(q, spec),
        None => JsonModel::Null,
    };
    let m3 = put_where(r.query is Some, m2, "query"@, q);
    lemma_put_where(r.query is Some, m2, "query"@, q);
    lemma_part_members(m3, r.headers, r.body, r.matching_rules, r.generators, spec, "path"@);
    lemma_part_members(m3, r.headers, r.body, r.matching_rules, r.generators, spec, "method"@);
    let v = match r.query {
        Some(q) => JsonModel::Object(query_value_members(q)),
        None => JsonModel::Null,
    };
    let n3 = put_where(r.query is Some, m2, "query"@, v);
    lemma_put_where(r.query is Some, m2, "query"@, v);
    lemma_v4_part_members(n3, r.headers, r.body, r.matching_rules, r.generators, "path"@);
    lemma_v4_part_members(n3, r.headers, r.body, r.matching_rules, r.generators, "method"@);
}

/// In the document of a response the status is read as it was written,
/// for the versions 1 to 3 and for version 4.
pub proof fn lemma_response_document(r: ResponseModel, spec: PactSpecification)
    ensures
        status_of(JsonModel::Object(response_members(r, spec))) == Some(r.status),
        status_of(JsonModel::Object(v4_response_members(r))) == Some(r.status),
{
    lemma_part_names();
    lemma_decimal_reads_back(r.status as nat);
    let m0 = Seq::<(Seq<char>, JsonModel)>::empty();
    let m1 = put(m0, "status"@, number_model(r.status as nat));
    lemma_put(m0, "status"@, number_model(r.status as nat));
    lemma_part_members(m1, r.headers, r.body, r.matching_rules, r.generators, spec, "status"@);
    lemma_v4_part_members(m1, r.headers, r.body, r.matching_rules, r.generators, "status"@);
}

/// The parameters of a query as the object form writes them: each name
/// with the array of its values.
pub open spec fn written_query(q: Entries<Seq<Seq<char>>>) -> Entries<JsonModel> {
    Seq::new(q.len(), |i: int| (q[i].0, JsonModel::Array(strings_json(q[i].1))))
}

/// The parameters of a query with increasing names are written in the
/// object form one for one, in their order, and are read from it as they
/// were written.
pub proof fn lemma_query_members(q: Entries<Seq<Seq<char>>>)
    requires
        keys_increasing(q),
    ensures
        query_value_members(q) == written_query(q),
        query_members(written_query(q)) == q,
    decreases q.len(),
{
    if q.len() == 0 {
        assert(written_query(q) =~= Seq::<(Seq<char>, JsonModel)>::empty());
        assert(q =~= Seq::<(Seq<char>, Seq<Seq<char>>)>::empty());
    } else {
        let init = q.drop_last();
        let last = q.last();
        assert forall|i: int, j: int| 0 <= i < j < init.len() implies text_order(
            #[trigger] init[i].0,
            #[trigger] init[j].0,
        ) < 0 by {
            assert(init[i] == q[i] && init[j] == q[j]);
        }
        lemma_query_members(init);
        let w = written_query(q);
        let v = JsonModel::Array(strings_json(last.1));
        assert forall|i: int| 0 <= i < init.len() implies text_order(
            #[trigger] written_query(init)[i].0,
            last.0,
        ) < 0 by {
            assert(init[i] == q[i]);
            assert(text_order(q[i].0, q[q.len() - 1].0) < 0);
        }
        lemma_put_last(written_query(init), last.0, v);
        assert(w =~= written_query(init).push((last.0, v)));
        assert(w.drop_last() =~= written_query(init));
        assert(w.last() == (last.0, v));
        assert(query_values(v) =~= last.1);
        assert forall|i: int| 0 <= i < init.len() implies text_order(
            #[trigger] init[i].0,
            last.0,
        ) < 0 by {
            assert(init[i] == q[i]);
            assert(text_order(q[i].0, q[q.len() - 1].0) < 0);
        }
        lemma_put_last(init, last.0, last.1);
        assert(init.push((last.0, last.1)) =~= q);
    }
}

/// In the document of a request the query is read as it was written
/// wherever it is written in the object form: for version 3 and for
/// version 4. The names of its parameters must be increasing, which is
/// the invariant of the map that holds them.
pub proof fn lemma_query_document(r: RequestModel)
    requires
        r.query matches Some(q) ==> keys_increasing(q),
    ensures
        query_of(
            JsonModel::Object(request_members(r, PactSpecification::V3)),
            PactSpecification::V3,
        ) == r.query,
        v4_query_of(JsonModel::Object(v4_request_members(r))) == r.query,
{
    lemma_part_names();
    let spec = PactSpecification::V3;
    let m0 = Seq::<(Seq<char>, JsonModel)>::empty();
    let m1 = put(m0, "method"@, JsonModel::String(uppercase(r.method)));
    let m2 = put(m1, "path"@, JsonModel::String(r.path));
    lemma_put(m0, "method"@, JsonModel::String(uppercase(r.method)));
    lemma_put(m1, "path"@, JsonModel::String(r.path));
    let v = match r.query {
        Some(q) => JsonModel::Object(query_value_members(q)),
        None => JsonModel::Null,
    };
    let m3 = put_where(r.query is Some, m2, "query"@, v);
    lemma_put_where(r.query is Some, m2, "query"@, v);
    lemma_part_members(m3, r.headers, r.body, r.matching_rules, r.generators, spec, "query"@);
    lemma_v4_part_members(m3, r.headers, r.body, r.matching_rules, r.generators, "query"@);
    match r.query {
        Some(q) => {
            lemma_query_members(q);
        },
        None => {},
    }
}

/// Among the members that a request and a response share, the headers
/// stand under their name where there are any.
proof fn lemma_part_headers(
    base: Entries<JsonModel>,
    headers: Headers,
    body: BodyModel,
    matching_rules: Entries<CategoryModel>,
    generators: GeneratorsModel,
    spec: PactSpecification,
)
    requires
        keys_increasing(base),
        lookup(base, "headers"@) is None,
    ensures
        lookup(part_members(base, headers, body, matching_rules, generators, spec), "headers"@)
            == (match headers {
            Some(h) => Some(JsonModel::Object(header_members(h))),
            None => None,
        }),
        lookup(v4_part_members(base, headers, body, matching_rules, generators), "headers"@) == (
        match headers {
            Some(h) => Some(JsonModel::Object(header_members(h))),
            None => None,
        }),
{
    lemma_part_names();
    let h = match headers {
        Some(h) => JsonModel::Object(header_members(h)),
        None => JsonModel::Null,
    };
    let m1 = put_where(headers is Some, base, "headers"@, h);
    lemma_put_where(headers is Some, base, "headers"@, h);
    let written = JsonModel::Object(generators_members(generators));
    {
        let resolved = match resolved_type(body, headers) {
            Some(c) => c,
            None => unknown_type(),
        };
        let b = match body_json(body, resolved) {
            Some(b) => b,
            None => JsonModel::Null,
        };
        let m2 = put_where(body_json(body, resolved) is Some, m1, "body"@, b);
        lemma_put_where(body_json(body, resolved) is Some, m1, "body"@, b);
        let rules = matchers_json(matching_rules, nested_forms(spec));
        let m3 = put_where(!no_rules(matching_rules), m2, "matchingRules"@, rules);
        lemma_put_where(!no_rules(matching_rules), m2, "matchingRules"@, rules);
        let m4 = put_where(!no_generators(generators), m3, "generators"@, written);
        lemma_put_where(!no_generators(generators), m3, "generators"@, written);
        assert(m4 == part_members(base, headers, body, matching_rules, generators, spec));
    }
    {
        let m2 = put_where(!(body is Missing), m1, "body"@, v4_body_json(body));
        lemma_put_where(!(body is Missing), m1, "body"@, v4_body_json(body));
        let rules = matchers_json(matching_rules, true);
        let m3 = put_where(!no_rules(matching_rules), m2, "matchingRules"@, rules);
        lemma_put_where(!no_rules(matching_rules), m2, "matchingRules"@, rules);
        let m4 = put_where(!no_generators(generators), m3, "generators"@, written);
        lemma_put_where(!no_generators(generators), m3, "generators"@, written);
        assert(m4 == v4_part_members(base, headers, body, matching_rules, generators));
    }
}

/// Whether headers are read back as they were written: there are none, or
/// they are in the form that is written without loss.
pub open spec fn headers_kept(headers: Headers) -> bool {
    headers matches Some(h) ==> headers_form(h)
}

/// Whether a request is of those that are read back as they were
/// written: its method is a text of ASCII, the names of the parameters of
/// its query are increasing, its body is missing, null or empty, and its
/// headers, matching rules and generators are kept.
pub open spec fn request_kept(r: RequestModel) -> bool {
    &&& ascii_text(r.method)
    &&& r.query matches Some(q) ==> keys_increasing(q)
    &&& headers_kept(r.headers)
    &&& !(r.body is Present)
    &&& rules_kept(r.matching_rules)
    &&& generators_kept(r.generators)
}

/// Whether a response is of those that are read back as they were
/// written: its body is missing, null or empty, and its headers, matching
/// rules and generators are kept.
pub open spec fn response_kept(r: ResponseModel) -> bool {
    &&& headers_kept(r.headers)
    &&& !(r.body is Present)
    &&& rules_kept(r.matching_rules)
    &&& generators_kept(r.generators)
}

/// A request of those that are kept is read back, from what version 3 or
/// version 4 writes for it, as it was, with its method in upper case.
pub proof fn lemma_request_round_trip(r: RequestModel)
    requires
        request_kept(r),
    ensures
        request_of(
            JsonModel::Object(request_members(r, PactSpecification::V3)),
            PactSpecification::V3,
        ) == Ok::<RequestModel, Seq<char>>(RequestModel { method: uppercase(r.method), ..r }),
        v4_request_of(JsonModel::Object(v4_request_members(r))) == Ok::<RequestModel, Seq<char>>(
            RequestModel { method: uppercase(r.method), ..r },
        ),
{
    let spec = PactSpecification::V3;
    let response = ResponseModel {
        status: 200,
        headers: None,
        body: BodyModel::Missing,
        matching_rules: seq![],
        generators: seq![],
    };
    let k = JsonModel::Object(request_members(r, spec));
    let k4 = JsonModel::Object(v4_request_members(r));
    lemma_request_document(r, spec);
    lemma_query_document(r);
    lemma_rules_document(r, response);
    lemma_generators_document(r, response, spec);
    lemma_part_names();
    let m0 = Seq::<(Seq<char>, JsonModel)>::empty();
    let m1 = put(m0, "method"@, JsonModel::String(uppercase(r.method)));
    let m2 = put(m1, "path"@, JsonModel::String(r.path));
    lemma_put(m0, "method"@, JsonModel::String(uppercase(r.method)));
    lemma_put(m1, "path"@, JsonModel::String(r.path));
    let v = match r.query {
        Some(q) => JsonModel::Object(query_value_members(q)),
        None => JsonModel::Null,
    };
    let m3 = put_where(r.query is Some, m2, "query"@, v);
    lemma_put_where(r.query is Some, m2, "query"@, v);
    lemma_part_headers(m3, r.headers, r.body, r.matching_rules, r.generators, spec);
    match r.headers {
        Some(h) => {
            lemma_headers_round_trip(h);
        },
        None => {},
    }
    assert(headers_from(k) == r.headers);
    assert(headers_from(k4) == r.headers);
    lemma_body_document(r, response, spec, declared_type(headers_from(k)));
    lemma_v4_body_document(r, response, declared_type(headers_from(k4)));
}

/// A response of those that are kept is read back, from what version 3
/// or version 4 writes for it, as it was.
pub proof fn lemma_response_round_trip(r: ResponseModel)
    requires
        response_kept(r),
    ensures
        response_of(JsonModel::Object(response_members(r, PactSpecification::V3))) == Ok::<
            ResponseModel,
            Seq<char>,
        >(r),
        v4_response_of(JsonModel::Object(v4_response_members(r))) == Ok::<ResponseModel, Seq<char>>(
            r,
        ),
{
    let spec = PactSpecification::V3;
    let request = RequestModel {
        method: Seq::empty(),
        path: Seq::empty(),
        query: None,
        headers: None,
        body: BodyModel::Missing,
        matching_rules: seq![],
        generators: seq![],
    };
    let k = JsonModel::Object(response_members(r, spec));
    let k4 = JsonModel::Object(v4_response_members(r));
    lemma_response_document(r, spec);
    lemma_rules_document(request, r);
    lemma_generators_document(request, r, spec);
    lemma_part_names();
    let m0 = Seq::<(Seq<char>, JsonModel)>::empty();
    let n1 = put(m0, "status"@, number_model(r.status as nat));
    lemma_put(m0, "status"@, number_model(r.status as nat));
    lemma_part_headers(n1, r.headers, r.body, r.matching_rules, r.generators, spec);
    match r.headers {
        Some(h) => {
            lemma_headers_round_trip(h);
        },
        None => {},
    }
    assert(headers_from(k) == r.headers);
    assert(headers_from(k4) == r.headers);
    lemma_body_document(request, r, spec, declared_type(headers_from(k)));
    lemma_v4_body_document(request, r, declared_type(headers_from(k4)));
}

/// An interaction of versions 1 to 3 that is written for such a version
/// and read again has the description that it had and, as far as the
/// version writes them, its provider states, the path of its request,
/// its method in upper case where that is a text of ASCII, the status of
/// its response, each body that is missing, null or empty, and no
/// identifier. It is read wherever its request and its response are,
/// each from what was written for it.
pub proof fn lemma_interaction_read_again(
    i: RequestResponseModel,
    spec: PactSpecification,
    index: usize,
)
    ensures
        match request_response_of(
            index,
            JsonModel::Object(request_response_members(i, spec)),
            spec,
        ) {
            Ok(x) => x.description == i.description && x.provider_states == states_kept(
                i.provider_states,
                spec,
            ) && x.id is None && x.request.path == i.request.path && (ascii_text(i.request.method)
                ==> x.request.method == uppercase(i.request.method)) && x.response.status
                == i.response.status && (!(i.request.body is Present) ==> x.request.body
                == i.request.body) && (!(i.response.body is Present) ==> x.response.body
                == i.response.body) && request_of(
                JsonModel::Object(request_members(i.request, spec)),
                spec,
            ) == Ok::<RequestModel, Seq<char>>(x.request) && response_of(
                JsonModel::Object(response_members(i.response, spec)),
            ) == Ok::<ResponseModel, Seq<char>>(x.response),
            Err(_) => request_of(JsonModel::Object(request_members(i.request, spec)), spec) is Err
                || response_of(JsonModel::Object(response_members(i.response, spec))) is Err,
        },
{
    lemma_interaction_document(i, spec, index);
    lemma_request_document(i.request, spec);
    lemma_response_document(i.response, spec);
    let request = JsonModel::Object(request_members(i.request, spec));
    let response = JsonModel::Object(response_members(i.response, spec));
    lemma_body_document(i.request, i.response, spec, declared_type(headers_from(request)));
    lemma_body_document(i.request, i.response, spec, declared_type(headers_from(response)));
}

/// A pact of requests and responses that was read from a document and is
/// written for a version of 1 to 3 gives a document with the same
/// consumer and provider and with one interaction for each that was read,
/// in their order, each with the description that was read and, as far
/// as the version writes them, the provider states that were read. The
/// metadata alone are made anew: they are those of the pact with the
/// version written for and the version of this library.
pub proof fn lemma_request_response_round_trip(j: JsonModel, spec: PactSpecification)
    requires
        request_response_pact_of(j) is Ok,
        !(spec is V4),
    ensures
        ({
            let p = request_response_pact_of(j)->Ok_0;
            let k = JsonModel::Object(request_response_pact_members(p, spec));
            let items = interactions_json(p.interactions, spec);
            &&& consumer_of(k) == consumer_of(j)
            &&& provider_of(k) == provider_of(j)
            &&& member(k, "interactions"@) == Some(JsonModel::Array(items))
            &&& items.len() == p.interactions.len()
            &&& forall|n: int|
                0 <= n < items.len() ==> description_of(
                    #[trigger] items[n],
                    "Interaction"@,
                    n as usize,
                ) == p.interactions[n].description && states_of(items[n]) == states_kept(
                    p.interactions[n].provider_states,
                    spec,
                ) && member(items[n], "request"@) == Some(
                    JsonModel::Object(request_members(p.interactions[n].request, spec)),
                ) && member(items[n], "response"@) == Some(
                    JsonModel::Object(response_members(p.interactions[n].response, spec)),
                )
            &&& member(k, "metadata"@) == Some(
                JsonModel::Object(metadata_members(p.metadata, spec)),
            )
        }),
{
    let p = request_response_pact_of(j)->Ok_0;
    let items = interactions_json(p.interactions, spec);
    lemma_pact_document(p.consumer, p.provider, items, metadata_members(p.metadata, spec));
    assert forall|n: int| 0 <= n < items.len() implies description_of(
        #[trigger] items[n],
        "Interaction"@,
        n as usize,
    ) == p.interactions[n].description && states_of(items[n]) == states_kept(
        p.interactions[n].provider_states,
        spec,
    ) && member(items[n], "request"@) == Some(
        JsonModel::Object(request_members(p.interactions[n].request, spec)),
    ) && member(items[n], "response"@) == Some(
        JsonModel::Object(response_members(p.interactions[n].response, spec)),
    ) by {
        lemma_interaction_document(p.interactions[n], spec, n as usize);
    }
}

/// The names of the members of an interaction of version 4 are all
/// different.
proof fn lemma_v4_member_names()
    ensures
        "type"@ != "key"@,
        "type"@ != "description"@,
        "type"@ != "request"@,
        "type"@ != "response"@,
        "type"@ != "providerStates"@,
        "type"@ != "comments"@,
        "type"@ != "contents"@,
        "type"@ != "metadata"@,
        "type"@ != "matchingRules"@,
        "type"@ != "generators"@,
        "key"@ != "description"@,
        "key"@ != "request"@,
        "key"@ != "response"@,
        "key"@ != "providerStates"@,
        "key"@ != "comments"@,
        "key"@ != "contents"@,
        "key"@ != "metadata"@,
        "key"@ != "matchingRules"@,
        "key"@ != "generators"@,
        "key"@ != "_id"@,
        "type"@ != "_id"@,
        "comments"@ != "description"@,
        "comments"@ != "request"@,
        "comments"@ != "response"@,
        "comments"@ != "providerStates"@,
        "comments"@ != "contents"@,
        "comments"@ != "metadata"@,
        "comments"@ != "matchingRules"@,
        "comments"@ != "generators"@,
        "comments"@ != "_id"@,
        "contents"@ != "description"@,
        "contents"@ != "metadata"@,
        "contents"@ != "providerStates"@,
        "contents"@ != "matchingRules"@,
        "contents"@ != "generators"@,
        "contents"@ != "_id"@,
        "metadata"@ != "description"@,
        "metadata"@ != "providerStates"@,
        "metadata"@ != "matchingRules"@,
        "metadata"@ != "generators"@,
        "metadata"@ != "_id"@,
        "matchingRules"@ != "description"@,
        "matchingRules"@ != "providerStates"@,
        "matchingRules"@ != "generators"@,
        "matchingRules"@ != "_id"@,
        "generators"@ != "description"@,
        "generators"@ != "providerStates"@,
        "generators"@ != "_id"@,
        "providerState"@ != "type"@,
        "providerState"@ != "key"@,
        "providerState"@ != "comments"@,
        "providerState"@ != "contents"@,
        "providerState"@ != "metadata"@,
        "providerState"@ != "matchingRules"@,
        "providerState"@ != "generators"@,
        "provider_state"@ != "type"@,
        "provider_state"@ != "key"@,
        "provider_state"@ != "comments"@,
        "provider_state"@ != "contents"@,
        "provider_state"@ != "metadata"@,
        "provider_state"@ != "matchingRules"@,
        "provider_state"@ != "generators"@,
{
    reveal_strlit("providerState");
    reveal_strlit("provider_state");
    assert("providerState"@.len() == 13 && "provider_state"@.len() == 14);
    assert("providerState"@[0] == 'p' && "matchingRules"@[0] == 'm') by {
        reveal_strlit("matchingRules");
    }
    reveal_strlit("type");
    reveal_strlit("key");
    reveal_strlit("description");
    reveal_strlit("request");
    reveal_strlit("response");
    reveal_strlit("providerStates");
    reveal_strlit("comments");
    reveal_strlit("contents");
    reveal_strlit("metadata");
    reveal_strlit("matchingRules");
    reveal_strlit("generators");
    reveal_strlit("_id");
    assert("type"@.len() == 4 && "key"@.len() == 3 && "description"@.len() == 11);
    assert("request"@.len() == 7 && "response"@.len() == 8 && "_id"@.len() == 3);
    assert("providerStates"@.len() == 14 && "comments"@.len() == 8);
    assert("contents"@.len() == 8 && "metadata"@.len() == 8);
    assert("matchingRules"@.len() == 13 && "generators"@.len() == 10);
    assert("key"@[0] == 'k' && "_id"@[0] == '_');
    assert("comments"@[2] == 'm' && "contents"@[2] == 'n' && "response"@[2] == 's');
    assert("metadata"@[2] == 't');
}

/// The name of a kind of interaction stands for that kind.
pub proof fn lemma_kind_reads_back(kind: V4InteractionType)
    ensures
        type_of_text(type_text(kind)) == Some(kind),
{
    reveal_strlit("Synchronous/HTTP");
    reveal_strlit("Asynchronous/Messages");
    reveal_strlit("Synchronous/Messages");
    assert("Synchronous/HTTP"@.len() == 16 && "Asynchronous/Messages"@.len() == 21);
    assert("Synchronous/Messages"@.len() == 20);
}

/// In the document of an interaction of a request and a response of
/// version 4 the kind, the description, the provider states and the
/// comments are read as they were written; the key is the one of the
/// interaction or, where it has none, the one made from its content; the
/// request and the response stand under their names; and the identifier,
/// which is not written, is not read.
pub proof fn lemma_http_document(h: SynchronousHttpModel, index: usize)
    ensures
        ({
            let k = JsonModel::Object(http_members(h));
            &&& member(k, "type"@) == Some(
                JsonModel::String(type_text(V4InteractionType::Synchronous_HTTP)),
            )
            &&& key_of(k) == Some(
                written_key(h.key, http_key(h.description, h.provider_states, h.request, h.response)),
            )
            &&& description_of(k, "Interaction"@, index) == h.description
            &&& states_of(k) == h.provider_states
            &&& comments_of(k) == h.comments
            &&& member(k, "request"@) == Some(JsonModel::Object(v4_request_members(h.request)))
            &&& member(k, "response"@) == Some(JsonModel::Object(v4_response_members(h.response)))
            &&& id_of(k) is None
        }),
{
    lemma_member_names();
    lemma_v4_member_names();
    let key = written_key(
        h.key,
        http_key(h.description, h.provider_states, h.request, h.response),
    );
    let m0 = Seq::<(Seq<char>, JsonModel)>::empty();
    let m1 = put(m0, "type"@, JsonModel::String(type_text(V4InteractionType::Synchronous_HTTP)));
    let m2 = put(m1, "key"@, JsonModel::String(key));
    let m3 = put(m2, "description"@, JsonModel::String(h.description));
    let m4 = put(m3, "request"@, JsonModel::Object(v4_request_members(h.request)));
    let m5 = put(m4, "response"@, JsonModel::Object(v4_response_members(h.response)));
    lemma_put(m0, "type"@, JsonModel::String(type_text(V4InteractionType::Synchronous_HTTP)));
    lemma_put(m1, "key"@, JsonModel::String(key));
    lemma_put(m2, "description"@, JsonModel::String(h.description));
    lemma_put(m3, "request"@, JsonModel::Object(v4_request_members(h.request)));
    lemma_put(m4, "response"@, JsonModel::Object(v4_response_members(h.response)));
    let items = states_json(h.provider_states);
    let m6 = if h.provider_states.len() > 0 {
        put(m5, "providerStates"@, JsonModel::Array(items))
    } else {
        m5
    };
    if h.provider_states.len() > 0 {
        lemma_put(m5, "providerStates"@, JsonModel::Array(items));
    }
    if h.comments.len() > 0 {
        lemma_put(m6, "comments"@, JsonModel::Object(h.comments));
    }
    let k = JsonModel::Object(http_members(h));
    assert forall|n: int| 0 <= n < items.len() implies state_of(#[trigger] items[n])
        == h.provider_states[n] by {
        lemma_state_document(h.provider_states[n]);
    }
    assert(states_of(k) =~= h.provider_states);
    assert(comments_of(k) =~= h.comments);
}

/// What is found among the members by which the content of a message is
/// written: the description, the provider states and the metadata as
/// they are, and neither a kind, nor a key, nor comments, nor an
/// identifier, nor a provider state of an earlier form.
proof fn lemma_message_content(m: AsynchronousMessageModel)
    ensures
        ({
            let c = message_content_members(
                m.description,
                m.provider_states,
                m.contents,
                m.metadata,
                m.matching_rules,
                m.generators,
            );
            &&& keys_increasing(c)
            &&& lookup(c, "description"@) == Some(JsonModel::String(m.description))
            &&& lookup(c, "providerStates"@) == if m.provider_states.len() > 0 {
                Some(JsonModel::Array(states_json(m.provider_states)))
            } else {
                None
            }
            &&& lookup(c, "metadata"@) == if m.metadata.len() > 0 {
                Some(JsonModel::Object(m.metadata))
            } else {
                None
            }
            &&& lookup(c, "contents"@) == if m.contents is Missing {
                None
            } else {
                Some(v4_body_json(m.contents))
            }
            &&& lookup(c, "matchingRules"@) == if no_rules(m.matching_rules) {
                None
            } else {
                Some(matchers_json(m.matching_rules, true))
            }
            &&& lookup(c, "generators"@) == if no_generators(m.generators) {
                None
            } else {
                Some(JsonModel::Object(generators_members(m.generators)))
            }
            &&& lookup(c, "type"@) is None
            &&& lookup(c, "key"@) is None
            &&& lookup(c, "comments"@) is None
            &&& lookup(c, "_id"@) is None
            &&& lookup(c, "providerState"@) is None
            &&& lookup(c, "provider_state"@) is None
        }),
{
    lemma_member_names();
    lemma_v4_member_names();
    let m0 = Seq::<(Seq<char>, JsonModel)>::empty();
    let m1 = put(m0, "description"@, JsonModel::String(m.description));
    lemma_put(m0, "description"@, JsonModel::String(m.description));
    let m2 = put_where(!(m.contents is Missing), m1, "contents"@, v4_body_json(m.contents));
    lemma_put_where(!(m.contents is Missing), m1, "contents"@, v4_body_json(m.contents));
    let m3 = put_where(m.metadata.len() > 0, m2, "metadata"@, JsonModel::Object(m.metadata));
    lemma_put_where(m.metadata.len() > 0, m2, "metadata"@, JsonModel::Object(m.metadata));
    let items = JsonModel::Array(states_json(m.provider_states));
    let m4 = put_where(m.provider_states.len() > 0, m3, "providerStates"@, items);
    lemma_put_where(m.provider_states.len() > 0, m3, "providerStates"@, items);
    let rules = matchers_json(m.matching_rules, true);
    let m5 = put_where(!no_rules(m.matching_rules), m4, "matchingRules"@, rules);
    lemma_put_where(!no_rules(m.matching_rules), m4, "matchingRules"@, rules);
    let generators = JsonModel::Object(generators_members(m.generators));
    let m6 = put_where(!no_generators(m.generators), m5, "generators"@, generators);
    lemma_put_where(!no_generators(m.generators), m5, "generators"@, generators);
    assert(m6 == message_content_members(
        m.description,
        m.provider_states,
        m.contents,
        m.metadata,
        m.matching_rules,
        m.generators,
    ));
}

/// In the document of an interaction of one message of version 4 the
/// kind, the description, the provider states, the metadata and the
/// comments are read as they were written; the key is the one of the
/// interaction or, where it has none, the one made from its content; and
/// the identifier, which is not written, is not read.
pub proof fn lemma_message_document(m: AsynchronousMessageModel, index: usize)
    ensures
        ({
            let k = JsonModel::Object(async_message_members(m));
            &&& member(k, "type"@) == Some(
                JsonModel::String(type_text(V4InteractionType::Asynchronous_Messages)),
            )
            &&& key_of(k) == Some(written_key(m.key, message_key(m)))
            &&& description_of(k, "Interaction"@, index) == m.description
            &&& states_of(k) == m.provider_states
            &&& v4_metadata_of(k) == m.metadata
            &&& comments_of(k) == m.comments
            &&& id_of(k) is None
            &&& member(k, "contents"@) == if m.contents is Missing {
                None
            } else {
                Some(v4_body_json(m.contents))
            }
        }),
{
    lemma_member_names();
    lemma_v4_member_names();
    lemma_message_content(m);
    let m6 = message_content_members(
        m.description,
        m.provider_states,
        m.contents,
        m.metadata,
        m.matching_rules,
        m.generators,
    );
    let kind = JsonModel::String(type_text(V4InteractionType::Asynchronous_Messages));
    let m7 = put(m6, "type"@, kind);
    lemma_put(m6, "type"@, kind);
    let m8 = put(m7, "key"@, JsonModel::String(written_key(m.key, message_key(m))));
    lemma_put(m7, "key"@, JsonModel::String(written_key(m.key, message_key(m))));
    let m9 = put_where(m.comments.len() > 0, m8, "comments"@, JsonModel::Object(m.comments));
    lemma_put_where(m.comments.len() > 0, m8, "comments"@, JsonModel::Object(m.comments));
    assert(m9 == async_message_members(m));
    let k = JsonModel::Object(m9);
    let items = states_json(m.provider_states);
    assert forall|n: int| 0 <= n < items.len() implies state_of(#[trigger] items[n])
        == m.provider_states[n] by {
        lemma_state_document(m.provider_states[n]);
    }
    assert(states_of(k) =~= m.provider_states);
    assert(v4_metadata_of(k) =~= m.metadata);
    assert(comments_of(k) =~= m.comments);
}

/// An interaction of a request and a response of version 4 that is
/// written and read again is of that kind, with the description, the
/// provider states and the comments that it had, with the path of its
/// request, its method in upper case where that is a text of ASCII, and
/// the status of its response, with each body that is missing, null or
/// empty, with the key that was written for it, and with no identifier.
/// It is read wherever its request and its response are, each from what
/// was written for it.
pub proof fn lemma_http_read_again(source: Seq<char>, h: SynchronousHttpModel, index: usize)
    ensures
        match v4_interaction_of(source, index, JsonModel::Object(http_members(h))) {
            Ok(V4Model::SynchronousHttp(x)) => x.description == h.description
                && x.provider_states == h.provider_states && x.comments == h.comments && x.key
                == Some(
                written_key(h.key, http_key(h.description, h.provider_states, h.request, h.response)),
            ) && x.id is None && x.request.path == h.request.path && (ascii_text(h.request.method)
                ==> x.request.method == uppercase(h.request.method)) && x.response.status
                == h.response.status && (!(h.request.body is Present) ==> x.request.body
                == h.request.body) && (!(h.response.body is Present) ==> x.response.body
                == h.response.body) && v4_request_of(
                JsonModel::Object(v4_request_members(h.request)),
            )
                == Ok::<RequestModel, Seq<char>>(x.request) && v4_response_of(
                JsonModel::Object(v4_response_members(h.response)),
            ) == Ok::<ResponseModel, Seq<char>>(x.response),
            Ok(_) => false,
            Err(_) => v4_request_of(JsonModel::Object(v4_request_members(h.request))) is Err
                || v4_response_of(JsonModel::Object(v4_response_members(h.response))) is Err,
        },
{
    lemma_http_document(h, index);
    lemma_kind_reads_back(V4InteractionType::Synchronous_HTTP);
    lemma_request_document(h.request, PactSpecification::V4);
    lemma_response_document(h.response, PactSpecification::V4);
    let request = JsonModel::Object(v4_request_members(h.request));
    let response = JsonModel::Object(v4_response_members(h.response));
    lemma_v4_body_document(h.request, h.response, declared_type(headers_from(request)));
    lemma_v4_body_document(h.request, h.response, declared_type(headers_from(response)));
}

/// An interaction of one message of version 4 that is written and read
/// again is of that kind, with the description, the provider states, the
/// metadata and the comments that it had, with contents that are missing,
/// null or empty as they were, with the key that was written for it, and
/// with no identifier. It is read wherever its matching rules and its
/// generators are.
pub proof fn lemma_message_read_again(source: Seq<char>, m: AsynchronousMessageModel, index: usize)
    ensures
        match v4_interaction_of(source, index, JsonModel::Object(async_message_members(m))) {
            Ok(V4Model::AsynchronousMessage(x)) => x.description == m.description
                && x.provider_states == m.provider_states && x.metadata == m.metadata
                && x.comments == m.comments && x.key == Some(written_key(m.key, message_key(m)))
                && x.id is None && (!(m.contents is Present) ==> x.contents == m.contents),
            Ok(_) => false,
            Err(_) => matchers_from(JsonModel::Object(async_message_members(m)), None) is Err
                || generators_from(JsonModel::Object(async_message_members(m))) is Err,
        },
{
    lemma_message_document(m, index);
    lemma_kind_reads_back(V4InteractionType::Asynchronous_Messages);
    if m.contents is Null || m.contents is Empty {
        let k = JsonModel::Object(async_message_members(m));
        lemma_v4_body_reads_back(m.contents, metadata_type(v4_metadata_of(k)));
    }
}

/// Every interaction that is read from a document of version 4 is of a
/// request and a response or of one message.
pub proof fn lemma_kinds_read(source: Seq<char>, items: Seq<JsonModel>, n: nat)
    ensures
        forall|i: int|
            0 <= i < v4_interactions_of(source, items, n).len() ==> !((
            #[trigger] v4_interactions_of(source, items, n)[i]) is SynchronousMessages),
    decreases n,
{
    if n > 0 {
        lemma_kinds_read(source, items, (n - 1) as nat);
    }
}

/// A pact of version 4 that was read from a document and is written as a
/// pact of version 4 gives a document with the same consumer and
/// provider and with one interaction for each that was read, in their
/// order, each of a request and a response or of one message and written
/// by its own members. The metadata are those of the pact with two made
/// anew: the version 4 of the specification and the version of this
/// library; and they are read again as they were written.
pub proof fn lemma_v4_round_trip(source: Seq<char>, j: JsonModel)
    ensures
        ({
            let p = v4_pact_of(source, j);
            let k = JsonModel::Object(v4_pact_members(p));
            &&& consumer_of(k) == consumer_of(j)
            &&& provider_of(k) == provider_of(j)
            &&& member(k, "interactions"@) == Some(
                JsonModel::Array(v4_interactions_json(p.interactions)),
            )
            &&& v4_interactions_json(p.interactions).len() == p.interactions.len()
            &&& forall|n: int|
                0 <= n < p.interactions.len() ==> !((
                #[trigger] p.interactions[n]) is SynchronousMessages) && v4_interactions_json(
                    p.interactions,
                )[n] == JsonModel::Object(v4_members(p.interactions[n]))
            &&& v4_metadata(k) == stamped(v4_group_members(p.metadata), PactSpecification::V4)
            &&& lookup(v4_metadata(k), "pactSpecification"@) == Some(
                version_object(version_text(PactSpecification::V4)),
            )
            &&& lookup(v4_metadata(k), "pactRust"@) == Some(version_object(library_version()))
        }),
{
    let p = v4_pact_of(source, j);
    lemma_pact_document(
        p.consumer,
        p.provider,
        v4_interactions_json(p.interactions),
        stamped(v4_group_members(p.metadata), PactSpecification::V4),
    );
    lemma_v4_metadata_rewritten(p.metadata);
    match member(j, "interactions"@) {
        Some(JsonModel::Array(items)) => {
            lemma_kinds_read(source, items, items.len());
        },
        _ => {},
    }
}

/// The method that is read from the document of a request, where it is
/// written there as a text of ASCII or not at all, is in upper case: it
/// stays as it is when it is written and read again.
pub proof fn lemma_method_read(j: JsonModel)
    requires
        member(j, "method"@) matches Some(v) ==> ascii_text(plain_text(v)),
    ensures
        ascii_text(method_of(j)),
        uppercase(method_of(j)) == method_of(j),
{
    match member(j, "method"@) {
        Some(v) => {
            lemma_uppercase_twice(plain_text(v));
        },
        None => {
            reveal_strlit("GET");
            assert("GET"@.len() == 3);
            assert("GET"@[0] == 'G' && "GET"@[1] == 'E' && "GET"@[2] == 'T');
            assert(ascii_text("GET"@));
            assert(ascii_uppercase("GET"@) =~= "GET"@);
        },
    }
}

/// An interaction of versions 1 to 3 as it is read again after it was
/// written: without its identifier, which is not written, and with the
/// method of its request in upper case.
pub open spec fn read_again(i: RequestResponseModel) -> RequestResponseModel {
    RequestResponseModel {
        id: None,
        request: RequestModel { method: uppercase(i.request.method), ..i.request },
        ..i
    }
}

/// An interaction whose request and response are of those that are kept
/// is read back, from what version 3 writes for it, as it was, but for
/// its identifier and the case of its method.
pub proof fn lemma_interaction_round_trip(i: RequestResponseModel, index: usize)
    requires
        request_kept(i.request),
        response_kept(i.response),
    ensures
        request_response_of(
            index,
            JsonModel::Object(request_response_members(i, PactSpecification::V3)),
            PactSpecification::V3,
        ) == Ok::<RequestResponseModel, Seq<char>>(read_again(i)),
{
    lemma_interaction_read_again(i, PactSpecification::V3, index);
    lemma_request_round_trip(i.request);
    lemma_response_round_trip(i.response);
}

/// Interactions whose requests and responses are of those that are kept
/// are read back, from what version 3 writes for them, one for one and in
/// their order.
pub proof fn lemma_interactions_round_trip(items: Seq<RequestResponseModel>, n: nat)
    requires
        n <= items.len(),
        forall|i: int|
            0 <= i < items.len() ==> request_kept((#[trigger] items[i]).request) && response_kept(
                items[i].response,
            ),
    ensures
        interactions_of(interactions_json(items, PactSpecification::V3), PactSpecification::V3, n)
            == Ok::<Seq<RequestResponseModel>, Seq<char>>(
            Seq::new(n, |i: int| read_again(items[i])),
        ),
    decreases n,
{
    let spec = PactSpecification::V3;
    let written = interactions_json(items, spec);
    if n == 0 {
        assert(Seq::new(n, |i: int| read_again(items[i])) =~= Seq::<RequestResponseModel>::empty());
    } else {
        lemma_interactions_round_trip(items, (n - 1) as nat);
        assert(request_kept(items[n - 1].request) && response_kept(items[n - 1].response));
        lemma_interaction_round_trip(items[n - 1], (n - 1) as usize);
        assert(written[n - 1] == JsonModel::Object(request_response_members(items[n - 1], spec)));
        assert(Seq::new((n - 1) as nat, |i: int| read_again(items[i])).push(
            read_again(items[n - 1]),
        ) =~= Seq::new(n, |i: int| read_again(items[i])));
    }
}

/// A pact of requests and responses whose interactions are of those that
/// are kept is read back, from the document that version 3 writes for it,
/// with the same consumer and provider and with its interactions one for
/// one and in their order, each as it was but for its identifier and the
/// case of its method. The metadata alone are made anew: they record the
/// version 3 of the specification and the version of this library.
pub proof fn lemma_request_response_pact_round_trip(p: RequestResponsePactModel)
    requires
        forall|i: int|
            0 <= i < p.interactions.len() ==> request_kept((#[trigger] p.interactions[i]).request)
                && response_kept(p.interactions[i].response),
    ensures
        ({
            let k = JsonModel::Object(request_response_pact_members(p, PactSpecification::V3));
            &&& consumer_of(k) == p.consumer
            &&& provider_of(k) == p.provider
            &&& parsed_interactions(k, PactSpecification::V3) == Ok::<
                Seq<RequestResponseModel>,
                Seq<char>,
            >(Seq::new(p.interactions.len(), |i: int| read_again(p.interactions[i])))
            &&& member(k, "metadata"@) == Some(
                JsonModel::Object(metadata_members(p.metadata, PactSpecification::V3)),
            )
            &&& lookup(metadata_members(p.metadata, PactSpecification::V3), "pactSpecification"@)
                == Some(version_object(version_text(PactSpecification::V3)))
            &&& lookup(metadata_members(p.metadata, PactSpecification::V3), "pactRust"@) == Some(
                version_object(library_version()),
            )
        }),
{
    let spec = PactSpecification::V3;
    lemma_pact_document(
        p.consumer,
        p.provider,
        interactions_json(p.interactions, spec),
        metadata_members(p.metadata, spec),
    );
    lemma_interactions_round_trip(p.interactions, p.interactions.len());
    lemma_metadata_rewritten(p.metadata, spec);
}

/// Whether an interaction of version 4 is of those that are read back as
/// they were written: one of a request and a response that are kept, or
/// one of a message whose contents are missing, null or empty and whose
/// matching rules and generators are kept.
pub open spec fn v4_kept(i: V4Model) -> bool {
    match i {
        V4Model::SynchronousHttp(h) => request_kept(h.request) && response_kept(h.response),
        V4Model::AsynchronousMessage(m) => !(m.contents is Present) && rules_kept(
            m.matching_rules,
        ) && generators_kept(m.generators),
        V4Model::SynchronousMessages(_) => false,
    }
}

/// An interaction of version 4 as it is read again after it was written:
/// without its identifier, which is not written, with the key that was
/// written for it, and with the method of its request in upper case.
pub open spec fn v4_read_again(i: V4Model) -> V4Model {
    match i {
        V4Model::SynchronousHttp(h) => V4Model::SynchronousHttp(
            SynchronousHttpModel {
                id: None,
                key: Some(
                    written_key(
                        h.key,
                        http_key(h.description, h.provider_states, h.request, h.response),
                    ),
                ),
                request: RequestModel { method: uppercase(h.request.method), ..h.request },
                ..h
            },
        ),
        V4Model::AsynchronousMessage(m) => V4Model::AsynchronousMessage(
            AsynchronousMessageModel {
                id: None,
                key: Some(written_key(m.key, message_key(m))),
                ..m
            },
        ),
        V4Model::SynchronousMessages(_) => i,
    }
}

/// An interaction of version 4 of those that are kept is read back from
/// what is written for it as it was, but for its identifier, its key and
/// the case of its method.
pub proof fn lemma_v4_interaction_round_trip(source: Seq<char>, i: V4Model, index: usize)
    requires
        v4_kept(i),
    ensures
        v4_interaction_of(source, index, JsonModel::Object(v4_members(i))) == Ok::<
            V4Model,
            Seq<char>,
        >(v4_read_again(i)),
{
    match i {
        V4Model::SynchronousHttp(h) => {
            lemma_http_read_again(source, h, index);
            lemma_request_round_trip(h.request);
            lemma_response_round_trip(h.response);
        },
        V4Model::AsynchronousMessage(m) => {
            lemma_message_read_again(source, m, index);
            lemma_message_document(m, index);
            lemma_message_rules(m);
        },
        V4Model::SynchronousMessages(_) => {},
    }
}

/// The matching rules and the generators of a message that are kept are
/// read from what is written for the message as they were.
proof fn lemma_message_rules(m: AsynchronousMessageModel)
    requires
        rules_kept(m.matching_rules),
        generators_kept(m.generators),
    ensures
        matchers_from(JsonModel::Object(async_message_members(m)), None) == Ok::<
            Entries<CategoryModel>,
            Seq<char>,
        >(m.matching_rules),
        generators_from(JsonModel::Object(async_message_members(m))) == Ok::<
            GeneratorsModel,
            Seq<char>,
        >(m.generators),
{
    lemma_member_names();
    lemma_v4_member_names();
    lemma_message_content(m);
    let m6 = message_content_members(
        m.description,
        m.provider_states,
        m.contents,
        m.metadata,
        m.matching_rules,
        m.generators,
    );
    let kind = JsonModel::String(type_text(V4InteractionType::Asynchronous_Messages));
    let m7 = put(m6, "type"@, kind);
    lemma_put(m6, "type"@, kind);
    let m8 = put(m7, "key"@, JsonModel::String(written_key(m.key, message_key(m))));
    lemma_put(m7, "key"@, JsonModel::String(written_key(m.key, message_key(m))));
    let m9 = put_where(m.comments.len() > 0, m8, "comments"@, JsonModel::Object(m.comments));
    lemma_put_where(m.comments.len() > 0, m8, "comments"@, JsonModel::Object(m.comments));
    assert(m9 == async_message_members(m));
    let k = JsonModel::Object(m9);
    if no_rules(m.matching_rules) {
        assert(m.matching_rules =~= Seq::<(Seq<char>, CategoryModel)>::empty());
    } else {
        lemma_matchers_round_trip(m.matching_rules, k, None);
    }
    if no_generators(m.generators) {
        assert(m.generators =~= Seq::<(Seq<char>, Entries<GeneratorModel>)>::empty());
    } else {
        lemma_generators_round_trip(m.generators, k);
    }
}

/// Interactions of version 4 of those that are kept are read back from
/// what is written for them one for one and in their order.
pub proof fn lemma_v4_interactions_round_trip(source: Seq<char>, items: Seq<V4Model>, n: nat)
    requires
        n <= items.len(),
        forall|i: int| 0 <= i < items.len() ==> v4_kept(#[trigger] items[i]),
    ensures
        v4_interactions_of(source, v4_interactions_json(items), n) == Seq::new(
            n,
            |i: int| v4_read_again(items[i]),
        ),
    decreases n,
{
    let written = v4_interactions_json(items);
    if n == 0 {
        assert(Seq::new(n, |i: int| v4_read_again(items[i])) =~= Seq::<V4Model>::empty());
    } else {
        lemma_v4_interactions_round_trip(source, items, (n - 1) as nat);
        assert(v4_kept(items[n - 1]));
        lemma_v4_interaction_round_trip(source, items[n - 1], (n - 1) as usize);
        assert(written[n - 1] == JsonModel::Object(v4_members(items[n - 1])));
        assert(Seq::new((n - 1) as nat, |i: int| v4_read_again(items[i])).push(
            v4_read_again(items[n - 1]),
        ) =~= Seq::new(n, |i: int| v4_read_again(items[i])));
    }
}

/// A pact of version 4 whose interactions are of those that are kept is
/// read back, from the document that is written for it, with the same
/// consumer and provider and with its interactions one for one and in
/// their order, each as it was but for its identifier, its key and the
/// case of its method. The metadata alone are made anew: they are those
/// of the pact with the version 4 of the specification and the version
/// of this library.
pub proof fn lemma_v4_pact_round_trip(source: Seq<char>, p: V4PactModel)
    requires
        forall|i: int| 0 <= i < p.interactions.len() ==> v4_kept(#[trigger] p.interactions[i]),
    ensures
        v4_pact_of(source, JsonModel::Object(v4_pact_members(p))) == (V4PactModel {
            consumer: p.consumer,
            provider: p.provider,
            interactions: Seq::new(p.interactions.len(), |i: int| v4_read_again(p.interactions[i])),
            metadata: stamped(v4_group_members(p.metadata), PactSpecification::V4),
        }),
{
    lemma_pact_document(
        p.consumer,
        p.provider,
        v4_interactions_json(p.interactions),
        stamped(v4_group_members(p.metadata), PactSpecification::V4),
    );
    lemma_v4_interactions_round_trip(source, p.interactions, p.interactions.len());
}

} // verus!
