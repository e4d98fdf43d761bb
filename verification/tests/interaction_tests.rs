use pact_matching::bodies::OptionalBody;
use pact_matching::collections::SortedMap;
use pact_matching::content_types::ContentType;
use pact_matching::interactions::{
    interaction_faults_from_json, interaction_from_json, interactions_from_json, AsynchronousMessage, Interaction, PactConflict,
    RequestResponseInteraction, SynchronousHttp, SynchronousMessages, V4Interaction,
    V4InteractionType,
};
use pact_matching::json::Json;
use pact_matching::generators::Generator;
use pact_matching::matchingrules::{MatchingRule, MatchingRules, RuleList, RuleLogic};
use pact_matching::message::Message;
use pact_matching::models::{PactSpecification, Request, Response};
use pact_matching::provider_states::ProviderState;

fn s(text: &str) -> String {
    text.to_string()
}

fn json(text: &str) -> Json {
    Json::parse(text).unwrap()
}

fn interaction(text: &str) -> RequestResponseInteraction {
    RequestResponseInteraction::from_json(0, &json(text), &PactSpecification::V3).unwrap()
}

#[test]
fn interaction_is_read_from_json() {
    let read = RequestResponseInteraction::from_json(
        3,
        &json(
            "{\"_id\":\"abc\",\"description\":\"d\",\"providerState\":\"s\",\
              \"request\":{\"method\":\"post\",\"path\":\"/x\"},\"response\":{\"status\":201}}",
        ),
        &PactSpecification::V2,
    )
    .unwrap();
    assert_eq!(read.id, Some(s("abc")));
    assert_eq!(read.description, "d");
    assert_eq!(read.provider_states, vec![ProviderState::default("s")]);
    assert_eq!(read.request.method, "POST");
    assert_eq!(read.response.status, 201);
    assert_eq!(
        read.to_json(&PactSpecification::V2),
        json(
            "{\"description\":\"d\",\"providerState\":\"s\",\
              \"request\":{\"method\":\"POST\",\"path\":\"/x\"},\"response\":{\"status\":201}}"
        )
    );
    assert_eq!(
        read.to_json(&PactSpecification::V3),
        json(
            "{\"description\":\"d\",\"providerStates\":[{\"name\":\"s\"}],\
              \"request\":{\"method\":\"POST\",\"path\":\"/x\"},\"response\":{\"status\":201}}"
        )
    );
}

#[test]
fn interaction_has_defaults_for_what_is_missing() {
    let read = RequestResponseInteraction::from_json(3, &json("{}"), &PactSpecification::V3).unwrap();
    assert_eq!(read.id, None);
    assert_eq!(read.description, "Interaction 3");
    assert_eq!(read.provider_states, vec![]);
    assert_eq!(read.request, Request::default());
    assert_eq!(read.response, Response::default());
    assert_eq!(RequestResponseInteraction::default().description, "Default Interaction");
    assert_eq!(
        RequestResponseInteraction::from_json(0, &json("{\"description\": 7, \"_id\": 8}"), &PactSpecification::V3)
            .unwrap()
            .description,
        "7"
    );
    assert_eq!(
        RequestResponseInteraction::from_json(
            0,
            &json("{\"response\":{\"status\":\"bad\"}}"),
            &PactSpecification::V3
        ),
        Err(s("Response status is not a number: \"bad\""))
    );
}

#[test]
fn interactions_with_different_methods_conflict() {
    let first = interaction(
        "{\"description\":\"a request\",\"providerStates\":[{\"name\":\"s\"}],\"request\":{\"method\":\"GET\"}}",
    );
    let second = interaction(
        "{\"description\":\"a request\",\"providerStates\":[{\"name\":\"s\"}],\"request\":{\"method\":\"POST\"}}",
    );
    assert_eq!(
        first.conflicts_with(&Interaction::RequestResponse(second)),
        vec![PactConflict {
            interaction: s("a request"),
            description: s("Request method GET != POST"),
        }]
    );
}

#[test]
fn conflicts_need_the_same_description_and_provider_states() {
    let first = interaction("{\"description\":\"a\",\"request\":{\"method\":\"GET\"}}");
    let other_description = interaction("{\"description\":\"b\",\"request\":{\"method\":\"POST\"}}");
    let other_state = interaction(
        "{\"description\":\"a\",\"providerStates\":[{\"name\":\"s\"}],\"request\":{\"method\":\"POST\"}}",
    );
    assert_eq!(first.conflicts_with(&Interaction::RequestResponse(other_description)), vec![]);
    assert_eq!(first.conflicts_with(&Interaction::RequestResponse(other_state)), vec![]);
    let same = interaction("{\"description\":\"a\",\"request\":{\"method\":\"GET\"}}");
    assert_eq!(first.conflicts_with(&Interaction::RequestResponse(same)), vec![]);
}

#[test]
fn bodies_and_matching_rules_make_no_conflict() {
    let first = interaction(
        "{\"description\":\"a\",\"request\":{\"body\":\"x\"},\"response\":{\"status\":200,\"body\":{\"a\":1}}}",
    );
    let second = interaction(
        "{\"description\":\"a\",\"request\":{\"body\":\"y\",\"matchingRules\":{\"body\":{\"$\":{\"matchers\":[{\"match\":\"type\"}]}}}},\
          \"response\":{\"status\":404,\"headers\":{\"A\":\"1\"},\"body\":{\"a\":2}}}",
    );
    assert_eq!(
        first.conflicts_with_request_response(&second),
        vec![
            PactConflict { interaction: s("a"), description: s("Response status 200 != 404") },
            PactConflict {
                interaction: s("a"),
                description: s("Response headers None != {\"A\":\"1\"}")
            },
        ]
    );
}

#[test]
fn messages_conflict_with_requests_and_responses() {
    let first = interaction("{\"description\":\"a\"}");
    let message = Interaction::Message(Message::default());
    assert_eq!(
        first.conflicts_with(&message),
        vec![PactConflict {
            interaction: s("a"),
            description: s("You can not combine message and request/response interactions"),
        }]
    );
    let same_in_version_4 = Interaction::V4(V4Interaction::SynchronousHttp(first.as_v4_http()));
    assert_eq!(first.conflicts_with(&same_in_version_4), vec![]);
}

#[test]
fn kinds_of_version_4_have_names() {
    assert_eq!(V4InteractionType::from_str("Synchronous/HTTP"), Ok(V4InteractionType::Synchronous_HTTP));
    assert_eq!(
        V4InteractionType::from_str("Asynchronous/Messages"),
        Ok(V4InteractionType::Asynchronous_Messages)
    );
    assert_eq!(
        V4InteractionType::from_str("Synchronous/Messages"),
        Ok(V4InteractionType::Synchronous_Messages)
    );
    assert_eq!(
        V4InteractionType::from_str("other"),
        Err(s("'other' is not a valid V4 interaction type"))
    );
    assert_eq!(V4InteractionType::Synchronous_HTTP.to_text(), s("Synchronous/HTTP"));
    assert_eq!(V4InteractionType::Asynchronous_Messages.to_text(), s("Asynchronous/Messages"));
    assert_eq!(V4InteractionType::Synchronous_Messages.to_text(), s("Synchronous/Messages"));
    assert_eq!(V4InteractionType::default(), V4InteractionType::Synchronous_HTTP);
}

#[test]
fn version_4_interaction_of_a_request_is_read() {
    let read = interaction_from_json(
        "src",
        2,
        &json(
            "{\"type\":\"Synchronous/HTTP\",\"key\":\"k1\",\"_id\":\"i\",\"comments\":{\"text\":[\"c\"]},\
              \"providerStates\":[{\"name\":\"s\"}],\
              \"request\":{\"method\":\"post\"},\"response\":{\"status\":201}}",
        ),
    )
    .unwrap();
    match &read {
        V4Interaction::SynchronousHttp(http) => {
            assert_eq!(http.id, Some(s("i")));
            assert_eq!(http.key, Some(s("k1")));
            assert_eq!(http.description, "Interaction 2");
            assert_eq!(http.request.method, "POST");
            assert_eq!(http.response.status, 201);
            assert_eq!(http.comments.get("text"), Some(&json("[\"c\"]")));
        }
        _ => panic!("not an interaction of a request and a response"),
    }
    assert_eq!(read.v4_type(), V4InteractionType::Synchronous_HTTP);
    assert_eq!(read.key(), Some(s("k1")));
    assert_eq!(read.description(), s("Interaction 2"));
    assert_eq!(read.provider_states(), &vec![ProviderState::default("s")]);
    assert_eq!(
        read.to_json(),
        json(
            "{\"comments\":{\"text\":[\"c\"]},\"description\":\"Interaction 2\",\"key\":\"k1\",\
              \"providerStates\":[{\"name\":\"s\"}],\
              \"request\":{\"method\":\"POST\",\"path\":\"/\"},\"response\":{\"status\":201},\
              \"type\":\"Synchronous/HTTP\"}"
        )
    );
}

#[test]
fn version_4_interaction_of_a_message_is_read() {
    let read = interaction_from_json(
        "src",
        0,
        &json(
            "{\"type\":\"Asynchronous/Messages\",\"description\":\"m\",\"key\":\"k\",\
              \"contents\":{\"content\":{\"a\":1},\"encoded\":false},\
              \"metadata\":{\"contentType\":\"application/json\",\"n\":1},\
              \"matchingRules\":{\"content\":{\"$.a\":{\"matchers\":[{\"match\":\"type\"}]}}}}",
        ),
    )
    .unwrap();
    match &read {
        V4Interaction::AsynchronousMessage(message) => {
            assert_eq!(message.description, "m");
            assert_eq!(
                message.contents,
                OptionalBody::Present(
                    b"{\"a\":1}".to_vec(),
                    Some(ContentType::of("application", "json"))
                )
            );
            assert_eq!(message.metadata.get("n"), Some(&Json::Number(s("1"))));
            assert_eq!(message.message_content_type(), Some(ContentType::of("application", "json")));
            let older = message.as_message();
            assert_eq!(older.metadata.get("contentType"), Some(&s("application/json")));
            assert_eq!(older.metadata.get("n"), Some(&s("1")));
            assert!(older.matching_rules.rules_for_category("body").is_some());
            assert!(older.matching_rules.rules_for_category("content").is_none());
        }
        _ => panic!("not an interaction of a message"),
    }
    assert_eq!(
        read.to_json(),
        json(
            "{\"contents\":{\"content\":{\"a\":1},\"contentType\":\"application/json\",\"encoded\":false},\
              \"description\":\"m\",\"key\":\"k\",\
              \"matchingRules\":{\"content\":{\"$.a\":{\"combine\":\"AND\",\"matchers\":[{\"match\":\"type\"}]}}},\
              \"metadata\":{\"contentType\":\"application/json\",\"n\":1},\
              \"type\":\"Asynchronous/Messages\"}"
        )
    );
}

#[test]
fn version_4_interactions_that_cannot_be_read_are_reported() {
    assert_eq!(
        interaction_from_json("src", 0, &json("{}")),
        Err(s("Interaction 0 has no type attribute. It will be ignored. Source: src"))
    );
    assert_eq!(
        interaction_from_json("src", 1, &json("{\"type\":\"x\"}")),
        Err(s("Interaction 1 has an incorrect type attribute '\"x\"'. It will be ignored. Source: src"))
    );
    assert_eq!(
        interaction_from_json("file.json", 1, &json("{\"type\":\"Synchronous/Messages\"}")),
        Err(s("Interaction type 'Synchronous/Messages' is currently unimplemented. It will be ignored. Source: file.json"))
    );
    assert_eq!(
        interaction_from_json("src", 1, &json("{\"type\":\"Synchronous/HTTP\",\"response\":{\"status\":[]}}")),
        Err(s("Response status is not a number: []"))
    );
    let read = interactions_from_json(
        &json(
            "{\"interactions\":[{\"type\":\"Synchronous/HTTP\"},{\"type\":\"nothing\"},{},\
              {\"type\":\"Asynchronous/Messages\"},{\"type\":\"Synchronous/Messages\"}]}",
        ),
        "src",
    );
    assert_eq!(read.len(), 2);
    assert_eq!(read[0].description(), s("Interaction 0"));
    assert_eq!(read[1].description(), s("Interaction 3"));
    assert_eq!(read[1].v4_type(), V4InteractionType::Asynchronous_Messages);
    assert_eq!(interactions_from_json(&json("{\"interactions\":1}"), "src"), vec![]);
    assert_eq!(interactions_from_json(&json("{}"), "src"), vec![]);
}

#[test]
fn interactions_that_are_left_out_have_their_messages() {
    let document = json(
        "{\"interactions\":[{\"type\":\"Synchronous/HTTP\"},{\"type\":\"nothing\"},{},\
          {\"type\":\"Asynchronous/Messages\"},{\"type\":\"Synchronous/Messages\"},\
          {\"type\":\"Synchronous/HTTP\",\"response\":{\"status\":[]}}]}",
    );
    let faults = interaction_faults_from_json(&document, "src");
    assert_eq!(
        faults,
        vec![
            s("Interaction 1 has an incorrect type attribute '\"nothing\"'. It will be ignored. Source: src"),
            s("Interaction 2 has no type attribute. It will be ignored. Source: src"),
            s("Interaction type 'Synchronous/Messages' is currently unimplemented. It will be ignored. Source: src"),
            s("Response status is not a number: []"),
        ]
    );
    assert_eq!(interactions_from_json(&document, "src").len() + faults.len(), 6);
    assert_eq!(interaction_faults_from_json(&json("{\"interactions\":1}"), "src"), Vec::<String>::new());
    assert_eq!(interaction_faults_from_json(&json("{}"), "src"), Vec::<String>::new());
    assert_eq!(
        interaction_faults_from_json(&json("{\"interactions\":[{\"type\":\"Synchronous/HTTP\"}]}"), "src"),
        Vec::<String>::new()
    );
}

#[test]
fn key_is_made_from_the_content_alone() {
    let mut first = SynchronousHttp::default();
    first.description = s("d");
    let mut second = SynchronousHttp::default();
    second.description = s("d");
    second.id = Some(s("an id"));
    second.comments.insert(s("text"), json("[\"a comment\"]"));
    second.key = Some(s("an older key"));
    let key = first.with_key().key.unwrap();
    assert_eq!(second.with_key().key, Some(key.clone()));
    assert_eq!(first.calc_hash(), key);
    assert!(!key.is_empty());
    assert!(key.len() <= 16);
    assert!(key.chars().all(|c| c.is_ascii_hexdigit()));
    assert_ne!(key, "d");
    let mut other = SynchronousHttp::default();
    other.description = s("another");
    assert_ne!(other.with_key().key, Some(key.clone()));
    let mut other_request = SynchronousHttp::default();
    other_request.description = s("d");
    other_request.request.method = s("POST");
    assert_ne!(other_request.with_key().key, Some(key.clone()));
    assert_eq!(second.with_key().id, Some(s("an id")));
    assert_eq!(first.to_json().get("key"), Some(&Json::String(key)));
    assert_eq!(second.to_json().get("key"), Some(&Json::String(s("an older key"))));
}

#[test]
fn key_of_a_message_is_made_from_its_content_alone() {
    let mut first = AsynchronousMessage::default();
    first.contents = OptionalBody::Present(b"x".to_vec(), None);
    let mut second = AsynchronousMessage::default();
    second.contents = OptionalBody::Present(b"x".to_vec(), None);
    second.id = Some(s("id"));
    second.comments.insert(s("a"), Json::Null);
    assert_eq!(first.with_key().key, second.with_key().key);
    assert_eq!(first.with_key().key, Some(first.calc_hash()));
    let mut third = AsynchronousMessage::default();
    third.contents = OptionalBody::Present(b"y".to_vec(), None);
    assert_ne!(first.with_key().key, third.with_key().key);
    assert_eq!(AsynchronousMessage::default().description, "Asynchronous/Message Interaction");
    assert_eq!(SynchronousHttp::default().description, "Synchronous/HTTP Interaction");
}

#[test]
fn interactions_convert_between_versions() {
    let older = interaction(
        "{\"_id\":\"i\",\"description\":\"d\",\"providerStates\":[{\"name\":\"s\"}],\
          \"request\":{\"method\":\"PUT\",\"path\":\"/p\",\"headers\":{\"A\":\"1\"},\"body\":\"x\"},\
          \"response\":{\"status\":204}}",
    );
    let newer = older.as_v4_http();
    assert_eq!(newer.id, Some(s("i")));
    assert_eq!(newer.description, "d");
    assert_eq!(newer.request.method, "PUT");
    assert_eq!(newer.request.path, "/p");
    assert_eq!(newer.request.headers, older.request.headers);
    assert_eq!(newer.request.body, older.request.body);
    assert_eq!(newer.response.status, 204);
    assert_eq!(newer.key, Some(newer.calc_hash()));
    assert!(newer.comments.is_empty());
    assert_eq!(newer.as_request_response(), older);
    let any = Interaction::RequestResponse(interaction("{\"description\":\"d\"}"));
    assert!(any.is_request_response());
    assert!(!any.is_message());
    assert!(!any.is_v4());
    assert_eq!(any.type_of(), s("V3 Synchronous/HTTP"));
    assert_eq!(any.description(), s("d"));
    assert_eq!(any.id(), None);
    assert_eq!(any.as_message(), None);
    assert_eq!(any.as_v4_async_message(), None);
    assert_eq!(any.as_v4_sync_message(), None);
    assert_eq!(any.matching_rules(), None);
    assert_eq!(any.as_v4_http().unwrap().description, "d");
    let lifted = Interaction::V4(any.as_v4().unwrap());
    assert!(lifted.is_v4());
    assert!(lifted.is_request_response());
    assert_eq!(lifted.type_of(), s("V4 Synchronous/HTTP"));
    assert_eq!(lifted.as_request_response(), any.as_request_response());
}

#[test]
fn messages_convert_between_versions() {
    let mut message = Message::default();
    message.description = s("m");
    message.contents = OptionalBody::Present(b"{}".to_vec(), None);
    message.metadata.insert(s("contentType"), s("application/json"));
    let mut rules = MatchingRules::default();
    rules.add_rule_list("body", "$.a", RuleList::new(MatchingRule::Type));
    message.matching_rules = rules;
    let newer = message.as_v4_async_message();
    assert_eq!(newer.description, "m");
    assert_eq!(newer.metadata.get("contentType"), Some(&Json::String(s("application/json"))));
    assert!(newer.matching_rules.rules_for_category("content").is_some());
    assert_eq!(newer.key, Some(newer.calc_hash()));
    assert_eq!(newer.as_message(), message);
    let any = Interaction::Message(Message::default());
    assert!(any.is_message());
    assert!(!any.is_request_response());
    assert_eq!(any.type_of(), s("V3 Asynchronous/Messages"));
    assert_eq!(any.as_request_response(), None);
    assert_eq!(any.as_v4_http(), None);
    assert!(any.matching_rules().is_some());
    assert_eq!(
        Interaction::V4(any.as_v4().unwrap()).type_of(),
        s("V4 Asynchronous/Messages")
    );
    assert_eq!(message.message_content_type(), Some(ContentType::of("application", "json")));
}

#[test]
fn message_of_version_3_is_read_and_written() {
    let document = json(
        "{\"_id\":\"i\",\"description\":\"m\",\"providerStates\":[{\"name\":\"s\"}],\
          \"contents\":{\"a\":1},\"metaData\":{\"contentType\":\"application/json\",\"n\":2}}",
    );
    let message = Message::from_json(0, &document, &PactSpecification::V3).unwrap();
    assert_eq!(message.id, Some(s("i")));
    assert_eq!(message.contents, OptionalBody::Present(b"{\"a\":1}".to_vec(), None));
    assert_eq!(message.metadata.get("n"), Some(&s("2")));
    assert_eq!(
        message.to_json(&PactSpecification::V3),
        json(
            "{\"contents\":{\"a\":1},\"description\":\"m\",\
              \"metaData\":{\"contentType\":\"application/json\",\"n\":\"2\"},\
              \"providerStates\":[{\"name\":\"s\"}]}"
        )
    );
    assert_eq!(Message::from_json(4, &json("{}"), &PactSpecification::V3).unwrap().description, "Message 4");
    assert_eq!(
        Message::from_json(0, &document, &PactSpecification::V2),
        Err(s("Message::from_json: This implementation only supports V3 of the Pact specification"))
    );
}

#[test]
fn messages_with_replies_are_written() {
    let messages = SynchronousMessages {
        id: None,
        key: None,
        description: s("ask"),
        provider_states: vec![],
        request: OptionalBody::Present(b"q".to_vec(), None),
        response: vec![OptionalBody::Empty, OptionalBody::Null],
        comments: SortedMap::new(),
    };
    assert_eq!(
        messages.to_json(),
        json(
            "{\"description\":\"ask\",\
              \"request\":{\"content\":\"q\",\"contentType\":\"*/*\",\"encoded\":false},\
              \"response\":[{\"content\":\"\"},null],\"type\":\"Synchronous/Messages\"}"
        )
    );
    let of_version_4 = V4Interaction::SynchronousMessages(messages);
    assert_eq!(of_version_4.comments().len(), 0);
    let any = of_version_4.to_super();
    assert_eq!(any.as_v4(), Some(of_version_4));
    assert_eq!(any.type_of(), s("V4 Synchronous/Messages"));
    assert!(!any.is_request_response());
    assert!(!any.is_message());
    assert!(any.as_v4_sync_message().is_some());
}

#[test]
fn content_type_of_a_message_is_named_by_its_metadata() {
    let mut message = AsynchronousMessage::default();
    assert_eq!(message.lookup_content_type(), None);
    message.metadata.insert(s("other"), Json::String(s("x")));
    message.metadata.insert(s("Content-Type"), Json::String(s("text/plain")));
    assert_eq!(message.lookup_content_type(), Some(s("text/plain")));
    let mut second = AsynchronousMessage::default();
    second.metadata.insert(s("contentType"), Json::Number(s("1")));
    assert_eq!(second.lookup_content_type(), Some(s("")));
    assert_eq!(second.message_content_type(), None);
}

#[test]
fn interaction_that_is_written_is_read_again_with_what_it_had() {
    let mut params: SortedMap<Json> = SortedMap::new();
    params.insert(s("id"), Json::Number(s("7")));
    let mut query: SortedMap<Vec<String>> = SortedMap::new();
    query.insert(s("b"), vec![s("2"), s("3")]);
    query.insert(s("a"), vec![s("1")]);
    let mut written = RequestResponseInteraction::default();
    written.description = s("a request for an order");
    written.provider_states = vec![
        ProviderState { name: s("an order exists"), params },
        ProviderState { name: s("the shop is open"), params: SortedMap::new() },
    ];
    written.request.path = s("/orders/7");
    written.request.query = Some(query);
    written.request.body = OptionalBody::Null;
    let mut headers: SortedMap<Vec<String>> = SortedMap::new();
    headers.insert(s("Accept"), vec![s("application/json"), s("text/plain;q=0.5")]);
    headers.insert(s("X-Empty"), vec![s("")]);
    written.request.headers = Some(headers);
    written.request.matching_rules.add_rule_list("path", "", RuleList::new(MatchingRule::Regex(s("/orders/\\d+"))));
    written.request.matching_rules.add_rule_list("query", "a", RuleList::new(MatchingRule::Integer));
    written.request.matching_rules.add_rule_list("query", "b", RuleList { rules: vec![MatchingRule::MinType(1), MatchingRule::Type], rule_logic: RuleLogic::Or });
    let mut attributes: SortedMap<Json> = SortedMap::new();
    attributes.insert(s("digits"), Json::Number(s("3")));
    let mut at_paths: SortedMap<Generator> = SortedMap::new();
    at_paths.insert(s("a"), Generator { kind: s("RandomInt"), attributes });
    written.request.generators.categories.insert(s("query"), at_paths);
    written.response.status = 404;
    written.response.body = OptionalBody::Empty;
    written.response.matching_rules.add_rule_list("status", "", RuleList::new(MatchingRule::Integer));
    let document = written.to_json(&PactSpecification::V3);
    let read = RequestResponseInteraction::from_json(3, &document, &PactSpecification::V3).unwrap();
    assert_eq!(read.id, None);
    assert_eq!(read.description, written.description);
    assert_eq!(read.provider_states, written.provider_states);
    assert_eq!(read.request.path, written.request.path);
    assert_eq!(read.request.query, written.request.query);
    assert_eq!(read.request.headers, written.request.headers);
    assert_eq!(
        document.get("request").unwrap().get("headers").unwrap().get("Accept"),
        Some(&Json::String(s("application/json, text/plain;q=0.5")))
    );
    assert_eq!(read.request.body, OptionalBody::Null);
    assert_eq!(read.response.status, 404);
    assert_eq!(read.response.body, OptionalBody::Empty);
    assert_eq!(read, written);

    let earlier = written.to_json(&PactSpecification::V2);
    let read = RequestResponseInteraction::from_json(0, &earlier, &PactSpecification::V2).unwrap();
    assert_eq!(read.description, written.description);
    assert_eq!(
        read.provider_states,
        vec![ProviderState { name: s("an order exists"), params: SortedMap::new() }]
    );
    assert_eq!(read.request.path, written.request.path);
    assert_eq!(read.response.status, 404);
    assert_eq!(read.request.body, OptionalBody::Null);
    assert_eq!(read.response.body, OptionalBody::Empty);
}

#[test]
fn interaction_of_version_4_that_is_written_is_read_again_with_what_it_had() {
    let mut comments: SortedMap<Json> = SortedMap::new();
    comments.insert(s("text"), Json::Array(vec![Json::String(s("a note"))]));
    let mut http = SynchronousHttp::default();
    http.description = s("a request for an order");
    http.provider_states = vec![ProviderState { name: s("an order exists"), params: SortedMap::new() }];
    http.request.path = s("/orders/7");
    http.request.body = OptionalBody::Null;
    http.response.status = 201;
    http.response.body = OptionalBody::Empty;
    http.comments = comments;
    let document = http.to_json();
    assert_eq!(document.get("request").unwrap().get("body"), Some(&Json::Null));
    match interaction_from_json("src", 0, &document).unwrap() {
        V4Interaction::SynchronousHttp(read) => {
            assert_eq!(read.id, None);
            assert_eq!(read.key, http.with_key().key);
            assert_eq!(read.description, http.description);
            assert_eq!(read.provider_states, http.provider_states);
            assert_eq!(read.comments, http.comments);
            assert_eq!(read.request.path, http.request.path);
            assert_eq!(read.request.body, OptionalBody::Null);
            assert_eq!(read.response.status, 201);
            assert_eq!(read.response.body, OptionalBody::Empty);
        }
        _ => panic!("not an interaction of a request and a response"),
    }

    let mut metadata: SortedMap<Json> = SortedMap::new();
    metadata.insert(s("topic"), Json::String(s("orders")));
    let mut message = AsynchronousMessage::default();
    message.description = s("an order was made");
    message.key = Some(s("k7"));
    message.metadata = metadata;
    message.contents = OptionalBody::Null;
    let document = message.to_json();
    assert_eq!(document.get("contents"), Some(&Json::Null));
    match interaction_from_json("src", 1, &document).unwrap() {
        V4Interaction::AsynchronousMessage(read) => {
            assert_eq!(read.key, Some(s("k7")));
            assert_eq!(read.description, message.description);
            assert_eq!(read.provider_states, message.provider_states);
            assert_eq!(read.metadata, message.metadata);
            assert_eq!(read.contents, OptionalBody::Null);
            assert_eq!(read.comments, message.comments);
        }
        _ => panic!("not an interaction of a message"),
    }
}

#[test]
fn missing_bodies_are_not_written_in_version_4() {
    let http = SynchronousHttp::default();
    let document = http.to_json();
    assert_eq!(document.get("request").unwrap().get("body"), None);
    assert_eq!(document.get("response").unwrap().get("body"), None);
    match interaction_from_json("src", 0, &document).unwrap() {
        V4Interaction::SynchronousHttp(read) => {
            assert_eq!(read.request.body, OptionalBody::Missing);
            assert_eq!(read.response.body, OptionalBody::Missing);
        }
        _ => panic!("not an interaction of a request and a response"),
    }
    let message = AsynchronousMessage::default();
    assert_eq!(message.to_json().get("contents"), None);
}
