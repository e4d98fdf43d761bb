use pact_matching::collections::{Duplicate, SortedMap};
use pact_matching::interactions::{
    Interaction, RequestResponseInteraction, SynchronousMessages, V4Interaction, V4InteractionType,
};
use pact_matching::provider_states::ProviderState;
use pact_matching::bodies::OptionalBody;
use pact_matching::json::Json;
use pact_matching::merge::{merge_interactions, sort_interactions, MergeError};
use pact_matching::message::Message;
use pact_matching::content_types::ContentType;
use pact_matching::http_part::{
    part_build_generators, part_content_type, part_detect_content_type, part_has_header,
    part_has_text_body, part_header_value, HttpPart,
};
use pact_matching::models::{PactSpecification, Request, Response};
use pact_matching::v4::from_json;
use pact_matching::pacts::{
    determine_spec_version, http_interaction_from_json, load_pact_from_json,
    message_interaction_from_json, metadata_to_json, pact_rust_version,
    parse_interactions, parse_meta_data, spec_version_for, MessagePact, Metadata, Pact,
    RequestResponsePact, V4Pact,
};

fn s(text: &str) -> String {
    text.to_string()
}

fn json(text: &str) -> Json {
    Json::parse(text).unwrap()
}

fn metadata_with_version(name: &str, version: &str) -> Metadata {
    let mut group: SortedMap<String> = SortedMap::new();
    group.insert(s("version"), s(version));
    let mut metadata: Metadata = SortedMap::new();
    metadata.insert(s(name), group);
    metadata
}

fn version_of(text: &str) -> PactSpecification {
    determine_spec_version("a file", &metadata_with_version("pact-specification", text))
}

fn pact(text: &str) -> RequestResponsePact {
    RequestResponsePact::from_json("a file", &json(text)).unwrap()
}

fn interaction(description: &str, state: &str, method: &str) -> RequestResponseInteraction {
    let mut read = RequestResponseInteraction::default();
    read.description = s(description);
    if !state.is_empty() {
        read.provider_states.push(ProviderState::default(state));
    }
    read.request.method = s(method);
    read
}

fn pact_of(consumer: &str, provider: &str, interactions: Vec<RequestResponseInteraction>) -> RequestResponsePact {
    let mut made = RequestResponsePact::default();
    made.consumer.name = s(consumer);
    made.provider.name = s(provider);
    made.interactions = interactions;
    made
}

fn descriptions(pact: &RequestResponsePact) -> Vec<String> {
    pact.interactions.iter().map(|i| i.description.clone()).collect()
}

#[test]
fn version_of_the_specification_is_found_from_the_metadata() {
    assert_eq!(version_of("1.0.0"), PactSpecification::V1);
    assert_eq!(version_of("1"), PactSpecification::V1);
    assert_eq!(version_of("1.1.0"), PactSpecification::V1_1);
    assert_eq!(version_of("1.1"), PactSpecification::V1_1);
    assert_eq!(version_of("1.2.0"), PactSpecification::V1);
    assert_eq!(version_of("2.0.0"), PactSpecification::V2);
    assert_eq!(version_of("v2.3"), PactSpecification::V2);
    assert_eq!(version_of("3.0.0-beta.1+build"), PactSpecification::V3);
    assert_eq!(version_of("4.0"), PactSpecification::V4);
    assert_eq!(version_of("5.0.0"), PactSpecification::V1);
    assert_eq!(version_of("0.1.0"), PactSpecification::V1);
    assert_eq!(version_of("not a version"), PactSpecification::Unknown);
    assert_eq!(version_of(""), PactSpecification::Unknown);
}

#[test]
fn version_of_the_specification_defaults_to_version_3() {
    assert_eq!(determine_spec_version("f", &SortedMap::new()), PactSpecification::V3);
    let mut without_version: Metadata = SortedMap::new();
    without_version.insert(s("pactSpecification"), SortedMap::new());
    assert_eq!(determine_spec_version("f", &without_version), PactSpecification::V3);
    assert_eq!(
        determine_spec_version("f", &metadata_with_version("pactSpecification", "2.0.0")),
        PactSpecification::V2
    );
    let mut both = metadata_with_version("pactSpecification", "2.0.0");
    let mut older: SortedMap<String> = SortedMap::new();
    older.insert(s("version"), s("1.0.0"));
    both.insert(s("pact-specification"), older);
    assert_eq!(determine_spec_version("f", &both), PactSpecification::V1);
    assert_eq!(
        determine_spec_version("f", &metadata_with_version("other", "2.0.0")),
        PactSpecification::V3
    );
}

#[test]
fn parsed_version_numbers_stand_for_versions() {
    assert_eq!(spec_version_for(Some((1, 0))), PactSpecification::V1);
    assert_eq!(spec_version_for(Some((1, 1))), PactSpecification::V1_1);
    assert_eq!(spec_version_for(Some((1, 7))), PactSpecification::V1);
    assert_eq!(spec_version_for(Some((2, 9))), PactSpecification::V2);
    assert_eq!(spec_version_for(Some((3, 0))), PactSpecification::V3);
    assert_eq!(spec_version_for(Some((4, 0))), PactSpecification::V4);
    assert_eq!(spec_version_for(Some((9, 0))), PactSpecification::V1);
    assert_eq!(spec_version_for(None), PactSpecification::Unknown);
}

#[test]
fn metadata_are_read_with_the_names_of_today() {
    let read = parse_meta_data(&json(
        "{\"metadata\":{\"pact-specification\":{\"version\":\"2.0.0\"},\"pact-rust\":{\"version\":1},\
          \"other\":{\"a\":\"b\"},\"odd\":7}}",
    ));
    assert_eq!(read.len(), 4);
    assert_eq!(read.get("pactSpecification").unwrap().get("version"), Some(&s("2.0.0")));
    assert_eq!(read.get("pactRust").unwrap().get("version"), Some(&s("1")));
    assert_eq!(read.get("other").unwrap().get("a"), Some(&s("b")));
    assert_eq!(read.get("odd").unwrap().len(), 0);
    assert_eq!(read.get("pact-specification"), None);
    assert_eq!(parse_meta_data(&json("{}")).len(), 0);
    assert_eq!(parse_meta_data(&json("{\"metadata\":[]}")).len(), 0);
    assert_eq!(determine_spec_version("f", &read), PactSpecification::V2);
}

#[test]
fn metadata_always_record_the_version_written_for() {
    let read = parse_meta_data(&json(
        "{\"metadata\":{\"pact-specification\":{\"version\":\"1.0.0\"},\"pactRust\":{\"version\":\"old\"},\"x\":{\"a\":\"b\"}}}",
    ));
    let written = Json::Object(metadata_to_json(&read, &PactSpecification::V3));
    assert_eq!(
        written,
        json(
            "{\"pactRust\":{\"version\":\"0.1.0\"},\"pactSpecification\":{\"version\":\"3.0.0\"},\"x\":{\"a\":\"b\"}}"
        )
    );
    assert_eq!(pact_rust_version(), s("0.1.0"));
    let default = RequestResponsePact::default_metadata();
    assert_eq!(default.get("pact-specification").unwrap().get("version"), Some(&s("3.0.0")));
    assert_eq!(default.get("pact-rust").unwrap().get("version"), Some(&s("0.1.0")));
    assert_eq!(
        Json::Object(metadata_to_json(&default, &PactSpecification::V2)),
        json("{\"pactRust\":{\"version\":\"0.1.0\"},\"pactSpecification\":{\"version\":\"2.0.0\"}}")
    );
}

const V2_PACT: &str = "{\"consumer\":{\"name\":\"c\"},\"provider\":{\"name\":\"p\"},\
    \"interactions\":[{\"description\":\"d1\",\"providerState\":\"s\",\
        \"request\":{\"method\":\"GET\",\"path\":\"/a\",\"query\":\"q=1\",\"headers\":{\"Accept\":\"application/json\"}},\
        \"response\":{\"status\":200,\"headers\":{\"Content-Type\":\"application/json\"},\"body\":{\"ok\":true},\
            \"matchingRules\":{\"$.body.ok\":{\"match\":\"type\"}}}},\
      {\"description\":\"d2\",\
        \"request\":{\"method\":\"POST\",\"path\":\"/b\",\"body\":\"\"},\
        \"response\":{\"status\":201,\"body\":null}}],\
    \"metadata\":{\"pact-specification\":{\"version\":\"2.0.0\"},\"other\":{\"k\":\"v\"}}}";

#[test]
fn pact_of_version_2_is_written_as_it_was_read() {
    let read = pact(V2_PACT);
    assert_eq!(read.consumer.name, "c");
    assert_eq!(read.provider.name, "p");
    assert_eq!(read.specification_version, PactSpecification::V2);
    assert_eq!(read.specification_version(), PactSpecification::V2);
    assert_eq!(read.spec_version(), PactSpecification::V2);
    assert_eq!(read.interactions.len(), 2);
    let mut expected = json(V2_PACT);
    if let Json::Object(members) = &mut expected {
        members.insert(
            s("metadata"),
            json(
                "{\"other\":{\"k\":\"v\"},\"pactRust\":{\"version\":\"0.1.0\"},\"pactSpecification\":{\"version\":\"2.0.0\"}}",
            ),
        );
    }
    assert_eq!(read.to_json(PactSpecification::V2), expected);
    let again = RequestResponsePact::from_json("f", &read.to_json(PactSpecification::V2)).unwrap();
    assert_eq!(again.interactions, read.interactions);
    assert_eq!(again.to_json(PactSpecification::V2), read.to_json(PactSpecification::V2));
}

const V3_PACT: &str = "{\"consumer\":{\"name\":\"c\"},\"provider\":{\"name\":\"p\"},\
    \"interactions\":[{\"description\":\"d1\",\"providerStates\":[{\"name\":\"s\",\"params\":{\"n\":1}},{\"name\":\"t\"}],\
        \"request\":{\"method\":\"GET\",\"path\":\"/a\",\"query\":{\"q\":[\"1\",\"2\"]},\
            \"generators\":{\"path\":{\"regex\":\"/a\",\"type\":\"Regex\"}}},\
        \"response\":{\"status\":200,\"body\":\"plain\",\
            \"matchingRules\":{\"body\":{\"$\":{\"combine\":\"AND\",\"matchers\":[{\"match\":\"regex\",\"regex\":\"p.*\"}]}}}}}],\
    \"metadata\":{\"pactRust\":{\"version\":\"0.1.0\"},\"pactSpecification\":{\"version\":\"3.0.0\"}}}";

#[test]
fn pact_of_version_3_is_written_as_it_was_read() {
    let read = pact(V3_PACT);
    assert_eq!(read.specification_version, PactSpecification::V3);
    assert_eq!(read.to_json(PactSpecification::V3), json(V3_PACT));
    assert_eq!(read.default_file_name(), s("c-p.json"));
}

#[test]
fn pact_written_for_another_version_records_that_version() {
    let read = pact(V2_PACT);
    let written = read.to_json(PactSpecification::V3);
    let metadata = written.get("metadata").unwrap();
    assert_eq!(metadata.get("pactSpecification"), Some(&json("{\"version\":\"3.0.0\"}")));
    assert_eq!(metadata.get("pactRust"), Some(&json("{\"version\":\"0.1.0\"}")));
    assert_eq!(metadata.get("other"), Some(&json("{\"k\":\"v\"}")));
    let first = written.get("interactions").unwrap();
    match first {
        Json::Array(items) => {
            assert_eq!(items[0].get("providerStates"), Some(&json("[{\"name\":\"s\"}]")));
            assert_eq!(items[0].get("request").unwrap().get("query"), Some(&json("{\"q\":[\"1\"]}")));
        }
        _ => panic!("interactions are no array"),
    }
    let as_version_4 = read.to_json(PactSpecification::V4);
    assert_eq!(
        as_version_4.get("metadata").unwrap().get("pactSpecification"),
        Some(&json("{\"version\":\"4.0\"}"))
    );
    assert_eq!(as_version_4, read.as_v4_pact().to_v4_json());
}

#[test]
fn pact_has_defaults_for_what_is_missing() {
    let read = pact("{}");
    assert_eq!(read.consumer.name, "consumer");
    assert_eq!(read.provider.name, "provider");
    assert_eq!(read.interactions, vec![]);
    assert_eq!(read.specification_version, PactSpecification::V3);
    assert_eq!(pact("{\"interactions\": 1}").interactions, vec![]);
    assert_eq!(
        RequestResponsePact::from_json("f", &json("{\"interactions\": [{}, {\"response\": {\"status\": null}}]}")),
        Err(s("Response status is not a number: null"))
    );
    assert_eq!(
        parse_interactions(&json("{\"interactions\": [{}, {}]}"), PactSpecification::V2).unwrap().len(),
        2
    );
    let default = RequestResponsePact::default();
    assert_eq!(default.consumer.name, "default_consumer");
    assert_eq!(default.provider.name, "default_provider");
    assert_eq!(default.specification_version, PactSpecification::V3);
    assert_eq!(default.spec_version(), PactSpecification::V3);
}

const V4_PACT: &str = "{\"consumer\":{\"name\":\"c\"},\"provider\":{\"name\":\"p\"},\
    \"interactions\":[\
      {\"description\":\"d1\",\"key\":\"k1\",\"type\":\"Synchronous/HTTP\",\
        \"request\":{\"method\":\"GET\",\"path\":\"/a\",\"headers\":{\"A\":\"1\"},\
            \"body\":{\"content\":{\"a\":1},\"contentType\":\"application/json\",\"encoded\":false}},\
        \"response\":{\"status\":200}},\
      {\"description\":\"d2\",\"key\":\"k2\",\"type\":\"Synchronous/HTTP\",\
        \"request\":{\"method\":\"POST\",\"path\":\"/b\"},\"response\":{\"status\":404}}],\
    \"metadata\":{\"pactRust\":{\"version\":\"0.1.0\"},\"pactSpecification\":{\"version\":\"4.0\"}}}";

#[test]
fn pact_of_version_4_is_written_as_it_was_read() {
    let read = load_pact_from_json("src", &json(V4_PACT)).unwrap();
    assert_eq!(read.specification_version(), PactSpecification::V4);
    assert_eq!(read.consumer().name, "c");
    assert_eq!(read.provider().name, "p");
    assert_eq!(read.interactions().len(), 2);
    assert_eq!(read.to_json(PactSpecification::V4), Ok(json(V4_PACT)));
    assert_eq!(read.default_file_name(), s("c-p.json"));
    assert_eq!(read.metadata().get("pactSpecification").unwrap().get("version"), Some(&s("4.0")));
}

#[test]
fn pact_of_requests_in_version_4_has_an_earlier_form() {
    let read = V4Pact::from_json("src", &json(V4_PACT));
    assert!(read.has_interactions(V4InteractionType::Synchronous_HTTP));
    assert!(!read.has_interactions(V4InteractionType::Asynchronous_Messages));
    assert!(!read.has_mixed_interactions());
    let earlier = read.as_request_response_pact().unwrap();
    assert_eq!(earlier.specification_version, PactSpecification::V3);
    assert_eq!(earlier.interactions.len(), 2);
    for (newer, older) in read.interactions.iter().zip(earlier.interactions.iter()) {
        match newer {
            V4Interaction::SynchronousHttp(http) => {
                assert_eq!(older.description, http.description);
                assert_eq!(older.request.method, http.request.method);
                assert_eq!(older.request.path, http.request.path);
                assert_eq!(older.request.query, http.request.query);
                assert_eq!(older.request.headers, http.request.headers);
                assert_eq!(older.request.body, http.request.body);
                assert_eq!(older.response.status, http.response.status);
                assert_eq!(older.response.body, http.response.body);
            }
            _ => panic!("not an interaction of a request and a response"),
        }
    }
    assert_eq!(read.downgrade(&PactSpecification::V3), Ok(Pact::RequestResponse(earlier.duplicate())));
    assert_eq!(Pact::V4(read.duplicate()).as_request_response_pact(), Ok(earlier.duplicate()));
    assert_eq!(
        read.as_message_pact(),
        Err(s("A Pact with V4 Synchronous/HTTP interactions can't be downgraded to V3"))
    );
    assert!(read.has_only_interactions(V4InteractionType::Synchronous_HTTP));
    assert!(!read.has_only_interactions(V4InteractionType::Asynchronous_Messages));
    let written = read.to_json(PactSpecification::V3).unwrap();
    assert_eq!(written, earlier.to_json(PactSpecification::V3));
    assert_eq!(
        written.get("metadata").unwrap().get("pactSpecification"),
        Some(&json("{\"version\":\"3.0.0\"}"))
    );
    match written.get("interactions").unwrap() {
        Json::Array(items) => {
            assert_eq!(items.len(), 2);
            assert_eq!(
                items[0].get("request"),
                Some(&json("{\"body\":{\"a\":1},\"headers\":{\"A\":\"1\"},\"method\":\"GET\",\"path\":\"/a\"}"))
            );
            assert_eq!(items[1].get("response"), Some(&json("{\"status\":404}")));
        }
        _ => panic!("interactions are no array"),
    }
    assert!(V4Pact::default().to_json(PactSpecification::V2).is_ok());
}

fn mixed_pact() -> V4Pact {
    V4Pact::from_json(
        "src",
        &json(
            "{\"interactions\":[{\"type\":\"Synchronous/HTTP\",\"description\":\"a\"},\
              {\"type\":\"Asynchronous/Messages\",\"description\":\"b\"}]}",
        ),
    )
}

#[test]
fn pact_with_interactions_of_several_kinds_has_no_earlier_form() {
    let mixed = mixed_pact();
    assert!(mixed.has_mixed_interactions());
    assert!(mixed.has_interactions(V4InteractionType::Synchronous_HTTP));
    assert!(mixed.has_interactions(V4InteractionType::Asynchronous_Messages));
    assert_eq!(
        mixed.to_json(PactSpecification::V3),
        Err(s("A Pact with mixed interaction types can't be downgraded to V3"))
    );
    assert_eq!(
        mixed.to_json(PactSpecification::V1),
        Err(s("A Pact with mixed interaction types can't be downgraded to V1"))
    );
    assert_eq!(
        mixed.downgrade(&PactSpecification::V1_1),
        Err(s("A Pact with mixed interaction types can't be downgraded to V1_1"))
    );
    assert!(mixed.to_json(PactSpecification::V4).is_ok());
    assert_eq!(
        mixed.as_request_response_pact(),
        Err(s("A Pact with mixed interaction types can't be downgraded to V3"))
    );
    assert_eq!(
        mixed.as_message_pact(),
        Err(s("A Pact with mixed interaction types can't be downgraded to V3"))
    );
    assert_eq!(
        Pact::V4(mixed.duplicate()).as_request_response_pact(),
        Err(s("A Pact with mixed interaction types can't be downgraded to V3"))
    );
    assert_eq!(
        Pact::V4(mixed.duplicate()).as_message_pact(),
        Err(s("A Pact with mixed interaction types can't be downgraded to V3"))
    );
    assert!(!mixed.has_only_interactions(V4InteractionType::Synchronous_HTTP));
    assert!(!mixed.has_only_interactions(V4InteractionType::Asynchronous_Messages));
}

#[test]
fn pact_without_interactions_has_both_earlier_forms() {
    let empty = V4Pact::default();
    assert_eq!(empty.as_request_response_pact().unwrap().interactions.len(), 0);
    assert_eq!(empty.as_message_pact().unwrap().messages.len(), 0);
}

#[test]
fn pact_of_messages_in_version_4_becomes_a_pact_of_messages() {
    let messages = V4Pact::from_json(
        "src",
        &json(
            "{\"consumer\":{\"name\":\"c\"},\"interactions\":[{\"type\":\"Asynchronous/Messages\",\"description\":\"m\",\
              \"contents\":{\"content\":\"text\"}}],\"metadata\":{\"a\":{\"b\":\"c\",\"n\":1},\"z\":1}}",
        ),
    );
    match messages.downgrade(&PactSpecification::V3) {
        Ok(Pact::Message(older)) => {
            assert_eq!(older.messages.len(), 1);
            assert_eq!(older.messages[0].description, "m");
            assert_eq!(older.messages[0].contents, OptionalBody::Present(b"text".to_vec(), None));
            assert_eq!(older.metadata.get("a").unwrap().get("b"), Some(&s("\"c\"")));
            assert_eq!(older.metadata.get("a").unwrap().get("n"), Some(&s("1")));
            assert_eq!(older.metadata.get("z"), None);
        }
        _ => panic!("not a pact of messages"),
    }
    assert_eq!(messages.metadata().get("a").unwrap().get("b"), Some(&s("c")));
    assert_eq!(messages.as_message_pact().map(Pact::Message), messages.downgrade(&PactSpecification::V3));
    assert_eq!(
        messages.as_request_response_pact(),
        Err(s("A Pact with V4 Asynchronous/Messages interactions can't be downgraded to V3"))
    );
    let written = messages.to_json(PactSpecification::V3).unwrap();
    assert_eq!(
        written.get("messages"),
        Some(&json("[{\"contents\":\"text\",\"description\":\"m\"}]"))
    );
    assert_eq!(
        messages.to_json(PactSpecification::V2),
        Err(s("Message Pacts require minimum V3 specification"))
    );
}

#[test]
fn pact_of_messages_with_replies_has_no_earlier_form() {
    let mut pact = V4Pact::default();
    pact.interactions.push(V4Interaction::SynchronousMessages(SynchronousMessages {
        id: None,
        key: None,
        description: s("ask"),
        provider_states: vec![],
        request: OptionalBody::Missing,
        response: vec![],
        comments: SortedMap::new(),
    }));
    assert!(pact.has_interactions(V4InteractionType::Synchronous_Messages));
    assert_eq!(
        pact.to_json(PactSpecification::V2),
        Err(s("A Pact with V4 Synchronous/Messages interactions can't be downgraded to V2"))
    );
}

#[test]
fn pacts_are_loaded_by_what_they_hold() {
    assert_eq!(
        load_pact_from_json("src", &json("[]")),
        Err(s("Failed to parse Pact JSON from source 'src' - it is not a valid pact file"))
    );
    match load_pact_from_json("src", &json("{\"messages\":[{\"description\":\"m\"}]}")).unwrap() {
        Pact::Message(read) => {
            assert_eq!(read.messages.len(), 1);
            assert_eq!(read.specification_version, PactSpecification::V3);
        }
        _ => panic!("not a pact of messages"),
    }
    match load_pact_from_json("src", &json(V2_PACT)).unwrap() {
        Pact::RequestResponse(read) => assert_eq!(read, pact(V2_PACT)),
        _ => panic!("not a pact of requests and responses"),
    }
    match load_pact_from_json("src", &json(V4_PACT)).unwrap() {
        Pact::V4(read) => assert_eq!(read, V4Pact::from_json("src", &json(V4_PACT))),
        _ => panic!("not a pact of version 4"),
    }
    assert_eq!(
        load_pact_from_json(
            "src",
            &json("{\"messages\":[{}],\"metadata\":{\"pactSpecification\":{\"version\":\"2.0.0\"}}}")
        ),
        Err(s("Message::from_json: This implementation only supports V3 of the Pact specification"))
    );
}

#[test]
fn pact_of_messages_is_read_and_written() {
    let document = "{\"consumer\":{\"name\":\"c\"},\"provider\":{\"name\":\"p\"},\
        \"messages\":[{\"contents\":{\"a\":1},\"description\":\"m\",\"metaData\":{\"contentType\":\"application/json\"}}],\
        \"metadata\":{\"pactRust\":{\"version\":\"0.1.0\"},\"pactSpecification\":{\"version\":\"3.0.0\"}}}";
    let read = MessagePact::from_json("src", &json(document)).unwrap();
    assert_eq!(read.to_json(PactSpecification::V3), Ok(json(document)));
    assert_eq!(read.to_json(PactSpecification::V1), Err(s("Message Pacts require minimum V3 specification")));
    let newer = read.as_v4_pact();
    assert_eq!(newer.interactions.len(), 1);
    assert_eq!(newer.interactions[0].v4_type(), V4InteractionType::Asynchronous_Messages);
    assert_eq!(read.to_json(PactSpecification::V4), Ok(newer.to_v4_json()));
    assert_eq!(MessagePact::default().default_file_name(), s("default_consumer-default_provider.json"));
    let any = Pact::Message(read);
    assert_eq!(
        any.as_request_response_pact(),
        Err(s("Can't convert a Message Pact to a different type"))
    );
    assert!(any.as_message_pact().is_ok());
    assert_eq!(any.as_v4_pact().interactions.len(), 1);
    assert_eq!(
        Pact::RequestResponse(RequestResponsePact::default()).as_message_pact(),
        Err(s("Can't convert a Request/response Pact to a different type"))
    );
}

#[test]
fn interactions_are_added_to_pacts_that_can_hold_them() {
    let mut pact = RequestResponsePact::default();
    let request = Interaction::RequestResponse(interaction("a", "", "GET"));
    assert_eq!(pact.add_interaction(&request), Ok(()));
    assert_eq!(pact.interactions.len(), 1);
    assert_eq!(
        pact.add_interaction(&Interaction::Message(Message::default())),
        Err(s("Can only add request/response interactions to this Pact"))
    );
    assert_eq!(pact.interactions.len(), 1);
    let newer = Interaction::V4(V4Interaction::SynchronousHttp(interaction("b", "", "GET").as_v4_http()));
    assert_eq!(pact.add_interaction(&newer), Ok(()));
    assert_eq!(descriptions(&pact), vec![s("a"), s("b")]);
    let mut v4 = V4Pact::default();
    assert_eq!(v4.add_interaction(&request), Ok(()));
    assert_eq!(v4.add_interaction(&Interaction::Message(Message::default())), Ok(()));
    assert_eq!(v4.interactions.len(), 2);
    assert!(v4.has_mixed_interactions());
}

#[test]
fn pact_merged_with_itself_holds_the_same_interactions() {
    let given = pact_of(
        "c",
        "p",
        vec![interaction("b", "", "GET"), interaction("a", "s", "POST"), interaction("a", "", "PUT")],
    );
    let merged = given.merge(&Pact::RequestResponse(pact_of("c", "p", given.interactions.iter().map(|i| same(i)).collect()))).unwrap();
    assert_eq!(merged.interactions.len(), 3);
    assert_eq!(merged.consumer.name, "c");
    assert_eq!(merged.provider.name, "p");
    assert_eq!(merged.metadata, given.metadata);
    assert_eq!(merged.specification_version, given.specification_version);
    assert_eq!(descriptions(&merged), vec![s("a"), s("b"), s("a")]);
    assert_eq!(merged.interactions[0].request.method, "PUT");
    assert_eq!(merged.interactions[1].request.method, "GET");
    assert_eq!(merged.interactions[2].request.method, "POST");
    for i in &given.interactions {
        assert_eq!(merged.interactions.iter().filter(|m| *m == i).count(), 1);
    }
    let again = merged.merge(&Pact::RequestResponse(given)).unwrap();
    assert_eq!(again.interactions, merged.interactions);
}

fn same(i: &RequestResponseInteraction) -> RequestResponseInteraction {
    let mut copy = interaction(
        &i.description,
        &i.provider_states.first().map(|p| p.name.clone()).unwrap_or_default(),
        &i.request.method,
    );
    copy.response.status = i.response.status;
    copy
}

#[test]
fn pacts_with_different_descriptions_merge_into_all_of_them() {
    let first = pact_of("c", "p", vec![interaction("d3", "", "GET"), interaction("d1", "", "GET")]);
    let second = pact_of("c", "p", vec![interaction("d4", "", "POST"), interaction("d2", "", "POST")]);
    let merged = first.merge(&Pact::RequestResponse(second)).unwrap();
    assert_eq!(merged.interactions.len(), 4);
    assert_eq!(descriptions(&merged), vec![s("d1"), s("d2"), s("d3"), s("d4")]);
    assert_eq!(merged.interactions[1].request.method, "POST");
    let other_way = pact_of("c", "p", vec![interaction("d4", "", "POST"), interaction("d2", "", "POST")])
        .merge(&Pact::RequestResponse(pact_of("c", "p", vec![interaction("d3", "", "GET"), interaction("d1", "", "GET")])))
        .unwrap();
    assert_eq!(descriptions(&other_way), descriptions(&merged));
}

#[test]
fn interactions_are_ordered_by_provider_states_and_then_descriptions() {
    let first = pact_of(
        "c",
        "p",
        vec![interaction("z", "", "GET"), interaction("a", "t", "GET"), interaction("b", "s", "GET")],
    );
    let merged = first.merge(&Pact::RequestResponse(pact_of("c", "p", vec![interaction("y", "s", "GET")]))).unwrap();
    assert_eq!(descriptions(&merged), vec![s("z"), s("b"), s("y"), s("a")]);
}

#[test]
fn of_two_interactions_with_the_same_name_the_one_of_this_pact_is_kept() {
    let mut mine = interaction("d", "s", "GET");
    mine.response.body = OptionalBody::Present(b"mine".to_vec(), None);
    let mut theirs = interaction("d", "s", "GET");
    theirs.response.body = OptionalBody::Present(b"theirs".to_vec(), None);
    let merged = pact_of("c", "p", vec![mine])
        .merge(&Pact::RequestResponse(pact_of("c", "p", vec![theirs, interaction("e", "s", "GET")])))
        .unwrap();
    assert_eq!(descriptions(&merged), vec![s("d"), s("e")]);
    assert_eq!(merged.interactions[0].response.body, OptionalBody::Present(b"mine".to_vec(), None));
}

#[test]
fn pacts_with_conflicting_interactions_do_not_merge() {
    let first = pact_of("c", "p", vec![interaction("other", "", "GET"), interaction("a request", "s", "GET")]);
    let second = pact_of("c", "p", vec![interaction("a request", "s", "POST")]);
    match first.merge(&Pact::RequestResponse(second)) {
        Err(MergeError::Conflicts(conflicts)) => {
            assert_eq!(conflicts.len(), 1);
            assert_eq!(conflicts[0].len(), 1);
            assert_eq!(conflicts[0][0].interaction, "a request");
            assert_eq!(conflicts[0][0].description, "Request method GET != POST");
            assert_eq!(
                MergeError::Conflicts(conflicts).message(),
                s("Unable to merge pacts, as there were 1 conflict(s) between the interactions. Please clean out your pact directory before running the tests.")
            );
        }
        other => panic!("merged or failed otherwise: {:?}", other),
    }
}

#[test]
fn pacts_between_other_parties_do_not_merge() {
    let first = pact_of("c", "p", vec![]);
    assert_eq!(
        first.merge(&Pact::RequestResponse(pact_of("c", "q", vec![]))),
        Err(MergeError::DifferentEndpoints)
    );
    assert_eq!(
        first.merge(&Pact::RequestResponse(pact_of("d", "p", vec![]))),
        Err(MergeError::DifferentEndpoints)
    );
    assert_eq!(
        MergeError::DifferentEndpoints.message(),
        s("Unable to merge pacts, as they have different consumers or providers")
    );
    let mut v4 = V4Pact::default();
    v4.consumer.name = s("c");
    v4.provider.name = s("q");
    assert_eq!(v4.merge(&Pact::RequestResponse(pact_of("c", "p", vec![]))), Err(MergeError::DifferentEndpoints));
}

#[test]
fn interactions_of_another_kind_do_not_merge_into_requests() {
    let mut messages = MessagePact::default();
    messages.consumer.name = s("c");
    messages.provider.name = s("p");
    messages.messages.push(Message::default());
    messages.messages.push(Message::default());
    let expected = vec![
        s("Can't convert interaction of type V3 Asynchronous/Messages to V3 Synchronous/HTTP"),
        s("Can't convert interaction of type V3 Asynchronous/Messages to V3 Synchronous/HTTP"),
    ];
    assert_eq!(
        pact_of("c", "p", vec![]).merge(&Pact::Message(messages)),
        Err(MergeError::TypeMismatch(expected.clone()))
    );
    assert_eq!(
        MergeError::TypeMismatch(expected).message(),
        s("Unable to merge pacts: Can't convert interaction of type V3 Asynchronous/Messages to V3 Synchronous/HTTP, Can't convert interaction of type V3 Asynchronous/Messages to V3 Synchronous/HTTP")
    );
    let mut with_one = MessagePact::default();
    with_one.consumer.name = s("c");
    with_one.provider.name = s("p");
    with_one.messages.push(Message::default());
    match pact_of("c", "p", vec![interaction("a", "", "GET")]).merge(&Pact::Message(with_one)) {
        Err(MergeError::Conflicts(conflicts)) => {
            assert_eq!(
                conflicts[0][0].description,
                "You can not combine message and request/response interactions"
            );
        }
        other => panic!("merged or failed otherwise: {:?}", other),
    }
}

#[test]
fn pacts_of_version_4_merge_by_their_keys() {
    let mut first = V4Pact::default();
    first.add_interaction(&Interaction::RequestResponse(interaction("b", "", "GET"))).unwrap();
    first.add_interaction(&Interaction::RequestResponse(interaction("a", "", "GET"))).unwrap();
    let merged_with_itself = first.merge(&Pact::V4(V4Pact::from_json("src", &first.to_v4_json()))).unwrap();
    assert_eq!(merged_with_itself.interactions.len(), 2);
    let mut keys: Vec<String> = first.interactions.iter().map(|i| i.key().unwrap()).collect();
    keys.sort();
    let merged_keys: Vec<String> = merged_with_itself.interactions.iter().map(|i| i.key().unwrap()).collect();
    assert_eq!(merged_keys, keys);
    let other = pact_of("", "", vec![interaction("c", "", "GET"), interaction("a", "", "GET")]);
    let merged = first.merge(&Pact::RequestResponse(other)).unwrap();
    assert_eq!(merged.interactions.len(), 3);
    let conflicting = pact_of("", "", vec![interaction("a", "", "DELETE")]);
    match first.merge(&Pact::RequestResponse(conflicting)) {
        Err(MergeError::Conflicts(conflicts)) => {
            assert_eq!(conflicts[0][0].description, "Request method GET != DELETE");
        }
        other => panic!("merged or failed otherwise: {:?}", other),
    }
    let mut messages = MessagePact::default();
    messages.consumer.name = s("");
    messages.provider.name = s("");
    messages.messages.push(Message::default());
    let with_message = first.merge(&Pact::Message(messages)).unwrap();
    assert_eq!(with_message.interactions.len(), 3);
    assert!(with_message.has_mixed_interactions());
}

#[test]
fn any_two_pacts_merge_by_the_kind_of_the_first() {
    let first = Pact::RequestResponse(pact_of("c", "p", vec![interaction("a", "", "GET")]));
    let second = Pact::RequestResponse(pact_of("c", "p", vec![interaction("b", "", "GET")]));
    match first.merge(&second).unwrap() {
        Pact::RequestResponse(merged) => assert_eq!(descriptions(&merged), vec![s("a"), s("b")]),
        _ => panic!("not a pact of requests and responses"),
    }
    let mut messages = MessagePact::default();
    messages.messages.push(Message::default());
    let same = Pact::Message(MessagePact::from_json("src", &Pact::Message(messages).to_json(PactSpecification::V3).unwrap()).unwrap());
    match same.merge(&same).unwrap() {
        Pact::V4(merged) => assert_eq!(merged.interactions.len(), 1),
        _ => panic!("not a pact of version 4"),
    }
}

#[test]
fn interactions_are_sorted_and_merged() {
    let items: Vec<Interaction> = ["c", "a", "b", "a"]
        .iter()
        .map(|d| Interaction::RequestResponse(interaction(d, "", "GET")))
        .collect();
    let sorted = sort_interactions(&items, false);
    let names: Vec<String> = sorted.iter().map(|i| i.description()).collect();
    assert_eq!(names, vec![s("a"), s("a"), s("b"), s("c")]);
    assert_eq!(sort_interactions(&vec![], true), vec![]);
    let right: Vec<Interaction> = ["d", "a"]
        .iter()
        .map(|d| Interaction::RequestResponse(interaction(d, "", "POST")))
        .collect();
    let merged = merge_interactions(&items, &right, false);
    let merged_names: Vec<String> = merged.iter().map(|i| i.description()).collect();
    assert_eq!(merged_names, vec![s("a"), s("a"), s("b"), s("c"), s("d")]);
    assert_eq!(merged[0].as_request_response().unwrap().request.method, "GET");
    assert_eq!(merged[4].as_request_response().unwrap().request.method, "POST");
}

#[test]
fn single_interactions_are_read_for_a_version() {
    let document = json("{\"description\":\"d\",\"type\":\"Synchronous/HTTP\"}");
    match http_interaction_from_json("src", &document, &PactSpecification::V4).unwrap() {
        Interaction::V4(read) => assert_eq!(read.v4_type(), V4InteractionType::Synchronous_HTTP),
        _ => panic!("not an interaction of version 4"),
    }
    match http_interaction_from_json("src", &document, &PactSpecification::V2).unwrap() {
        Interaction::RequestResponse(read) => assert_eq!(read.description, "d"),
        _ => panic!("not an interaction of a request and a response"),
    }
    match message_interaction_from_json("src", &document, &PactSpecification::V3).unwrap() {
        Interaction::Message(read) => assert_eq!(read.description, "d"),
        _ => panic!("not a message"),
    }
    assert_eq!(
        message_interaction_from_json("src", &json("{}"), &PactSpecification::V4),
        Err(s("Interaction 0 has no type attribute. It will be ignored. Source: src"))
    );
    assert_eq!(
        message_interaction_from_json("src", &json("{}"), &PactSpecification::V1),
        Err(s("Message::from_json: This implementation only supports V3 of the Pact specification"))
    );
    match from_json("src", &json(V4_PACT)) {
        Pact::V4(read) => assert_eq!(read.interactions.len(), 2),
        _ => panic!("not a pact of version 4"),
    }
}

#[test]
fn parts_give_what_they_have_in_common() {
    let request = Request::from_json(
        &json("{\"headers\":{\"Content-Type\":\"text/plain\"},\"body\":\"hello\",\"generators\":{\"body\":{\"$.a\":{\"type\":\"Uuid\"}}}}"),
        &PactSpecification::V3,
    )
    .unwrap();
    assert_eq!(part_header_value(&request, "content-type"), Some(s("text/plain")));
    assert!(part_has_header(&request, "CONTENT-TYPE"));
    assert!(!part_has_header(&request, "Accept"));
    assert_eq!(part_content_type(&request), Some(ContentType::of("text", "plain")));
    assert_eq!(part_detect_content_type(&request), Some(ContentType::of("text", "plain")));
    assert!(part_has_text_body(&request));
    assert_eq!(part_build_generators(&request, "body").len(), 1);
    assert_eq!(request.headers(), &request.headers);
    assert_eq!(request.body(), &request.body);
    assert_eq!(HttpPart::matching_rules(&request), &request.matching_rules);
    assert_eq!(HttpPart::generators(&request), &request.generators);
    let response = Response::default();
    assert_eq!(part_content_type(&response), None);
    assert!(!part_has_text_body(&response));
    assert_eq!(part_content_type(&response.as_v4_response()), None);
    assert_eq!(part_header_value(&request.as_v4_request(), "Content-Type"), Some(s("text/plain")));
}
