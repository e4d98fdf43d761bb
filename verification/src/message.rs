//! Messages as pacts of version 3 of the specification hold them.

use vstd::prelude::*;
use crate::bodies::{body_json, body_of_json, body_type, BodyModel, OptionalBody};
use crate::collections::{lookup, put, Duplicate, Entries, Same, SortedMap};
use crate::content_types::{
    detect_content_type_from_bytes, detected_type, parsed_content_type, unknown_type, ContentType,
    ContentTypeModel,
};
use crate::generators::{
    generators_from, generators_from_json, generators_members, generators_to_json, no_generators,
    Generators, GeneratorsModel,
};
use crate::json::{lemma_json_model, member, plain_text, Json, JsonModel};
use crate::matchingrules::{
    matchers_from, matchers_from_json, matchers_json, matchers_to_json, no_rules, CategoryModel,
    MatchingRules,
};
use crate::models::{nested_forms, PactSpecification};
use crate::provider_states::{
    states_json, states_of, states_to_json, ProviderState, StateModel,
};
use crate::text::{decimal, decimal_string};

verus! {

/// The mathematical value of a `Message`.
pub struct MessageModel {
    pub id: Option<Seq<char>>,
    pub description: Seq<char>,
    pub provider_states: Seq<StateModel>,
    pub contents: BodyModel,
    pub metadata: Entries<Seq<char>>,
    pub matching_rules: Entries<CategoryModel>,
    pub generators: GeneratorsModel,
}

/// A message that a provider sends to a consumer.
#[derive(Debug, PartialEq, Eq, Hash)]
pub struct Message {
    /// The identifier that a broker gave the message, if one did.
    pub id: Option<String>,
    /// The description of the message.
    pub description: String,
    /// The provider states of the message.
    pub provider_states: Vec<ProviderState>,
    /// The contents of the message.
    pub contents: OptionalBody,
    /// The metadata of the message.
    pub metadata: SortedMap<String>,
    /// The matching rules.
    pub matching_rules: MatchingRules,
    /// The generators.
    pub generators: Generators,
}

impl DeepView for Message {
    type V = MessageModel;

    open spec fn deep_view(&self) -> MessageModel {
        MessageModel {
            id: self.id.deep_view(),
            description: self.description@,
            provider_states: self.provider_states.deep_view(),
            contents: self.contents.deep_view(),
            metadata: self.metadata.deep_view(),
            matching_rules: self.matching_rules.deep_view(),
            generators: self.generators.deep_view(),
        }
    }
}

impl Duplicate for Message {
    fn duplicate(&self) -> (r: Message) {
        Message {
            id: self.id.duplicate(),
            description: self.description.clone(),
            provider_states: self.provider_states.duplicate(),
            contents: self.contents.duplicate(),
            metadata: self.metadata.duplicate(),
            matching_rules: self.matching_rules.duplicate(),
            generators: self.generators.duplicate(),
        }
    }
}

impl Same for Message {
    fn same(&self, other: &Message) -> (b: bool) {
        self.id.same(&other.id) && self.description == other.description
            && self.provider_states.same(&other.provider_states) && self.contents.same(
            &other.contents,
        ) && self.metadata.same(&other.metadata) && self.matching_rules.same(
            &other.matching_rules,
        ) && self.generators.same(&other.generators)
    }
}

/// The content type of a message: the one that its contents record; else
/// the one that `declared` writes, where it writes one; else the one that
/// the first bytes of the contents show.
pub open spec fn message_type(contents: BodyModel, declared: Option<Seq<char>>) -> Option<
    ContentTypeModel,
> {
    match body_type(contents) {
        Some(c) => Some(c),
        None => {
            let written = match declared {
                Some(text) => parsed_content_type(text),
                None => None,
            };
            match written {
                Some(c) => Some(c),
                None => match contents {
                    BodyModel::Present(bytes, _) => detected_type(bytes),
                    _ => None,
                },
            }
        },
    }
}

/// Finds the content type of a message from its contents and from the
/// content type that its metadata declare.
pub fn calc_content_type(contents: &OptionalBody, declared: Option<&String>) -> (r: Option<
    ContentType,
>)
    ensures
        r.deep_view() == message_type(contents.deep_view(), declared.deep_view()),
{
    match contents.content_type() {
        Some(c) => Some(c),
        None => {
            let written = match declared {
                Some(text) => ContentType::parse(text.as_str()),
                None => None,
            };
            match written {
                Some(c) => Some(c),
                None => match contents {
                    OptionalBody::Present(bytes, _) => detect_content_type_from_bytes(bytes),
                    _ => None,
                },
            }
        },
    }
}

/// The texts of the members of a JSON object, each under its name.
pub open spec fn text_members(m: Entries<JsonModel>) -> Entries<Seq<char>>
    decreases m.len(),
{
    if m.len() == 0 {
        seq![]
    } else {
        put(text_members(m.drop_last()), m.last().0, plain_text(m.last().1))
    }
}

/// The JSON strings of texts, each under its name.
pub open spec fn string_members(m: Entries<Seq<char>>) -> Entries<JsonModel>
    decreases m.len(),
{
    if m.len() == 0 {
        seq![]
    } else {
        put(string_members(m.drop_last()), m.last().0, JsonModel::String(m.last().1))
    }
}

/// The metadata that the JSON form of a message gives: the members of
/// `metaData`, or else of `metadata`, where that is an object.
pub open spec fn message_metadata(j: JsonModel) -> Entries<Seq<char>> {
    let source = match member(j, "metaData"@) {
        Some(v) => Some(v),
        None => member(j, "metadata"@),
    };
    match source {
        Some(JsonModel::Object(m)) => text_members(m),
        _ => seq![],
    }
}

/// The description that the JSON form of an interaction gives, where `kind`
/// and the position `index` name one that has none.
pub open spec fn description_of(j: JsonModel, kind: Seq<char>, index: usize) -> Seq<char> {
    match member(j, "description"@) {
        Some(v) => plain_text(v),
        None => kind + seq![' '] + decimal(index as nat),
    }
}

/// The identifier that the JSON form of an interaction gives.
pub open spec fn id_of(j: JsonModel) -> Option<Seq<char>> {
    match member(j, "_id"@) {
        Some(v) => Some(plain_text(v)),
        None => None,
    }
}

/// The message for a version of the specification that has no messages.
pub open spec fn message_version_fault() -> Seq<char> {
    "Message::from_json: This implementation only supports V3 of the Pact specification"@
}

/// The message that a JSON value writes at position `index` of a pact of
/// version 3; other versions have no messages of this form.
pub open spec fn message_of(index: usize, j: JsonModel, spec: PactSpecification) -> Result<
    MessageModel,
    Seq<char>,
> {
    if !(spec is V3) {
        Err(message_version_fault())
    } else {
        match matchers_from(j, None) {
            Err(e) => Err(e),
            Ok(matching_rules) => match generators_from(j) {
                Err(e) => Err(e),
                Ok(generators) => Ok(
                    MessageModel {
                        id: id_of(j),
                        description: description_of(j, "Message"@, index),
                        provider_states: states_of(j),
                        contents: body_of_json(member(j, "contents"@), None),
                        metadata: message_metadata(j),
                        matching_rules,
                        generators,
                    },
                ),
            },
        }
    }
}

/// The members by which a message is written for a version of the
/// specification.
pub open spec fn message_members(m: MessageModel, spec: PactSpecification) -> Entries<JsonModel> {
    let base = put(Seq::empty(), "description"@, JsonModel::String(m.description));
    let resolved = match message_type(m.contents, lookup(m.metadata, "contentType"@)) {
        Some(c) => c,
        None => unknown_type(),
    };
    let with_contents = match body_json(m.contents, resolved) {
        Some(b) => put(base, "contents"@, b),
        None => base,
    };
    let with_states = if m.provider_states.len() > 0 {
        put(with_contents, "providerStates"@, JsonModel::Array(states_json(m.provider_states)))
    } else {
        with_contents
    };
    let with_metadata = if m.metadata.len() > 0 {
        put(with_states, "metaData"@, JsonModel::Object(string_members(m.metadata)))
    } else {
        with_states
    };
    let with_rules = if !no_rules(m.matching_rules) {
        put(with_metadata, "matchingRules"@, matchers_json(m.matching_rules, nested_forms(spec)))
    } else {
        with_metadata
    };
    if !no_generators(m.generators) {
        put(with_rules, "generators"@, JsonModel::Object(generators_members(m.generators)))
    } else {
        with_rules
    }
}

/// Reads the texts of the members of a JSON object.
pub fn texts_of_members(m: &SortedMap<Json>) -> (r: SortedMap<String>)
    ensures
        r.deep_view() == text_members(m.deep_view()),
{
    let mut r: SortedMap<String> = SortedMap::new();
    let ghost all = m.deep_view();
    let mut i: usize = 0;
    while i < m.entries.len()
        invariant
            i <= m.entries.len(),
            all == m.deep_view(),
            r.deep_view() == text_members(all.take(i as int)),
        decreases m.entries.len() - i,
    {
        proof {
            let next = all.take(i + 1);
            assert(next.drop_last() == all.take(i as int));
            assert(next.last() == all[i as int]);
        }
        r.insert(m.entries[i].0.clone(), m.entries[i].1.to_plain_text());
        i += 1;
    }
    proof {
        assert(all.take(m.entries.len() as int) == all);
    }
    r
}

/// Writes texts as JSON strings, each under its name.
pub fn strings_of_members(m: &SortedMap<String>) -> (r: SortedMap<Json>)
    ensures
        r.deep_view() == string_members(m.deep_view()),
{
    let mut r: SortedMap<Json> = SortedMap::new();
    let ghost all = m.deep_view();
    let mut i: usize = 0;
    while i < m.entries.len()
        invariant
            i <= m.entries.len(),
            all == m.deep_view(),
            r.deep_view() == string_members(all.take(i as int)),
        decreases m.entries.len() - i,
    {
        proof {
            let next = all.take(i + 1);
            assert(next.drop_last() == all.take(i as int));
            assert(next.last() == all[i as int]);
        }
        r.insert(m.entries[i].0.clone(), Json::String(m.entries[i].1.clone()));
        i += 1;
    }
    proof {
        assert(all.take(m.entries.len() as int) == all);
    }
    r
}

/// Reads the description of an interaction from its JSON form, where
/// `kind` and `index` name one that has none.
pub fn description_from_json(j: &Json, kind: &str, index: usize) -> (r: String)
    ensures
        r@ == description_of(j.deep_view(), kind@, index),
{
    match j.get("description") {
        Some(v) => v.to_plain_text(),
        None => {
            let mut r = kind.to_owned();
            crate::text::push_char(&mut r, ' ');
            r.append(decimal_string(index).as_str());
            r
        },
    }
}

/// Reads the identifier of an interaction from its JSON form.
pub fn id_from_json(j: &Json) -> (r: Option<String>)
    ensures
        r.deep_view() == id_of(j.deep_view()),
{
    match j.get("_id") {
        Some(v) => Some(v.to_plain_text()),
        None => None,
    }
}

impl Message {
    /// The default message.
    pub fn default() -> (r: Message)
        ensures
            r.deep_view() == (MessageModel {
                id: None,
                description: "message"@,
                provider_states: seq![],
                contents: BodyModel::Missing,
                metadata: seq![],
                matching_rules: seq![],
                generators: seq![],
            }),
    {
        let provider_states: Vec<ProviderState> = Vec::new();
        assert(provider_states.deep_view() =~= Seq::<StateModel>::empty());
        Message {
            id: None,
            description: "message".to_owned(),
            provider_states,
            contents: OptionalBody::Missing,
            metadata: SortedMap::new(),
            matching_rules: MatchingRules::default(),
            generators: Generators::default(),
        }
    }

    /// The content type of the message.
    pub fn message_content_type(&self) -> (r: Option<ContentType>)
        ensures
            r.deep_view() == message_type(
                self.deep_view().contents,
                lookup(self.deep_view().metadata, "contentType"@),
            ),
    {
        calc_content_type(&self.contents, self.metadata.get("contentType"))
    }

    /// Reads the message at position `index` of a pact from its JSON form.
    pub fn from_json(index: usize, json: &Json, spec_version: &PactSpecification) -> (r: Result<
        Message,
        String,
    >)
        ensures
            match r {
                Ok(m) => message_of(index, json.deep_view(), *spec_version) == Ok::<
                    MessageModel,
                    Seq<char>,
                >(m.deep_view()),
                Err(e) => message_of(index, json.deep_view(), *spec_version) == Err::<
                    MessageModel,
                    Seq<char>,
                >(e@),
            },
    {
        match spec_version {
            PactSpecification::V3 => {
                let id = id_from_json(json);
                let description = description_from_json(json, "Message", index);
                let provider_states = ProviderState::from_json(json);
                let source = match json.get("metaData") {
                    Some(v) => Some(v),
                    None => json.get("metadata"),
                };
                let metadata = match source {
                    Some(v) => {
                        proof {
                            lemma_json_model(*v);
                        }
                        match v {
                            Json::Object(m) => texts_of_members(m),
                            _ => SortedMap::new(),
                        }
                    },
                    None => SortedMap::new(),
                };
                let contents = OptionalBody::from_json(json, "contents", None);
                let matching_rules = match matchers_from_json(json, &None) {
                    Ok(rules) => rules,
                    Err(e) => {
                        return Err(e);
                    },
                };
                let generators = match generators_from_json(json) {
                    Ok(g) => g,
                    Err(e) => {
                        return Err(e);
                    },
                };
                Ok(
                    Message {
                        id,
                        description,
                        provider_states,
                        contents,
                        metadata,
                        matching_rules,
                        generators,
                    },
                )
            },
            _ => Err(
                "Message::from_json: This implementation only supports V3 of the Pact specification".to_owned(),
            ),
        }
    }

    /// Writes the message as a JSON object for a version of the
    /// specification.
    pub fn to_json(&self, spec_version: &PactSpecification) -> (r: Json)
        ensures
            r.deep_view() == JsonModel::Object(message_members(self.deep_view(), *spec_version)),
    {
        let mut members: SortedMap<Json> = SortedMap::new();
        members.insert("description".to_owned(), Json::String(self.description.clone()));
        let resolved = match self.message_content_type() {
            Some(c) => c,
            None => ContentType::unknown(),
        };
        match self.contents.to_json(&resolved) {
            Some(b) => {
                members.insert("contents".to_owned(), b);
            },
            None => {},
        }
        if self.provider_states.len() > 0 {
            members.insert(
                "providerStates".to_owned(),
                Json::array(states_to_json(&self.provider_states)),
            );
        }
        if !self.metadata.is_empty() {
            members.insert("metaData".to_owned(), Json::object(strings_of_members(&self.metadata)));
        }
        if self.matching_rules.is_not_empty() {
            members.insert(
                "matchingRules".to_owned(),
                matchers_to_json(&self.matching_rules, spec_version.is_nested()),
            );
        }
        if self.generators.is_not_empty() {
            members.insert("generators".to_owned(), generators_to_json(&self.generators));
        }
        Json::object(members)
    }
}

} // verus!
