//! Pacts: the interactions between one consumer and one provider, in the
//! forms of all versions of the specification, and the conversions between
//! those forms.

use vstd::prelude::*;
use crate::collections::{
    has_key, keys_increasing, lemma_lookup_put, lemma_put_increasing, lookup, put, Duplicate,
    Entries, SortedMap,
};
use crate::interactions::{
    as_request_response_spec, as_v4_spec, interactions_from_json, kind_name,
    request_response_as_http, request_response_members, request_response_of, v4_interactions,
    v4_kind, v4_members, Interaction, InteractionModel, RequestResponseInteraction,
    RequestResponseModel, V4Interaction, V4InteractionType, V4Model,
};
use crate::json::{compact_text, lemma_json_model, member, Json, JsonModel};
use crate::message::{
    message_members, message_of, string_members, strings_of_members, text_members, texts_of_members,
    Message, MessageModel,
};
use crate::models::{party_members, party_name, version_text, Consumer, PactSpecification, Provider};
use crate::interactions::{async_as_message, http_as_request_response, message_as_async};
use crate::json::json_text;
use crate::text::str_eq;

verus! {

/// The version of this library, as pacts record it.
pub open spec fn library_version() -> Seq<char> {
    "0.1.0"@
}

/// The version of this library, as pacts record it.
pub fn pact_rust_version() -> (r: String)
    ensures
        r@ == library_version(),
{
    "0.1.0".to_owned()
}

/// The metadata of a pact of versions 1 to 3: named groups of named texts.
pub type Metadata = SortedMap<SortedMap<String>>;

/// The mathematical value of `Metadata`.
pub type MetadataModel = Entries<Entries<Seq<char>>>;

/// The name under which a group of metadata is held: the names with a
/// hyphen of older pacts are changed into those of today.
pub open spec fn metadata_key(k: Seq<char>) -> Seq<char> {
    if k == "pact-specification"@ {
        "pactSpecification"@
    } else if k == "pact-rust"@ {
        "pactRust"@
    } else {
        k
    }
}

/// The group of metadata that a JSON value writes: the texts of its
/// members where it is an object, and nothing else.
pub open spec fn metadata_group(v: JsonModel) -> Entries<Seq<char>> {
    match v {
        JsonModel::Object(m) => text_members(m),
        _ => seq![],
    }
}

/// The metadata that the members of a JSON object write.
pub open spec fn metadata_of_members(obj: Entries<JsonModel>) -> MetadataModel
    decreases obj.len(),
{
    if obj.len() == 0 {
        seq![]
    } else {
        put(
            metadata_of_members(obj.drop_last()),
            metadata_key(obj.last().0),
            metadata_group(obj.last().1),
        )
    }
}

/// The metadata of a pact: those that its member `metadata` writes, where
/// that is an object.
pub open spec fn parsed_metadata(j: JsonModel) -> MetadataModel {
    match member(j, "metadata"@) {
        Some(JsonModel::Object(obj)) => metadata_of_members(obj),
        _ => seq![],
    }
}

/// The major and the minor number that `lenient_semver::parse` reads from a
/// text, where the text is a version.
pub uninterp spec fn lenient_version(text: Seq<char>) -> Option<(u64, u64)>;

/// Calls `lenient_semver::parse`: the major and the minor number of the
/// version that the text writes, or nothing where it writes none, which
/// this library refers to as `lenient_version`.
#[verifier::external_body]
pub(crate) fn parse_version(text: &str) -> (r: Option<(u64, u64)>)
    ensures
        r == lenient_version(text@),
{
    lenient_semver::parse(text).ok().map(|v| (v.major, v.minor))
}

/// The version of the specification that a parsed version number stands
/// for. Major 1 is version 1, or 1.1 with minor 1; major 2, 3 and 4 are
/// versions 2, 3 and 4; any other major number is taken as version 1; and a
/// text that is no version number is unknown.
pub open spec fn version_for(parsed: Option<(u64, u64)>) -> PactSpecification {
    match parsed {
        Some((major, minor)) => if major == 1 {
            if minor == 1 {
                PactSpecification::V1_1
            } else {
                PactSpecification::V1
            }
        } else if major == 2 {
            PactSpecification::V2
        } else if major == 3 {
            PactSpecification::V3
        } else if major == 4 {
            PactSpecification::V4
        } else {
            PactSpecification::V1
        },
        None => PactSpecification::Unknown,
    }
}

/// The group of metadata that holds the version of the specification: that
/// of the older name where there is one, else that of the name of today.
pub open spec fn specification_group(metadata: MetadataModel) -> Option<Entries<Seq<char>>> {
    if has_key(metadata, "pact-specification"@) {
        lookup(metadata, "pact-specification"@)
    } else {
        lookup(metadata, "pactSpecification"@)
    }
}

/// The version of the specification that metadata give: version 3 where
/// they name none.
pub open spec fn specified_version(metadata: MetadataModel) -> PactSpecification {
    match specification_group(metadata) {
        Some(group) => match lookup(group, "version"@) {
            Some(text) => version_for(lenient_version(text)),
            None => PactSpecification::V3,
        },
        None => PactSpecification::V3,
    }
}

/// The version of the specification that a parsed version number stands
/// for.
pub fn spec_version_for(parsed: Option<(u64, u64)>) -> (r: PactSpecification)
    ensures
        r == version_for(parsed),
{
    match parsed {
        Some((major, minor)) => {
            if major == 1 {
                if minor == 1 {
                    PactSpecification::V1_1
                } else {
                    PactSpecification::V1
                }
            } else if major == 2 {
                PactSpecification::V2
            } else if major == 3 {
                PactSpecification::V3
            } else if major == 4 {
                PactSpecification::V4
            } else {
                PactSpecification::V1
            }
        },
        None => PactSpecification::Unknown,
    }
}

/// Finds the version of the specification of a pact from its metadata.
pub fn determine_spec_version(_file: &str, metadata: &Metadata) -> (r: PactSpecification)
    ensures
        r == specified_version(metadata.deep_view()),
{
    let specification = if metadata.contains_key("pact-specification") {
        metadata.get("pact-specification")
    } else {
        metadata.get("pactSpecification")
    };
    match specification {
        Some(group) => match group.get("version") {
            Some(text) => spec_version_for(parse_version(text.as_str())),
            None => PactSpecification::V3,
        },
        None => PactSpecification::V3,
    }
}

/// Writes the name under which a group of metadata is held.
fn metadata_key_of(k: &str) -> (r: String)
    ensures
        r@ == metadata_key(k@),
{
    if str_eq(k, "pact-specification") {
        "pactSpecification".to_owned()
    } else if str_eq(k, "pact-rust") {
        "pactRust".to_owned()
    } else {
        k.to_owned()
    }
}

/// Reads the metadata of a pact from its JSON form.
pub fn parse_meta_data(pact_json: &Json) -> (r: Metadata)
    ensures
        r.deep_view() == parsed_metadata(pact_json.deep_view()),
{
    match pact_json.get("metadata") {
        Some(v) => {
            proof {
                lemma_json_model(*v);
            }
            match v {
                Json::Object(obj) => {
                    let mut metadata: Metadata = SortedMap::new();
                    let ghost all = obj.deep_view();
                    let mut i: usize = 0;
                    while i < obj.entries.len()
                        invariant
                            i <= obj.entries.len(),
                            all == obj.deep_view(),
                            metadata.deep_view() == metadata_of_members(all.take(i as int)),
                        decreases obj.entries.len() - i,
                    {
                        let item = &obj.entries[i].1;
                        proof {
                            let next = all.take(i + 1);
                            assert(next.drop_last() == all.take(i as int));
                            assert(next.last() == all[i as int]);
                            lemma_json_model(*item);
                        }
                        let group = match item {
                            Json::Object(m) => texts_of_members(m),
                            _ => SortedMap::new(),
                        };
                        metadata.insert(metadata_key_of(obj.entries[i].0.as_str()), group);
                        i += 1;
                    }
                    proof {
                        assert(all.take(obj.entries.len() as int) == all);
                    }
                    metadata
                },
                _ => SortedMap::new(),
            }
        },
        None => SortedMap::new(),
    }
}

/// An object with the member `version`.
pub open spec fn version_object(text: Seq<char>) -> JsonModel {
    JsonModel::Object(put(Seq::empty(), "version"@, JsonModel::String(text)))
}

/// The members by which groups of metadata are written.
pub open spec fn group_members(metadata: MetadataModel) -> Entries<JsonModel>
    decreases metadata.len(),
{
    if metadata.len() == 0 {
        seq![]
    } else {
        put(
            group_members(metadata.drop_last()),
            metadata_key(metadata.last().0),
            JsonModel::Object(string_members(metadata.last().1)),
        )
    }
}

/// The members `groups` with the two that every written pact records anew:
/// the version of the specification that it is written for, and the version
/// of this library.
pub open spec fn stamped(groups: Entries<JsonModel>, spec: PactSpecification) -> Entries<
    JsonModel,
> {
    put(
        put(groups, "pactSpecification"@, version_object(version_text(spec))),
        "pactRust"@,
        version_object(library_version()),
    )
}

/// The members by which the metadata of a pact are written for a version of
/// the specification.
pub open spec fn metadata_members(metadata: MetadataModel, spec: PactSpecification) -> Entries<
    JsonModel,
> {
    stamped(group_members(metadata), spec)
}

/// An object with the member `version`.
fn version_json(text: String) -> (r: Json)
    ensures
        r.deep_view() == version_object(text@),
{
    let mut members: SortedMap<Json> = SortedMap::new();
    members.insert("version".to_owned(), Json::String(text));
    Json::object(members)
}

/// Adds the version of the specification and of this library to the
/// members of metadata.
fn stamp(groups: &mut SortedMap<Json>, pact_spec: &PactSpecification)
    ensures
        final(groups).deep_view() == stamped(old(groups).deep_view(), *pact_spec),
{
    groups.insert("pactSpecification".to_owned(), version_json(pact_spec.version_str()));
    groups.insert("pactRust".to_owned(), version_json(pact_rust_version()));
}

/// Writes the metadata of a pact for a version of the specification.
pub fn metadata_to_json(metadata: &Metadata, pact_spec: &PactSpecification) -> (r: SortedMap<Json>)
    ensures
        r.deep_view() == metadata_members(metadata.deep_view(), *pact_spec),
{
    let mut groups: SortedMap<Json> = SortedMap::new();
    let ghost all = metadata.deep_view();
    let mut i: usize = 0;
    while i < metadata.entries.len()
        invariant
            i <= metadata.entries.len(),
            all == metadata.deep_view(),
            groups.deep_view() == group_members(all.take(i as int)),
        decreases metadata.entries.len() - i,
    {
        proof {
            let next = all.take(i + 1);
            assert(next.drop_last() == all.take(i as int));
            assert(next.last() == all[i as int]);
        }
        groups.insert(
            metadata_key_of(metadata.entries[i].0.as_str()),
            Json::object(strings_of_members(&metadata.entries[i].1)),
        );
        i += 1;
    }
    proof {
        assert(all.take(metadata.entries.len() as int) == all);
    }
    stamp(&mut groups, pact_spec);
    groups
}

/// The metadata with which a new pact starts: the version 3 of the
/// specification and the version of this library, under the older names.
pub open spec fn default_metadata_spec() -> MetadataModel {
    put(
        put(
            Seq::empty(),
            "pact-specification"@,
            put(Seq::empty(), "version"@, version_text(PactSpecification::V3)),
        ),
        "pact-rust"@,
        put(Seq::empty(), "version"@, library_version()),
    )
}

/// The mathematical value of a `RequestResponsePact`.
pub struct RequestResponsePactModel {
    pub consumer: Seq<char>,
    pub provider: Seq<char>,
    pub interactions: Seq<RequestResponseModel>,
    pub metadata: MetadataModel,
    pub specification_version: PactSpecification,
}

/// A pact of requests and responses, of versions 1 to 3.
#[derive(Debug, PartialEq, Eq)]
pub struct RequestResponsePact {
    /// The consumer.
    pub consumer: Consumer,
    /// The provider.
    pub provider: Provider,
    /// The interactions.
    pub interactions: Vec<RequestResponseInteraction>,
    /// The metadata.
    pub metadata: Metadata,
    /// The version of the specification.
    pub specification_version: PactSpecification,
}

impl DeepView for RequestResponsePact {
    type V = RequestResponsePactModel;

    open spec fn deep_view(&self) -> RequestResponsePactModel {
        RequestResponsePactModel {
            consumer: self.consumer.name@,
            provider: self.provider.name@,
            interactions: self.interactions.deep_view(),
            metadata: self.metadata.deep_view(),
            specification_version: self.specification_version,
        }
    }
}

impl Duplicate for RequestResponsePact {
    fn duplicate(&self) -> (r: RequestResponsePact) {
        RequestResponsePact {
            consumer: Consumer { name: self.consumer.name.clone() },
            provider: Provider { name: self.provider.name.clone() },
            interactions: self.interactions.duplicate(),
            metadata: self.metadata.duplicate(),
            specification_version: self.specification_version,
        }
    }
}

/// The mathematical value of a `MessagePact`.
pub struct MessagePactModel {
    pub consumer: Seq<char>,
    pub provider: Seq<char>,
    pub messages: Seq<MessageModel>,
    pub metadata: MetadataModel,
    pub specification_version: PactSpecification,
}

/// A pact of messages, of version 3.
#[derive(Debug, PartialEq, Eq)]
pub struct MessagePact {
    /// The consumer.
    pub consumer: Consumer,
    /// The provider.
    pub provider: Provider,
    /// The messages.
    pub messages: Vec<Message>,
    /// The metadata.
    pub metadata: Metadata,
    /// The version of the specification.
    pub specification_version: PactSpecification,
}

impl DeepView for MessagePact {
    type V = MessagePactModel;

    open spec fn deep_view(&self) -> MessagePactModel {
        MessagePactModel {
            consumer: self.consumer.name@,
            provider: self.provider.name@,
            messages: self.messages.deep_view(),
            metadata: self.metadata.deep_view(),
            specification_version: self.specification_version,
        }
    }
}

impl Duplicate for MessagePact {
    fn duplicate(&self) -> (r: MessagePact) {
        MessagePact {
            consumer: Consumer { name: self.consumer.name.clone() },
            provider: Provider { name: self.provider.name.clone() },
            messages: self.messages.duplicate(),
            metadata: self.metadata.duplicate(),
            specification_version: self.specification_version,
        }
    }
}

/// The mathematical value of a `V4Pact`.
pub struct V4PactModel {
    pub consumer: Seq<char>,
    pub provider: Seq<char>,
    pub interactions: Seq<V4Model>,
    pub metadata: Entries<JsonModel>,
}

/// A pact of version 4, with interactions of any kinds.
#[derive(Debug, PartialEq, Eq)]
pub struct V4Pact {
    /// The consumer.
    pub consumer: Consumer,
    /// The provider.
    pub provider: Provider,
    /// The interactions.
    pub interactions: Vec<V4Interaction>,
    /// The metadata, as they are written.
    pub metadata: SortedMap<Json>,
}

impl DeepView for V4Pact {
    type V = V4PactModel;

    open spec fn deep_view(&self) -> V4PactModel {
        V4PactModel {
            consumer: self.consumer.name@,
            provider: self.provider.name@,
            interactions: self.interactions.deep_view(),
            metadata: self.metadata.deep_view(),
        }
    }
}

impl Duplicate for V4Pact {
    fn duplicate(&self) -> (r: V4Pact) {
        V4Pact {
            consumer: Consumer { name: self.consumer.name.clone() },
            provider: Provider { name: self.provider.name.clone() },
            interactions: self.interactions.duplicate(),
            metadata: self.metadata.duplicate(),
        }
    }
}

/// The name of the consumer that the JSON form of a pact gives.
pub open spec fn consumer_of(j: JsonModel) -> Seq<char> {
    match member(j, "consumer"@) {
        Some(v) => party_name(v, "consumer"@),
        None => "consumer"@,
    }
}

/// The name of the provider that the JSON form of a pact gives.
pub open spec fn provider_of(j: JsonModel) -> Seq<char> {
    match member(j, "provider"@) {
        Some(v) => party_name(v, "provider"@),
        None => "provider"@,
    }
}

/// The interactions that the first `n` of the JSON values `items` write, or
/// the message for the first of them that cannot be read.
pub open spec fn interactions_of(items: Seq<JsonModel>, spec: PactSpecification, n: nat) -> Result<
    Seq<RequestResponseModel>,
    Seq<char>,
>
    decreases n,
{
    if n == 0 {
        Ok(seq![])
    } else {
        match interactions_of(items, spec, (n - 1) as nat) {
            Err(e) => Err(e),
            Ok(before) => match request_response_of((n - 1) as usize, items[n - 1], spec) {
                Err(e) => Err(e),
                Ok(i) => Ok(before.push(i)),
            },
        }
    }
}

/// The interactions of a pact of versions 1 to 3: those that the items of
/// its member `interactions` write, where that is an array.
pub open spec fn parsed_interactions(j: JsonModel, spec: PactSpecification) -> Result<
    Seq<RequestResponseModel>,
    Seq<char>,
> {
    match member(j, "interactions"@) {
        Some(JsonModel::Array(items)) => interactions_of(items, spec, items.len()),
        _ => Ok(seq![]),
    }
}

/// The pact of requests and responses that a JSON value writes, or the
/// message for its first interaction that cannot be read.
pub open spec fn request_response_pact_of(j: JsonModel) -> Result<
    RequestResponsePactModel,
    Seq<char>,
> {
    match parsed_interactions(j, specified_version(parsed_metadata(j))) {
        Err(e) => Err(e),
        Ok(interactions) => Ok(
            RequestResponsePactModel {
                consumer: consumer_of(j),
                provider: provider_of(j),
                interactions,
                metadata: parsed_metadata(j),
                specification_version: specified_version(parsed_metadata(j)),
            },
        ),
    }
}

/// The JSON values by which interactions are written for a version of the
/// specification, in their order.
pub open spec fn interactions_json(
    interactions: Seq<RequestResponseModel>,
    spec: PactSpecification,
) -> Seq<JsonModel> {
    Seq::new(
        interactions.len(),
        |i: int| JsonModel::Object(request_response_members(interactions[i], spec)),
    )
}

/// The members by which a pact is written: `consumer`, `provider`, its
/// interactions under `name`, and `metadata`.
pub open spec fn pact_members(
    consumer: Seq<char>,
    provider: Seq<char>,
    name: Seq<char>,
    interactions: Seq<JsonModel>,
    metadata: Entries<JsonModel>,
) -> Entries<JsonModel> {
    put(
        put(
            put(
                put(Seq::empty(), "consumer"@, JsonModel::Object(party_members(consumer))),
                "provider"@,
                JsonModel::Object(party_members(provider)),
            ),
            name,
            JsonModel::Array(interactions),
        ),
        "metadata"@,
        JsonModel::Object(metadata),
    )
}

/// An error among the first `n` interactions is the error of all of them.
proof fn lemma_interactions_error(items: Seq<JsonModel>, spec: PactSpecification, n: nat, m: nat)
    requires
        n <= m,
        interactions_of(items, spec, n) is Err,
    ensures
        interactions_of(items, spec, m) == interactions_of(items, spec, n),
    decreases m - n,
{
    if n < m {
        lemma_interactions_error(items, spec, n, (m - 1) as nat);
    }
}

/// Reads the interactions of a pact of versions 1 to 3 from its JSON form.
pub fn parse_interactions(pact_json: &Json, spec_version: PactSpecification) -> (r: Result<
    Vec<RequestResponseInteraction>,
    String,
>)
    ensures
        match r {
            Ok(interactions) => parsed_interactions(pact_json.deep_view(), spec_version) == Ok::<
                Seq<RequestResponseModel>,
                Seq<char>,
            >(interactions.deep_view()),
            Err(e) => parsed_interactions(pact_json.deep_view(), spec_version) == Err::<
                Seq<RequestResponseModel>,
                Seq<char>,
            >(e@),
        },
{
    let mut interactions: Vec<RequestResponseInteraction> = Vec::new();
    assert(interactions.deep_view() =~= Seq::<RequestResponseModel>::empty());
    match pact_json.get("interactions") {
        Some(v) => {
            proof {
                lemma_json_model(*v);
            }
            match v {
                Json::Array(array) => {
                    let ghost items = array.deep_view();
                    let mut index: usize = 0;
                    while index < array.len()
                        invariant
                            index <= array.len(),
                            items == array.deep_view(),
                            parsed_interactions(pact_json.deep_view(), spec_version)
                                == interactions_of(items, spec_version, items.len()),
                            interactions_of(items, spec_version, index as nat) == Ok::<
                                Seq<RequestResponseModel>,
                                Seq<char>,
                            >(interactions.deep_view()),
                        decreases array.len() - index,
                    {
                        proof {
                            assert(items[index as int] == array@[index as int].deep_view());
                        }
                        match RequestResponseInteraction::from_json(
                            index,
                            &array[index],
                            &spec_version,
                        ) {
                            Ok(i) => {
                                let ghost before = interactions.deep_view();
                                interactions.push(i);
                                assert(interactions.deep_view() =~= before.push(i.deep_view()));
                            },
                            Err(e) => {
                                proof {
                                    lemma_interactions_error(
                                        items,
                                        spec_version,
                                        (index + 1) as nat,
                                        items.len(),
                                    );
                                }
                                return Err(e);
                            },
                        }
                        index += 1;
                    }
                },
                _ => {},
            }
        },
        None => {},
    }
    Ok(interactions)
}

/// Reads the consumer of a pact from its JSON form.
fn consumer_from_json(pact_json: &Json) -> (r: Consumer)
    ensures
        r.name@ == consumer_of(pact_json.deep_view()),
{
    match pact_json.get("consumer") {
        Some(v) => Consumer::from_json(v),
        None => Consumer { name: "consumer".to_owned() },
    }
}

/// Reads the provider of a pact from its JSON form.
fn provider_from_json(pact_json: &Json) -> (r: Provider)
    ensures
        r.name@ == provider_of(pact_json.deep_view()),
{
    match pact_json.get("provider") {
        Some(v) => Provider::from_json(v),
        None => Provider { name: "provider".to_owned() },
    }
}

/// Writes interactions as JSON objects for a version of the specification.
fn interactions_to_json(interactions: &Vec<RequestResponseInteraction>, spec: &PactSpecification) -> (r:
    Vec<Json>)
    ensures
        r.deep_view() == interactions_json(interactions.deep_view(), *spec),
{
    let mut r: Vec<Json> = Vec::new();
    let ghost all = interactions_json(interactions.deep_view(), *spec);
    let mut i: usize = 0;
    while i < interactions.len()
        invariant
            i <= interactions.len(),
            all == interactions_json(interactions.deep_view(), *spec),
            r.deep_view() == all.take(i as int),
        decreases interactions.len() - i,
    {
        let item = interactions[i].to_json(spec);
        let ghost before = r.deep_view();
        r.push(item);
        proof {
            assert(r.deep_view() =~= before.push(item.deep_view()));
            assert(all.take(i + 1) == all.take(i as int).push(all[i as int]));
        }
        i += 1;
    }
    proof {
        assert(all.take(interactions.len() as int) == all);
    }
    r
}

/// Writes a pact as a JSON object from its parts.
fn pact_to_json(
    consumer: &Consumer,
    provider: &Provider,
    name: &str,
    interactions: Vec<Json>,
    metadata: SortedMap<Json>,
) -> (r: Json)
    ensures
        r.deep_view() == JsonModel::Object(
            pact_members(
                consumer.name@,
                provider.name@,
                name@,
                interactions.deep_view(),
                metadata.deep_view(),
            ),
        ),
{
    let mut members: SortedMap<Json> = SortedMap::new();
    members.insert("consumer".to_owned(), consumer.to_json());
    members.insert("provider".to_owned(), provider.to_json());
    members.insert(name.to_owned(), Json::array(interactions));
    members.insert("metadata".to_owned(), Json::object(metadata));
    Json::object(members)
}

/// The interactions of a pact of versions 1 to 3 as version 4 holds them.
pub open spec fn lifted(interactions: Seq<RequestResponseModel>) -> Seq<V4Model> {
    Seq::new(
        interactions.len(),
        |i: int| V4Model::SynchronousHttp(request_response_as_http(interactions[i])),
    )
}

/// The groups of metadata as JSON objects of strings, each under its name.
pub open spec fn metadata_objects(metadata: MetadataModel) -> Entries<JsonModel>
    decreases metadata.len(),
{
    if metadata.len() == 0 {
        seq![]
    } else {
        put(
            metadata_objects(metadata.drop_last()),
            metadata.last().0,
            JsonModel::Object(string_members(metadata.last().1)),
        )
    }
}

/// A pact of requests and responses as a pact of version 4: every
/// interaction lifted, with its key made from its content.
pub open spec fn as_v4_pact_spec(p: RequestResponsePactModel) -> V4PactModel {
    V4PactModel {
        consumer: p.consumer,
        provider: p.provider,
        interactions: lifted(p.interactions),
        metadata: metadata_objects(p.metadata),
    }
}

/// The JSON values by which interactions of version 4 are written.
pub open spec fn v4_interactions_json(interactions: Seq<V4Model>) -> Seq<JsonModel> {
    Seq::new(interactions.len(), |i: int| JsonModel::Object(v4_members(interactions[i])))
}

/// The members by which the metadata of a pact of version 4 are written.
pub open spec fn v4_group_members(metadata: Entries<JsonModel>) -> Entries<JsonModel>
    decreases metadata.len(),
{
    if metadata.len() == 0 {
        seq![]
    } else {
        put(
            v4_group_members(metadata.drop_last()),
            metadata_key(metadata.last().0),
            metadata.last().1,
        )
    }
}

/// The members by which a pact of version 4 is written as such.
pub open spec fn v4_pact_members(p: V4PactModel) -> Entries<JsonModel> {
    pact_members(
        p.consumer,
        p.provider,
        "interactions"@,
        v4_interactions_json(p.interactions),
        stamped(v4_group_members(p.metadata), PactSpecification::V4),
    )
}

/// The members by which a pact of requests and responses is written for a
/// version of the specification: as a pact of version 4 for that version,
/// else with its interactions in the form of the version.
pub open spec fn request_response_pact_members(
    p: RequestResponsePactModel,
    spec: PactSpecification,
) -> Entries<JsonModel> {
    if spec is V4 {
        v4_pact_members(as_v4_pact_spec(p))
    } else {
        pact_members(
            p.consumer,
            p.provider,
            "interactions"@,
            interactions_json(p.interactions, spec),
            metadata_members(p.metadata, spec),
        )
    }
}

impl RequestResponsePact {
    /// A pact without interactions, between a default consumer and a
    /// default provider.
    pub fn default() -> (r: RequestResponsePact)
        ensures
            r.deep_view() == (RequestResponsePactModel {
                consumer: "default_consumer"@,
                provider: "default_provider"@,
                interactions: seq![],
                metadata: default_metadata_spec(),
                specification_version: PactSpecification::V3,
            }),
    {
        let interactions: Vec<RequestResponseInteraction> = Vec::new();
        assert(interactions.deep_view() =~= Seq::<RequestResponseModel>::empty());
        RequestResponsePact {
            consumer: Consumer { name: "default_consumer".to_owned() },
            provider: Provider { name: "default_provider".to_owned() },
            interactions,
            metadata: RequestResponsePact::default_metadata(),
            specification_version: PactSpecification::V3,
        }
    }

    /// The metadata with which a new pact starts.
    pub fn default_metadata() -> (r: Metadata)
        ensures
            r.deep_view() == default_metadata_spec(),
    {
        let mut specification: SortedMap<String> = SortedMap::new();
        specification.insert("version".to_owned(), PactSpecification::V3.version_str());
        let mut library: SortedMap<String> = SortedMap::new();
        library.insert("version".to_owned(), pact_rust_version());
        let mut metadata: Metadata = SortedMap::new();
        metadata.insert("pact-specification".to_owned(), specification);
        metadata.insert("pact-rust".to_owned(), library);
        metadata
    }

    /// The version of the specification that the metadata of the pact
    /// give.
    pub fn spec_version(&self) -> (r: PactSpecification)
        ensures
            r == specified_version(self.deep_view().metadata),
    {
        determine_spec_version("<Pact>", &self.metadata)
    }

    /// The version of the specification that the pact records.
    pub fn specification_version(&self) -> (r: PactSpecification)
        ensures
            r == self.deep_view().specification_version,
    {
        self.specification_version
    }

    /// Reads a pact from its JSON form, where `file` names where it came
    /// from.
    pub fn from_json(file: &str, pact_json: &Json) -> (r: Result<RequestResponsePact, String>)
        ensures
            match r {
                Ok(pact) => request_response_pact_of(pact_json.deep_view()) == Ok::<
                    RequestResponsePactModel,
                    Seq<char>,
                >(pact.deep_view()),
                Err(e) => request_response_pact_of(pact_json.deep_view()) == Err::<
                    RequestResponsePactModel,
                    Seq<char>,
                >(e@),
            },
    {
        let metadata = parse_meta_data(pact_json);
        let spec_version = determine_spec_version(file, &metadata);
        let consumer = consumer_from_json(pact_json);
        let provider = provider_from_json(pact_json);
        match parse_interactions(pact_json, spec_version) {
            Ok(interactions) => Ok(
                RequestResponsePact {
                    consumer,
                    provider,
                    interactions,
                    metadata,
                    specification_version: spec_version,
                },
            ),
            Err(e) => Err(e),
        }
    }

    /// Writes the metadata of the pact for a version of the specification.
    pub fn metadata_to_json(&self, pact_spec: &PactSpecification) -> (r: SortedMap<Json>)
        ensures
            r.deep_view() == metadata_members(self.deep_view().metadata, *pact_spec),
    {
        metadata_to_json(&self.metadata, pact_spec)
    }

    /// The same pact as a pact of version 4.
    pub fn as_v4_pact(&self) -> (r: V4Pact)
        ensures
            r.deep_view() == as_v4_pact_spec(self.deep_view()),
    {
        let mut interactions: Vec<V4Interaction> = Vec::new();
        let ghost all = lifted(self.deep_view().interactions);
        let mut i: usize = 0;
        while i < self.interactions.len()
            invariant
                i <= self.interactions.len(),
                all == lifted(self.deep_view().interactions),
                interactions.deep_view() == all.take(i as int),
            decreases self.interactions.len() - i,
        {
            let item = V4Interaction::SynchronousHttp(self.interactions[i].as_v4_http());
            let ghost before = interactions.deep_view();
            interactions.push(item);
            proof {
                assert(interactions.deep_view() =~= before.push(item.deep_view()));
                assert(all.take(i + 1) == all.take(i as int).push(all[i as int]));
            }
            i += 1;
        }
        proof {
            assert(all.take(self.interactions.len() as int) == all);
        }
        let mut metadata: SortedMap<Json> = SortedMap::new();
        let ghost groups = self.metadata.deep_view();
        let mut k: usize = 0;
        while k < self.metadata.entries.len()
            invariant
                k <= self.metadata.entries.len(),
                groups == self.metadata.deep_view(),
                metadata.deep_view() == metadata_objects(groups.take(k as int)),
            decreases self.metadata.entries.len() - k,
        {
            proof {
                let next = groups.take(k + 1);
                assert(next.drop_last() == groups.take(k as int));
                assert(next.last() == groups[k as int]);
            }
            metadata.insert(
                self.metadata.entries[k].0.clone(),
                Json::object(strings_of_members(&self.metadata.entries[k].1)),
            );
            k += 1;
        }
        proof {
            assert(groups.take(self.metadata.entries.len() as int) == groups);
        }
        V4Pact {
            consumer: Consumer { name: self.consumer.name.clone() },
            provider: Provider { name: self.provider.name.clone() },
            interactions,
            metadata,
        }
    }

    /// Writes the pact as a JSON object for a version of the specification.
    /// The metadata record that version and the version of this library,
    /// whatever they recorded before.
    pub fn to_json(&self, pact_spec: PactSpecification) -> (r: Json)
        ensures
            r.deep_view() == JsonModel::Object(
                request_response_pact_members(self.deep_view(), pact_spec),
            ),
    {
        match pact_spec {
            PactSpecification::V4 => self.as_v4_pact().to_v4_json(),
            _ => pact_to_json(
                &self.consumer,
                &self.provider,
                "interactions",
                interactions_to_json(&self.interactions, &pact_spec),
                self.metadata_to_json(&pact_spec),
            ),
        }
    }

    /// Adds an interaction to the pact, where it is one of a request and a
    /// response; any other is refused and the pact stays as it is.
    pub fn add_interaction(&mut self, interaction: &Interaction) -> (r: Result<(), String>)
        ensures
            match as_request_response_spec(interaction.deep_view()) {
                Some(i) => r is Ok && final(self).deep_view() == (RequestResponsePactModel {
                    interactions: old(self).deep_view().interactions.push(i),
                    ..old(self).deep_view()
                }),
                None => r matches Err(e) && e@
                    == "Can only add request/response interactions to this Pact"@
                    && final(self).deep_view() == old(self).deep_view(),
            },
    {
        match interaction.as_request_response() {
            None => Err("Can only add request/response interactions to this Pact".to_owned()),
            Some(i) => {
                let ghost before = self.interactions.deep_view();
                self.interactions.push(i);
                assert(self.interactions.deep_view() =~= before.push(i.deep_view()));
                Ok(())
            },
        }
    }

    /// The name of the file in which the pact is kept unless another is
    /// given.
    pub fn default_file_name(&self) -> (r: String)
        ensures
            r@ == file_name(self.deep_view().consumer, self.deep_view().provider),
    {
        default_file_name(&self.consumer, &self.provider)
    }
}

/// The name of the file of the pact between a consumer and a provider.
pub open spec fn file_name(consumer: Seq<char>, provider: Seq<char>) -> Seq<char> {
    consumer + "-"@ + provider + ".json"@
}

/// Writes the name of the file of the pact between a consumer and a
/// provider.
pub fn default_file_name(consumer: &Consumer, provider: &Provider) -> (r: String)
    ensures
        r@ == file_name(consumer.name@, provider.name@),
{
    let mut r = consumer.name.clone();
    r.append("-");
    r.append(provider.name.as_str());
    r.append(".json");
    r
}

/// Writes interactions of version 4 as JSON objects.
fn v4_interactions_to_json(interactions: &Vec<V4Interaction>) -> (r: Vec<Json>)
    ensures
        r.deep_view() == v4_interactions_json(interactions.deep_view()),
{
    let mut r: Vec<Json> = Vec::new();
    let ghost all = v4_interactions_json(interactions.deep_view());
    let mut i: usize = 0;
    while i < interactions.len()
        invariant
            i <= interactions.len(),
            all == v4_interactions_json(interactions.deep_view()),
            r.deep_view() == all.take(i as int),
        decreases interactions.len() - i,
    {
        let item = interactions[i].to_json();
        let ghost before = r.deep_view();
        r.push(item);
        proof {
            assert(r.deep_view() =~= before.push(item.deep_view()));
            assert(all.take(i + 1) == all.take(i as int).push(all[i as int]));
        }
        i += 1;
    }
    proof {
        assert(all.take(interactions.len() as int) == all);
    }
    r
}

impl V4Pact {
    /// A pact without interactions and without names.
    pub fn default() -> (r: V4Pact)
        ensures
            r.deep_view() == (V4PactModel {
                consumer: Seq::empty(),
                provider: Seq::empty(),
                interactions: seq![],
                metadata: seq![],
            }),
    {
        let interactions: Vec<V4Interaction> = Vec::new();
        assert(interactions.deep_view() =~= Seq::<V4Model>::empty());
        V4Pact {
            consumer: Consumer { name: String::new() },
            provider: Provider { name: String::new() },
            interactions,
            metadata: SortedMap::new(),
        }
    }

    /// Writes the members of the metadata of the pact, with the version 4 of
    /// the specification and the version of this library.
    pub fn metadata_members(&self) -> (r: SortedMap<Json>)
        ensures
            r.deep_view() == stamped(
                v4_group_members(self.deep_view().metadata),
                PactSpecification::V4,
            ),
    {
        let mut groups: SortedMap<Json> = SortedMap::new();
        let ghost all = self.metadata.deep_view();
        let mut i: usize = 0;
        while i < self.metadata.entries.len()
            invariant
                i <= self.metadata.entries.len(),
                all == self.metadata.deep_view(),
                groups.deep_view() == v4_group_members(all.take(i as int)),
            decreases self.metadata.entries.len() - i,
        {
            proof {
                let next = all.take(i + 1);
                assert(next.drop_last() == all.take(i as int));
                assert(next.last() == all[i as int]);
            }
            groups.insert(
                metadata_key_of(self.metadata.entries[i].0.as_str()),
                self.metadata.entries[i].1.duplicate(),
            );
            i += 1;
        }
        proof {
            assert(all.take(self.metadata.entries.len() as int) == all);
        }
        stamp(&mut groups, &PactSpecification::V4);
        groups
    }

    /// Writes the metadata of the pact, with the version 4 of the
    /// specification and the version of this library.
    pub fn metadata_to_json(&self) -> (r: Json)
        ensures
            r.deep_view() == JsonModel::Object(
                stamped(v4_group_members(self.deep_view().metadata), PactSpecification::V4),
            ),
    {
        Json::object(self.metadata_members())
    }

    /// Writes the pact as a JSON object of version 4.
    pub fn to_v4_json(&self) -> (r: Json)
        ensures
            r.deep_view() == JsonModel::Object(v4_pact_members(self.deep_view())),
    {
        pact_to_json(
            &self.consumer,
            &self.provider,
            "interactions",
            v4_interactions_to_json(&self.interactions),
            self.metadata_members(),
        )
    }
}

/// The messages that the first `n` of the JSON values `items` write, or the
/// message for the first of them that cannot be read.
pub open spec fn messages_of(items: Seq<JsonModel>, spec: PactSpecification, n: nat) -> Result<
    Seq<MessageModel>,
    Seq<char>,
>
    decreases n,
{
    if n == 0 {
        Ok(seq![])
    } else {
        match messages_of(items, spec, (n - 1) as nat) {
            Err(e) => Err(e),
            Ok(before) => match message_of((n - 1) as usize, items[n - 1], spec) {
                Err(e) => Err(e),
                Ok(m) => Ok(before.push(m)),
            },
        }
    }
}

/// The messages of a pact: those that the items of its member `messages`
/// write, where that is an array.
pub open spec fn parsed_messages(j: JsonModel, spec: PactSpecification) -> Result<
    Seq<MessageModel>,
    Seq<char>,
> {
    match member(j, "messages"@) {
        Some(JsonModel::Array(items)) => messages_of(items, spec, items.len()),
        _ => Ok(seq![]),
    }
}

/// The pact of messages that a JSON value writes, or the message for its
/// first message that cannot be read.
pub open spec fn message_pact_of(j: JsonModel) -> Result<MessagePactModel, Seq<char>> {
    match parsed_messages(j, specified_version(parsed_metadata(j))) {
        Err(e) => Err(e),
        Ok(messages) => Ok(
            MessagePactModel {
                consumer: consumer_of(j),
                provider: provider_of(j),
                messages,
                metadata: parsed_metadata(j),
                specification_version: specified_version(parsed_metadata(j)),
            },
        ),
    }
}

/// An error among the first `n` messages is the error of all of them.
proof fn lemma_messages_error(items: Seq<JsonModel>, spec: PactSpecification, n: nat, m: nat)
    requires
        n <= m,
        messages_of(items, spec, n) is Err,
    ensures
        messages_of(items, spec, m) == messages_of(items, spec, n),
    decreases m - n,
{
    if n < m {
        lemma_messages_error(items, spec, n, (m - 1) as nat);
    }
}

/// The JSON values by which messages are written for a version of the
/// specification.
pub open spec fn messages_json(messages: Seq<MessageModel>, spec: PactSpecification) -> Seq<
    JsonModel,
> {
    Seq::new(messages.len(), |i: int| JsonModel::Object(message_members(messages[i], spec)))
}

/// The messages of a pact of version 3 as version 4 holds them.
pub open spec fn lifted_messages(messages: Seq<MessageModel>) -> Seq<V4Model> {
    Seq::new(
        messages.len(),
        |i: int| V4Model::AsynchronousMessage(message_as_async(messages[i])),
    )
}

/// A pact of messages as a pact of version 4.
pub open spec fn message_pact_as_v4(p: MessagePactModel) -> V4PactModel {
    V4PactModel {
        consumer: p.consumer,
        provider: p.provider,
        interactions: lifted_messages(p.messages),
        metadata: metadata_objects(p.metadata),
    }
}

/// The message for a version of the specification that has no pacts of
/// messages.
pub open spec fn message_pact_fault() -> Seq<char> {
    "Message Pacts require minimum V3 specification"@
}

/// The members by which a pact of messages is written for a version of the
/// specification; versions before 3 have no such pacts.
pub open spec fn message_pact_members(p: MessagePactModel, spec: PactSpecification) -> Result<
    Entries<JsonModel>,
    Seq<char>,
> {
    if spec is V3 {
        Ok(
            pact_members(
                p.consumer,
                p.provider,
                "messages"@,
                messages_json(p.messages, spec),
                metadata_members(p.metadata, spec),
            ),
        )
    } else if spec is V4 {
        Ok(v4_pact_members(message_pact_as_v4(p)))
    } else {
        Err(message_pact_fault())
    }
}

/// Writes groups of metadata as JSON objects of strings.
fn metadata_as_objects(metadata: &Metadata) -> (r: SortedMap<Json>)
    ensures
        r.deep_view() == metadata_objects(metadata.deep_view()),
{
    let mut r: SortedMap<Json> = SortedMap::new();
    let ghost groups = metadata.deep_view();
    let mut k: usize = 0;
    while k < metadata.entries.len()
        invariant
            k <= metadata.entries.len(),
            groups == metadata.deep_view(),
            r.deep_view() == metadata_objects(groups.take(k as int)),
        decreases metadata.entries.len() - k,
    {
        proof {
            let next = groups.take(k + 1);
            assert(next.drop_last() == groups.take(k as int));
            assert(next.last() == groups[k as int]);
        }
        r.insert(
            metadata.entries[k].0.clone(),
            Json::object(strings_of_members(&metadata.entries[k].1)),
        );
        k += 1;
    }
    proof {
        assert(groups.take(metadata.entries.len() as int) == groups);
    }
    r
}

impl MessagePact {
    /// A pact without messages, between a default consumer and a default
    /// provider.
    pub fn default() -> (r: MessagePact)
        ensures
            r.deep_view() == (MessagePactModel {
                consumer: "default_consumer"@,
                provider: "default_provider"@,
                messages: seq![],
                metadata: default_metadata_spec(),
                specification_version: PactSpecification::V3,
            }),
    {
        let messages: Vec<Message> = Vec::new();
        assert(messages.deep_view() =~= Seq::<MessageModel>::empty());
        MessagePact {
            consumer: Consumer { name: "default_consumer".to_owned() },
            provider: Provider { name: "default_provider".to_owned() },
            messages,
            metadata: RequestResponsePact::default_metadata(),
            specification_version: PactSpecification::V3,
        }
    }

    /// Reads a pact of messages from its JSON form, where `file` names
    /// where it came from.
    pub fn from_json(file: &str, pact_json: &Json) -> (r: Result<MessagePact, String>)
        ensures
            match r {
                Ok(pact) => message_pact_of(pact_json.deep_view()) == Ok::<
                    MessagePactModel,
                    Seq<char>,
                >(pact.deep_view()),
                Err(e) => message_pact_of(pact_json.deep_view()) == Err::<
                    MessagePactModel,
                    Seq<char>,
                >(e@),
            },
    {
        let metadata = parse_meta_data(pact_json);
        let spec_version = determine_spec_version(file, &metadata);
        let consumer = consumer_from_json(pact_json);
        let provider = provider_from_json(pact_json);
        let mut messages: Vec<Message> = Vec::new();
        assert(messages.deep_view() =~= Seq::<MessageModel>::empty());
        match pact_json.get("messages") {
            Some(v) => {
                proof {
                    lemma_json_model(*v);
                }
                match v {
                    Json::Array(array) => {
                        let ghost items = array.deep_view();
                        let mut index: usize = 0;
                        while index < array.len()
                            invariant
                                index <= array.len(),
                                items == array.deep_view(),
                                spec_version == specified_version(
                                    parsed_metadata(pact_json.deep_view()),
                                ),
                                parsed_messages(pact_json.deep_view(), spec_version)
                                    == messages_of(items, spec_version, items.len()),
                                messages_of(items, spec_version, index as nat) == Ok::<
                                    Seq<MessageModel>,
                                    Seq<char>,
                                >(messages.deep_view()),
                            decreases array.len() - index,
                        {
                            proof {
                                assert(items[index as int] == array@[index as int].deep_view());
                            }
                            match Message::from_json(index, &array[index], &spec_version) {
                                Ok(m) => {
                                    let ghost before = messages.deep_view();
                                    messages.push(m);
                                    assert(messages.deep_view() =~= before.push(m.deep_view()));
                                },
                                Err(e) => {
                                    proof {
                                        lemma_messages_error(
                                            items,
                                            spec_version,
                                            (index + 1) as nat,
                                            items.len(),
                                        );
                                    }
                                    return Err(e);
                                },
                            }
                            index += 1;
                        }
                    },
                    _ => {},
                }
            },
            None => {},
        }
        Ok(MessagePact { consumer, provider, messages, metadata, specification_version: spec_version })
    }

    /// The same pact as a pact of version 4.
    pub fn as_v4_pact(&self) -> (r: V4Pact)
        ensures
            r.deep_view() == message_pact_as_v4(self.deep_view()),
    {
        let mut interactions: Vec<V4Interaction> = Vec::new();
        let ghost all = lifted_messages(self.deep_view().messages);
        let mut i: usize = 0;
        while i < self.messages.len()
            invariant
                i <= self.messages.len(),
                all == lifted_messages(self.deep_view().messages),
                interactions.deep_view() == all.take(i as int),
            decreases self.messages.len() - i,
        {
            let item = V4Interaction::AsynchronousMessage(self.messages[i].as_v4_async_message());
            let ghost before = interactions.deep_view();
            interactions.push(item);
            proof {
                assert(interactions.deep_view() =~= before.push(item.deep_view()));
                assert(all.take(i + 1) == all.take(i as int).push(all[i as int]));
            }
            i += 1;
        }
        proof {
            assert(all.take(self.messages.len() as int) == all);
        }
        V4Pact {
            consumer: Consumer { name: self.consumer.name.clone() },
            provider: Provider { name: self.provider.name.clone() },
            interactions,
            metadata: metadata_as_objects(&self.metadata),
        }
    }

    /// Writes the pact as a JSON object for a version of the specification.
    pub fn to_json(&self, pact_spec: PactSpecification) -> (r: Result<Json, String>)
        ensures
            match r {
                Ok(j) => message_pact_members(self.deep_view(), pact_spec) == Ok::<
                    Entries<JsonModel>,
                    Seq<char>,
                >(j.deep_view()->Object_0) && j.deep_view() is Object,
                Err(e) => message_pact_members(self.deep_view(), pact_spec) == Err::<
                    Entries<JsonModel>,
                    Seq<char>,
                >(e@),
            },
    {
        match pact_spec {
            PactSpecification::V3 => {
                let mut messages: Vec<Json> = Vec::new();
                let ghost all = messages_json(self.deep_view().messages, pact_spec);
                let mut i: usize = 0;
                while i < self.messages.len()
                    invariant
                        i <= self.messages.len(),
                        all == messages_json(self.deep_view().messages, pact_spec),
                        messages.deep_view() == all.take(i as int),
                    decreases self.messages.len() - i,
                {
                    let item = self.messages[i].to_json(&pact_spec);
                    let ghost before = messages.deep_view();
                    messages.push(item);
                    proof {
                        assert(messages.deep_view() =~= before.push(item.deep_view()));
                        assert(all.take(i + 1) == all.take(i as int).push(all[i as int]));
                    }
                    i += 1;
                }
                proof {
                    assert(all.take(self.messages.len() as int) == all);
                }
                Ok(
                    pact_to_json(
                        &self.consumer,
                        &self.provider,
                        "messages",
                        messages,
                        metadata_to_json(&self.metadata, &pact_spec),
                    ),
                )
            },
            PactSpecification::V4 => Ok(self.as_v4_pact().to_v4_json()),
            _ => Err("Message Pacts require minimum V3 specification".to_owned()),
        }
    }

    /// The name of the file in which the pact is kept unless another is
    /// given.
    pub fn default_file_name(&self) -> (r: String)
        ensures
            r@ == file_name(self.deep_view().consumer, self.deep_view().provider),
    {
        default_file_name(&self.consumer, &self.provider)
    }
}

/// Whether some interaction is of the kind `kind`.
pub open spec fn has_kind(interactions: Seq<V4Model>, kind: V4InteractionType) -> bool {
    exists|i: int| 0 <= i < interactions.len() && v4_kind(#[trigger] interactions[i]) == kind
}

/// Whether the interactions are of more than one kind.
pub open spec fn mixed(interactions: Seq<V4Model>) -> bool {
    exists|i: int, j: int|
        0 <= i < interactions.len() && 0 <= j < interactions.len() && v4_kind(
            #[trigger] interactions[i],
        ) != v4_kind(#[trigger] interactions[j])
}

/// The interactions of a request and a response among those of version 4,
/// as versions 1 to 3 hold them, in their order.
pub open spec fn http_projection(interactions: Seq<V4Model>) -> Seq<RequestResponseModel>
    decreases interactions.len(),
{
    if interactions.len() == 0 {
        seq![]
    } else {
        match interactions.last() {
            V4Model::SynchronousHttp(h) => http_projection(interactions.drop_last()).push(
                http_as_request_response(h),
            ),
            _ => http_projection(interactions.drop_last()),
        }
    }
}

/// The interactions of one message among those of version 4, as version 3
/// holds them, in their order.
pub open spec fn message_projection(interactions: Seq<V4Model>) -> Seq<MessageModel>
    decreases interactions.len(),
{
    if interactions.len() == 0 {
        seq![]
    } else {
        match interactions.last() {
            V4Model::AsynchronousMessage(m) => message_projection(interactions.drop_last()).push(
                async_as_message(m),
            ),
            _ => message_projection(interactions.drop_last()),
        }
    }
}

/// The JSON texts of the members of a JSON object, each under its name.
pub open spec fn compact_members(m: Entries<JsonModel>) -> Entries<Seq<char>>
    decreases m.len(),
{
    if m.len() == 0 {
        seq![]
    } else {
        put(compact_members(m.drop_last()), m.last().0, compact_text(m.last().1))
    }
}

/// The metadata of a pact of version 4 as versions 1 to 3 hold them: the
/// groups that are objects, with the JSON texts of their members.
pub open spec fn metadata_compact(metadata: Entries<JsonModel>) -> MetadataModel
    decreases metadata.len(),
{
    if metadata.len() == 0 {
        seq![]
    } else {
        match metadata.last().1 {
            JsonModel::Object(m) => put(
                metadata_compact(metadata.drop_last()),
                metadata.last().0,
                compact_members(m),
            ),
            _ => metadata_compact(metadata.drop_last()),
        }
    }
}

/// The metadata of a pact of version 4 as groups of texts: the groups that
/// are objects, with the texts of their members.
pub open spec fn metadata_texts(metadata: Entries<JsonModel>) -> MetadataModel
    decreases metadata.len(),
{
    if metadata.len() == 0 {
        seq![]
    } else {
        match metadata.last().1 {
            JsonModel::Object(m) => put(
                metadata_texts(metadata.drop_last()),
                metadata.last().0,
                text_members(m),
            ),
            _ => metadata_texts(metadata.drop_last()),
        }
    }
}

/// The pact of requests and responses of version 3 that stands for a pact
/// of version 4 whose interactions are all of a request and a response.
pub open spec fn v4_as_request_response(p: V4PactModel) -> RequestResponsePactModel {
    RequestResponsePactModel {
        consumer: p.consumer,
        provider: p.provider,
        interactions: http_projection(p.interactions),
        metadata: metadata_compact(p.metadata),
        specification_version: PactSpecification::V3,
    }
}

/// The pact of messages of version 3 that stands for a pact of version 4
/// whose interactions are all of one message.
pub open spec fn v4_as_message_pact(p: V4PactModel) -> MessagePactModel {
    MessagePactModel {
        consumer: p.consumer,
        provider: p.provider,
        messages: message_projection(p.interactions),
        metadata: metadata_compact(p.metadata),
        specification_version: PactSpecification::V3,
    }
}

/// The mathematical value of a `Pact`.
pub enum PactModel {
    RequestResponse(RequestResponsePactModel),
    Message(MessagePactModel),
    V4(V4PactModel),
}

/// A pact of any version and kind.
#[derive(Debug, PartialEq, Eq)]
pub enum Pact {
    RequestResponse(RequestResponsePact),
    Message(MessagePact),
    V4(V4Pact),
}

impl DeepView for Pact {
    type V = PactModel;

    open spec fn deep_view(&self) -> PactModel {
        match self {
            Pact::RequestResponse(p) => PactModel::RequestResponse(p.deep_view()),
            Pact::Message(p) => PactModel::Message(p.deep_view()),
            Pact::V4(p) => PactModel::V4(p.deep_view()),
        }
    }
}

impl Duplicate for Pact {
    fn duplicate(&self) -> (r: Pact) {
        match self {
            Pact::RequestResponse(p) => Pact::RequestResponse(p.duplicate()),
            Pact::Message(p) => Pact::Message(p.duplicate()),
            Pact::V4(p) => Pact::V4(p.duplicate()),
        }
    }
}

/// The name of a version of the specification in messages.
pub open spec fn version_label(spec: PactSpecification) -> Seq<char> {
    match spec {
        PactSpecification::Unknown => "Unknown"@,
        PactSpecification::V1 => "V1"@,
        PactSpecification::V1_1 => "V1_1"@,
        PactSpecification::V2 => "V2"@,
        PactSpecification::V3 => "V3"@,
        PactSpecification::V4 => "V4"@,
    }
}

/// The message for a pact with interactions of several kinds.
pub open spec fn mixed_fault(spec: PactSpecification) -> Seq<char> {
    "A Pact with mixed interaction types can't be downgraded to "@ + version_label(spec)
}

/// The message for a pact with interactions of a kind that earlier versions
/// do not have.
pub open spec fn kind_fault(first: V4Model, spec: PactSpecification) -> Seq<char> {
    "A Pact with "@ + kind_name(InteractionModel::V4(first))
        + " interactions can't be downgraded to "@ + version_label(spec)
}

/// Whether every interaction is of the kind `kind`.
pub open spec fn all_of_kind(interactions: Seq<V4Model>, kind: V4InteractionType) -> bool {
    forall|i: int| 0 <= i < interactions.len() ==> v4_kind(#[trigger] interactions[i]) == kind
}

/// The message for interactions that are not all of the one kind that was
/// asked for: they are of several kinds, or all of another kind.
pub open spec fn conversion_fault(interactions: Seq<V4Model>, spec: PactSpecification) -> Seq<
    char,
> {
    if mixed(interactions) {
        mixed_fault(spec)
    } else {
        kind_fault(interactions[0], spec)
    }
}

/// A pact of version 4 as a pact of requests and responses of version 3.
/// Every interaction must be of a request and a response; an interaction of
/// another kind is an error, and none is left out.
pub open spec fn v4_to_request_response(p: V4PactModel) -> Result<
    RequestResponsePactModel,
    Seq<char>,
> {
    if all_of_kind(p.interactions, V4InteractionType::Synchronous_HTTP) {
        Ok(v4_as_request_response(p))
    } else {
        Err(conversion_fault(p.interactions, PactSpecification::V3))
    }
}

/// A pact of version 4 as a pact of messages of version 3. Every
/// interaction must be of one message; an interaction of another kind is an
/// error, and none is left out.
pub open spec fn v4_to_message_pact(p: V4PactModel) -> Result<MessagePactModel, Seq<char>> {
    if all_of_kind(p.interactions, V4InteractionType::Asynchronous_Messages) {
        Ok(v4_as_message_pact(p))
    } else {
        Err(conversion_fault(p.interactions, PactSpecification::V3))
    }
}

/// A pact of version 4 as a pact of an earlier version `spec`. All its
/// interactions must be of one kind. A pact of requests and responses, or
/// without interactions, becomes a pact of requests and responses; one of
/// messages becomes a pact of messages; and a pact with interactions of
/// several kinds, or of a message and its replies, has no earlier form.
pub open spec fn downgraded(p: V4PactModel, spec: PactSpecification) -> Result<
    PactModel,
    Seq<char>,
> {
    if mixed(p.interactions) {
        Err(mixed_fault(spec))
    } else if p.interactions.len() == 0 || has_kind(
        p.interactions,
        V4InteractionType::Synchronous_HTTP,
    ) {
        Ok(PactModel::RequestResponse(v4_as_request_response(p)))
    } else if has_kind(p.interactions, V4InteractionType::Asynchronous_Messages) {
        Ok(PactModel::Message(v4_as_message_pact(p)))
    } else {
        Err(kind_fault(p.interactions[0], spec))
    }
}

/// In a pact whose interactions are all of a request and a response, the
/// projection holds every one of them, in their order, as versions 1 to 3
/// hold it.
pub proof fn lemma_http_projection(interactions: Seq<V4Model>)
    requires
        forall|i: int| 0 <= i < interactions.len() ==> (#[trigger] interactions[i]) is SynchronousHttp,
    ensures
        http_projection(interactions).len() == interactions.len(),
        forall|i: int|
            0 <= i < interactions.len() ==> (#[trigger] http_projection(interactions)[i])
                == http_as_request_response(interactions[i]->SynchronousHttp_0),
    decreases interactions.len(),
{
    if interactions.len() > 0 {
        let init = interactions.drop_last();
        assert forall|i: int| 0 <= i < init.len() implies (#[trigger] init[i]) is SynchronousHttp by {
            assert(init[i] == interactions[i]);
        }
        lemma_http_projection(init);
        assert(interactions.last() == interactions[interactions.len() - 1]);
        assert forall|i: int| 0 <= i < interactions.len() implies (#[trigger] http_projection(
            interactions,
        )[i]) == http_as_request_response(interactions[i]->SynchronousHttp_0) by {
            if i < init.len() {
                assert(init[i] == interactions[i]);
                assert(http_projection(interactions)[i] == http_projection(init)[i]);
            }
        }
    }
}

/// A pact of version 4 whose interactions are all of a request and a
/// response has an earlier form: a pact of requests and responses in which
/// every interaction has the same description, provider states, request
/// and response, and so the same method, path, query, headers, body and
/// status.
pub proof fn lemma_downgrade_http(p: V4PactModel, spec: PactSpecification)
    requires
        forall|i: int| 0 <= i < p.interactions.len() ==> (#[trigger] p.interactions[i]) is SynchronousHttp,
    ensures
        downgraded(p, spec) == Ok::<PactModel, Seq<char>>(
            PactModel::RequestResponse(v4_as_request_response(p)),
        ),
        v4_as_request_response(p).interactions.len() == p.interactions.len(),
        forall|i: int|
            0 <= i < p.interactions.len() ==> (#[trigger] v4_as_request_response(
                p,
            ).interactions[i]) == http_as_request_response(p.interactions[i]->SynchronousHttp_0),
{
    lemma_http_projection(p.interactions);
    if p.interactions.len() > 0 {
        assert(v4_kind(p.interactions[0]) == V4InteractionType::Synchronous_HTTP);
    }
    assert(!mixed(p.interactions));
}

/// Where a pact of version 4 has a form as a pact of requests and
/// responses, that form holds every interaction of the pact, in their
/// order: none is left out. Where it has an interaction of another kind,
/// it has no such form.
pub proof fn lemma_request_response_form_keeps_all(p: V4PactModel)
    ensures
        match v4_to_request_response(p) {
            Ok(q) => q.interactions.len() == p.interactions.len() && forall|i: int|
                0 <= i < p.interactions.len() ==> (#[trigger] p.interactions[i]) is SynchronousHttp
                    && q.interactions[i] == http_as_request_response(
                    p.interactions[i]->SynchronousHttp_0,
                ),
            Err(_) => exists|i: int|
                0 <= i < p.interactions.len() && !((#[trigger] p.interactions[i]) is SynchronousHttp),
        },
{
    if all_of_kind(p.interactions, V4InteractionType::Synchronous_HTTP) {
        assert forall|i: int| 0 <= i < p.interactions.len() implies (
        #[trigger] p.interactions[i]) is SynchronousHttp by {
            assert(v4_kind(p.interactions[i]) == V4InteractionType::Synchronous_HTTP);
        }
        lemma_http_projection(p.interactions);
    } else {
        let i = choose|i: int|
            0 <= i < p.interactions.len() && v4_kind(#[trigger] p.interactions[i])
                != V4InteractionType::Synchronous_HTTP;
        assert(!(p.interactions[i] is SynchronousHttp));
    }
}

/// In a pact whose interactions are all of one message, the projection
/// holds every one of them, in their order, as version 3 holds it.
pub proof fn lemma_message_projection(interactions: Seq<V4Model>)
    requires
        forall|i: int|
            0 <= i < interactions.len() ==> (#[trigger] interactions[i]) is AsynchronousMessage,
    ensures
        message_projection(interactions).len() == interactions.len(),
        forall|i: int|
            0 <= i < interactions.len() ==> (#[trigger] message_projection(interactions)[i])
                == async_as_message(interactions[i]->AsynchronousMessage_0),
    decreases interactions.len(),
{
    if interactions.len() > 0 {
        let init = interactions.drop_last();
        assert forall|i: int| 0 <= i < init.len() implies (
        #[trigger] init[i]) is AsynchronousMessage by {
            assert(init[i] == interactions[i]);
        }
        lemma_message_projection(init);
        assert(interactions.last() == interactions[interactions.len() - 1]);
        assert forall|i: int| 0 <= i < interactions.len() implies (#[trigger] message_projection(
            interactions,
        )[i]) == async_as_message(interactions[i]->AsynchronousMessage_0) by {
            if i < init.len() {
                assert(init[i] == interactions[i]);
                assert(message_projection(interactions)[i] == message_projection(init)[i]);
            }
        }
    }
}

/// Where a pact of version 4 has a form as a pact of messages, that form
/// holds every interaction of the pact, in their order: none is left out.
/// Where it has an interaction of another kind, it has no such form.
pub proof fn lemma_message_form_keeps_all(p: V4PactModel)
    ensures
        match v4_to_message_pact(p) {
            Ok(q) => q.messages.len() == p.interactions.len() && forall|i: int|
                0 <= i < p.interactions.len() ==> (
                #[trigger] p.interactions[i]) is AsynchronousMessage && q.messages[i]
                    == async_as_message(p.interactions[i]->AsynchronousMessage_0),
            Err(_) => exists|i: int|
                0 <= i < p.interactions.len() && !((
                #[trigger] p.interactions[i]) is AsynchronousMessage),
        },
{
    if all_of_kind(p.interactions, V4InteractionType::Asynchronous_Messages) {
        assert forall|i: int| 0 <= i < p.interactions.len() implies (
        #[trigger] p.interactions[i]) is AsynchronousMessage by {
            assert(v4_kind(p.interactions[i]) == V4InteractionType::Asynchronous_Messages);
        }
        lemma_message_projection(p.interactions);
    } else {
        let i = choose|i: int|
            0 <= i < p.interactions.len() && v4_kind(#[trigger] p.interactions[i])
                != V4InteractionType::Asynchronous_Messages;
        assert(!(p.interactions[i] is AsynchronousMessage));
    }
}

/// A pact of version 4 with an interaction of a request and a response and
/// an interaction of a message has no earlier form, whatever the earlier
/// version, and no form as a pact of one kind.
pub proof fn lemma_downgrade_mixed(p: V4PactModel, spec: PactSpecification)
    requires
        has_kind(p.interactions, V4InteractionType::Synchronous_HTTP),
        has_kind(p.interactions, V4InteractionType::Asynchronous_Messages),
    ensures
        downgraded(p, spec) == Err::<PactModel, Seq<char>>(mixed_fault(spec)),
        v4_to_request_response(p) == Err::<RequestResponsePactModel, Seq<char>>(
            mixed_fault(PactSpecification::V3),
        ),
        v4_to_message_pact(p) == Err::<MessagePactModel, Seq<char>>(
            mixed_fault(PactSpecification::V3),
        ),
{
    let i = choose|i: int|
        0 <= i < p.interactions.len() && v4_kind(#[trigger] p.interactions[i])
            == V4InteractionType::Synchronous_HTTP;
    let j = choose|j: int|
        0 <= j < p.interactions.len() && v4_kind(#[trigger] p.interactions[j])
            == V4InteractionType::Asynchronous_Messages;
    assert(v4_kind(p.interactions[i]) != v4_kind(p.interactions[j]));
}

/// The metadata of a pact of version 4: those that its member `metadata`
/// writes, as they are, where that is an object.
pub open spec fn v4_metadata(j: JsonModel) -> Entries<JsonModel> {
    match member(j, "metadata"@) {
        Some(JsonModel::Object(m)) => m,
        _ => seq![],
    }
}

/// The pact of version 4 that a JSON value writes, where `source` names
/// where it came from. Interactions that cannot be read are left out.
pub open spec fn v4_pact_of(source: Seq<char>, j: JsonModel) -> V4PactModel {
    V4PactModel {
        consumer: consumer_of(j),
        provider: provider_of(j),
        interactions: v4_interactions(source, j),
        metadata: v4_metadata(j),
    }
}

/// The members by which a pact of version 4 is written for a version of the
/// specification: as it is for version 4, else in its earlier form, where
/// it has one.
pub open spec fn v4_pact_json(p: V4PactModel, spec: PactSpecification) -> Result<
    Entries<JsonModel>,
    Seq<char>,
> {
    if spec is V4 {
        Ok(v4_pact_members(p))
    } else {
        match downgraded(p, spec) {
            Err(e) => Err(e),
            Ok(PactModel::RequestResponse(r)) => Ok(request_response_pact_members(r, spec)),
            Ok(PactModel::Message(m)) => message_pact_members(m, spec),
            Ok(PactModel::V4(v)) => Ok(v4_pact_members(v)),
        }
    }
}

/// Reads the texts of the members of a JSON object as JSON writes them.
fn compact_texts_of(m: &SortedMap<Json>) -> (r: SortedMap<String>)
    ensures
        r.deep_view() == compact_members(m.deep_view()),
{
    let mut r: SortedMap<String> = SortedMap::new();
    let ghost all = m.deep_view();
    let mut i: usize = 0;
    while i < m.entries.len()
        invariant
            i <= m.entries.len(),
            all == m.deep_view(),
            r.deep_view() == compact_members(all.take(i as int)),
        decreases m.entries.len() - i,
    {
        proof {
            let next = all.take(i + 1);
            assert(next.drop_last() == all.take(i as int));
            assert(next.last() == all[i as int]);
        }
        r.insert(m.entries[i].0.clone(), json_text(&m.entries[i].1));
        i += 1;
    }
    proof {
        assert(all.take(m.entries.len() as int) == all);
    }
    r
}

/// Writes the name of a version of the specification for a message.
fn version_label_of(spec: &PactSpecification) -> (r: String)
    ensures
        r@ == version_label(*spec),
{
    match spec {
        PactSpecification::Unknown => "Unknown".to_owned(),
        PactSpecification::V1 => "V1".to_owned(),
        PactSpecification::V1_1 => "V1_1".to_owned(),
        PactSpecification::V2 => "V2".to_owned(),
        PactSpecification::V3 => "V3".to_owned(),
        PactSpecification::V4 => "V4".to_owned(),
    }
}

impl V4Pact {
    /// Reads a pact of version 4 from its JSON form, where `source` names
    /// where it came from.
    pub fn from_json(source: &str, pact_json: &Json) -> (r: V4Pact)
        ensures
            r.deep_view() == v4_pact_of(source@, pact_json.deep_view()),
    {
        let metadata: SortedMap<Json> = match pact_json.get("metadata") {
            Some(v) => {
                proof {
                    lemma_json_model(*v);
                }
                match v {
                    Json::Object(m) => m.duplicate(),
                    _ => SortedMap::new(),
                }
            },
            None => SortedMap::new(),
        };
        V4Pact {
            consumer: consumer_from_json(pact_json),
            provider: provider_from_json(pact_json),
            interactions: interactions_from_json(pact_json, source),
            metadata,
        }
    }

    /// Whether the pact has an interaction of the kind `interaction_type`.
    pub fn has_interactions(&self, interaction_type: V4InteractionType) -> (b: bool)
        ensures
            b == has_kind(self.deep_view().interactions, interaction_type),
    {
        let ghost all = self.deep_view().interactions;
        let mut i: usize = 0;
        while i < self.interactions.len()
            invariant
                i <= self.interactions.len(),
                all == self.interactions.deep_view(),
                forall|k: int| 0 <= k < i ==> v4_kind(#[trigger] all[k]) != interaction_type,
            decreases self.interactions.len() - i,
        {
            if self.interactions[i].v4_type().is(interaction_type) {
                assert(v4_kind(all[i as int]) == interaction_type);
                return true;
            }
            i += 1;
        }
        false
    }

    /// Whether the pact has interactions of more than one kind.
    pub fn has_mixed_interactions(&self) -> (b: bool)
        ensures
            b == mixed(self.deep_view().interactions),
    {
        let ghost all = self.deep_view().interactions;
        if self.interactions.len() == 0 {
            return false;
        }
        let first = self.interactions[0].v4_type();
        let mut i: usize = 1;
        while i < self.interactions.len()
            invariant
                1 <= i <= self.interactions.len(),
                all == self.interactions.deep_view(),
                first == v4_kind(all[0]),
                forall|k: int| 0 <= k < i ==> v4_kind(#[trigger] all[k]) == first,
            decreases self.interactions.len() - i,
        {
            if !self.interactions[i].v4_type().is(first) {
                assert(v4_kind(all[i as int]) != v4_kind(all[0]));
                return true;
            }
            i += 1;
        }
        false
    }

    /// The metadata of the pact as groups of texts.
    pub fn metadata(&self) -> (r: Metadata)
        ensures
            r.deep_view() == metadata_texts(self.deep_view().metadata),
    {
        let mut r: Metadata = SortedMap::new();
        let ghost all = self.metadata.deep_view();
        let mut i: usize = 0;
        while i < self.metadata.entries.len()
            invariant
                i <= self.metadata.entries.len(),
                all == self.metadata.deep_view(),
                r.deep_view() == metadata_texts(all.take(i as int)),
            decreases self.metadata.entries.len() - i,
        {
            let item = &self.metadata.entries[i].1;
            proof {
                let next = all.take(i + 1);
                assert(next.drop_last() == all.take(i as int));
                assert(next.last() == all[i as int]);
                lemma_json_model(*item);
            }
            match item {
                Json::Object(m) => {
                    r.insert(self.metadata.entries[i].0.clone(), texts_of_members(m));
                },
                _ => {},
            }
            i += 1;
        }
        proof {
            assert(all.take(self.metadata.entries.len() as int) == all);
        }
        r
    }

    /// The metadata of the pact as versions 1 to 3 hold them.
    fn compact_metadata(&self) -> (r: Metadata)
        ensures
            r.deep_view() == metadata_compact(self.deep_view().metadata),
    {
        let mut r: Metadata = SortedMap::new();
        let ghost all = self.metadata.deep_view();
        let mut i: usize = 0;
        while i < self.metadata.entries.len()
            invariant
                i <= self.metadata.entries.len(),
                all == self.metadata.deep_view(),
                r.deep_view() == metadata_compact(all.take(i as int)),
            decreases self.metadata.entries.len() - i,
        {
            let item = &self.metadata.entries[i].1;
            proof {
                let next = all.take(i + 1);
                assert(next.drop_last() == all.take(i as int));
                assert(next.last() == all[i as int]);
                lemma_json_model(*item);
            }
            match item {
                Json::Object(m) => {
                    r.insert(self.metadata.entries[i].0.clone(), compact_texts_of(m));
                },
                _ => {},
            }
            i += 1;
        }
        proof {
            assert(all.take(self.metadata.entries.len() as int) == all);
        }
        r
    }

    /// The pact of requests and responses of version 3 that holds the
    /// interactions of a request and a response.
    fn request_response_form(&self) -> (r: RequestResponsePact)
        ensures
            r.deep_view() == v4_as_request_response(self.deep_view()),
    {
        let mut interactions: Vec<RequestResponseInteraction> = Vec::new();
        assert(interactions.deep_view() =~= Seq::<RequestResponseModel>::empty());
        let ghost all = self.deep_view().interactions;
        let mut i: usize = 0;
        while i < self.interactions.len()
            invariant
                i <= self.interactions.len(),
                all == self.interactions.deep_view(),
                interactions.deep_view() == http_projection(all.take(i as int)),
            decreases self.interactions.len() - i,
        {
            proof {
                let next = all.take(i + 1);
                assert(next.drop_last() == all.take(i as int));
                assert(next.last() == self.interactions@[i as int].deep_view());
            }
            match &self.interactions[i] {
                V4Interaction::SynchronousHttp(h) => {
                    let item = h.as_request_response();
                    let ghost before = interactions.deep_view();
                    interactions.push(item);
                    assert(interactions.deep_view() =~= before.push(item.deep_view()));
                },
                _ => {},
            }
            i += 1;
        }
        proof {
            assert(all.take(self.interactions.len() as int) == all);
        }
        RequestResponsePact {
            consumer: Consumer { name: self.consumer.name.clone() },
            provider: Provider { name: self.provider.name.clone() },
            interactions,
            metadata: self.compact_metadata(),
            specification_version: PactSpecification::V3,
        }
    }

    /// The pact of messages of version 3 that holds the interactions of
    /// one message.
    fn message_form(&self) -> (r: MessagePact)
        ensures
            r.deep_view() == v4_as_message_pact(self.deep_view()),
    {
        let mut messages: Vec<Message> = Vec::new();
        assert(messages.deep_view() =~= Seq::<MessageModel>::empty());
        let ghost all = self.deep_view().interactions;
        let mut i: usize = 0;
        while i < self.interactions.len()
            invariant
                i <= self.interactions.len(),
                all == self.interactions.deep_view(),
                messages.deep_view() == message_projection(all.take(i as int)),
            decreases self.interactions.len() - i,
        {
            proof {
                let next = all.take(i + 1);
                assert(next.drop_last() == all.take(i as int));
                assert(next.last() == self.interactions@[i as int].deep_view());
            }
            match &self.interactions[i] {
                V4Interaction::AsynchronousMessage(m) => {
                    let item = m.as_message();
                    let ghost before = messages.deep_view();
                    messages.push(item);
                    assert(messages.deep_view() =~= before.push(item.deep_view()));
                },
                _ => {},
            }
            i += 1;
        }
        proof {
            assert(all.take(self.interactions.len() as int) == all);
        }
        MessagePact {
            consumer: Consumer { name: self.consumer.name.clone() },
            provider: Provider { name: self.provider.name.clone() },
            messages,
            metadata: self.compact_metadata(),
            specification_version: PactSpecification::V3,
        }
    }

    /// Whether every interaction of the pact is of the kind
    /// `interaction_type`.
    pub fn has_only_interactions(&self, interaction_type: V4InteractionType) -> (b: bool)
        ensures
            b == all_of_kind(self.deep_view().interactions, interaction_type),
    {
        let ghost all = self.deep_view().interactions;
        let mut i: usize = 0;
        while i < self.interactions.len()
            invariant
                i <= self.interactions.len(),
                all == self.interactions.deep_view(),
                forall|k: int| 0 <= k < i ==> v4_kind(#[trigger] all[k]) == interaction_type,
            decreases self.interactions.len() - i,
        {
            if !self.interactions[i].v4_type().is(interaction_type) {
                assert(v4_kind(all[i as int]) != interaction_type);
                return false;
            }
            i += 1;
        }
        true
    }

    /// Says why the interactions of the pact, which are not all of the one
    /// kind that was asked for, have no form in the version `pact_spec`.
    fn conversion_fault(&self, pact_spec: &PactSpecification) -> (r: String)
        requires
            self.interactions.len() > 0,
        ensures
            r@ == conversion_fault(self.deep_view().interactions, *pact_spec),
    {
        if self.has_mixed_interactions() {
            let mut message =
                "A Pact with mixed interaction types can't be downgraded to ".to_owned();
            message.append(version_label_of(pact_spec).as_str());
            message
        } else {
            let first = Interaction::V4(self.interactions[0].duplicate());
            let mut message = "A Pact with ".to_owned();
            message.append(first.type_of().as_str());
            message.append(" interactions can't be downgraded to ");
            message.append(version_label_of(pact_spec).as_str());
            message
        }
    }

    /// The pact as a pact of requests and responses of version 3. A pact
    /// with an interaction of another kind has no such form.
    pub fn as_request_response_pact(&self) -> (r: Result<RequestResponsePact, String>)
        ensures
            match r {
                Ok(q) => v4_to_request_response(self.deep_view()) == Ok::<
                    RequestResponsePactModel,
                    Seq<char>,
                >(q.deep_view()),
                Err(e) => v4_to_request_response(self.deep_view()) == Err::<
                    RequestResponsePactModel,
                    Seq<char>,
                >(e@),
            },
    {
        if self.has_only_interactions(V4InteractionType::Synchronous_HTTP) {
            Ok(self.request_response_form())
        } else {
            Err(self.conversion_fault(&PactSpecification::V3))
        }
    }

    /// The pact as a pact of messages of version 3. A pact with an
    /// interaction of another kind has no such form.
    pub fn as_message_pact(&self) -> (r: Result<MessagePact, String>)
        ensures
            match r {
                Ok(q) => v4_to_message_pact(self.deep_view()) == Ok::<MessagePactModel, Seq<char>>(
                    q.deep_view(),
                ),
                Err(e) => v4_to_message_pact(self.deep_view()) == Err::<
                    MessagePactModel,
                    Seq<char>,
                >(e@),
            },
    {
        if self.has_only_interactions(V4InteractionType::Asynchronous_Messages) {
            Ok(self.message_form())
        } else {
            Err(self.conversion_fault(&PactSpecification::V3))
        }
    }

    /// The pact in the form of the earlier version `pact_spec`, where it
    /// has one: all its interactions must be of one kind that the earlier
    /// versions have.
    pub fn downgrade(&self, pact_spec: &PactSpecification) -> (r: Result<Pact, String>)
        ensures
            match r {
                Ok(pact) => downgraded(self.deep_view(), *pact_spec) == Ok::<PactModel, Seq<char>>(
                    pact.deep_view(),
                ),
                Err(e) => downgraded(self.deep_view(), *pact_spec) == Err::<PactModel, Seq<char>>(
                    e@,
                ),
            },
    {
        if self.interactions.len() == 0 {
            Ok(Pact::RequestResponse(self.request_response_form()))
        } else if self.has_mixed_interactions() {
            Err(self.conversion_fault(pact_spec))
        } else if self.has_interactions(V4InteractionType::Synchronous_HTTP) {
            Ok(Pact::RequestResponse(self.request_response_form()))
        } else if self.has_interactions(V4InteractionType::Asynchronous_Messages) {
            Ok(Pact::Message(self.message_form()))
        } else {
            Err(self.conversion_fault(pact_spec))
        }
    }

    /// Writes the pact as a JSON object for a version of the specification.
    /// The metadata record that version and the version of this library,
    /// whatever they recorded before.
    pub fn to_json(&self, pact_spec: PactSpecification) -> (r: Result<Json, String>)
        ensures
            match r {
                Ok(j) => j.deep_view() is Object && v4_pact_json(self.deep_view(), pact_spec)
                    == Ok::<Entries<JsonModel>, Seq<char>>(j.deep_view()->Object_0),
                Err(e) => v4_pact_json(self.deep_view(), pact_spec) == Err::<
                    Entries<JsonModel>,
                    Seq<char>,
                >(e@),
            },
    {
        match pact_spec {
            PactSpecification::V4 => Ok(self.to_v4_json()),
            _ => match self.downgrade(&pact_spec) {
                Err(e) => Err(e),
                Ok(Pact::RequestResponse(r)) => Ok(r.to_json(pact_spec)),
                Ok(Pact::Message(m)) => m.to_json(pact_spec),
                Ok(Pact::V4(v)) => Ok(v.to_v4_json()),
            },
        }
    }

    /// Adds an interaction to the pact, as version 4 holds it.
    pub fn add_interaction(&mut self, interaction: &Interaction) -> (r: Result<(), String>)
        ensures
            r is Ok,
            as_v4_spec(interaction.deep_view()) matches Some(i) && final(self).deep_view() == (
            V4PactModel {
                interactions: old(self).deep_view().interactions.push(i),
                ..old(self).deep_view()
            }),
    {
        match interaction.as_v4() {
            None => Err(
                "Can only add interactions that can be converted to V4 to this Pact".to_owned(),
            ),
            Some(i) => {
                let ghost before = self.interactions.deep_view();
                self.interactions.push(i);
                assert(self.interactions.deep_view() =~= before.push(i.deep_view()));
                Ok(())
            },
        }
    }

    /// The name of the file in which the pact is kept unless another is
    /// given.
    pub fn default_file_name(&self) -> (r: String)
        ensures
            r@ == file_name(self.deep_view().consumer, self.deep_view().provider),
    {
        default_file_name(&self.consumer, &self.provider)
    }
}

/// The message for a JSON value that is no pact.
pub open spec fn not_a_pact_fault(source: Seq<char>) -> Seq<char> {
    "Failed to parse Pact JSON from source '"@ + source + "' - it is not a valid pact file"@
}

/// The pact that a JSON value writes, where `source` names where it came
/// from: a pact of messages where it has a member `messages`; else a pact
/// of version 4 where its metadata give that version; else a pact of
/// requests and responses. A value that is no object is no pact.
pub open spec fn pact_of(source: Seq<char>, j: JsonModel) -> Result<PactModel, Seq<char>> {
    match j {
        JsonModel::Object(m) => if has_key(m, "messages"@) {
            match message_pact_of(j) {
                Ok(p) => Ok(PactModel::Message(p)),
                Err(e) => Err(e),
            }
        } else if specified_version(parsed_metadata(j)) is V4 {
            Ok(PactModel::V4(v4_pact_of(source, j)))
        } else {
            match request_response_pact_of(j) {
                Ok(p) => Ok(PactModel::RequestResponse(p)),
                Err(e) => Err(e),
            }
        },
        _ => Err(not_a_pact_fault(source)),
    }
}

/// Reads a pact of any version and kind from its JSON form, where `source`
/// names where it came from.
pub fn load_pact_from_json(source: &str, json: &Json) -> (r: Result<Pact, String>)
    ensures
        match r {
            Ok(pact) => pact_of(source@, json.deep_view()) == Ok::<PactModel, Seq<char>>(
                pact.deep_view(),
            ),
            Err(e) => pact_of(source@, json.deep_view()) == Err::<PactModel, Seq<char>>(e@),
        },
{
    proof {
        lemma_json_model(*json);
    }
    match json {
        Json::Object(map) => {
            if map.contains_key("messages") {
                match MessagePact::from_json(source, json) {
                    Ok(pact) => Ok(Pact::Message(pact)),
                    Err(e) => Err(e),
                }
            } else {
                let metadata = parse_meta_data(json);
                let spec_version = determine_spec_version(source, &metadata);
                match spec_version {
                    PactSpecification::V4 => Ok(Pact::V4(V4Pact::from_json(source, json))),
                    _ => match RequestResponsePact::from_json(source, json) {
                        Ok(pact) => Ok(Pact::RequestResponse(pact)),
                        Err(e) => Err(e),
                    },
                }
            }
        },
        _ => {
            let mut message = "Failed to parse Pact JSON from source '".to_owned();
            message.append(source);
            message.append("' - it is not a valid pact file");
            Err(message)
        },
    }
}

/// The interactions of a pact, each as an interaction of any kind.
pub open spec fn pact_interactions(p: PactModel) -> Seq<InteractionModel> {
    match p {
        PactModel::RequestResponse(r) => Seq::new(
            r.interactions.len(),
            |i: int| InteractionModel::RequestResponse(r.interactions[i]),
        ),
        PactModel::Message(m) => Seq::new(
            m.messages.len(),
            |i: int| InteractionModel::Message(m.messages[i]),
        ),
        PactModel::V4(v) => Seq::new(
            v.interactions.len(),
            |i: int| InteractionModel::V4(v.interactions[i]),
        ),
    }
}

/// The name of the consumer of a pact.
pub open spec fn pact_consumer(p: PactModel) -> Seq<char> {
    match p {
        PactModel::RequestResponse(r) => r.consumer,
        PactModel::Message(m) => m.consumer,
        PactModel::V4(v) => v.consumer,
    }
}

/// The name of the provider of a pact.
pub open spec fn pact_provider(p: PactModel) -> Seq<char> {
    match p {
        PactModel::RequestResponse(r) => r.provider,
        PactModel::Message(m) => m.provider,
        PactModel::V4(v) => v.provider,
    }
}

/// The version of the specification of a pact.
pub open spec fn pact_version(p: PactModel) -> PactSpecification {
    match p {
        PactModel::RequestResponse(r) => r.specification_version,
        PactModel::Message(m) => m.specification_version,
        PactModel::V4(_) => PactSpecification::V4,
    }
}

/// The members by which a pact is written for a version of the
/// specification, where it can be written for it.
pub open spec fn pact_json(p: PactModel, spec: PactSpecification) -> Result<
    Entries<JsonModel>,
    Seq<char>,
> {
    match p {
        PactModel::RequestResponse(r) => Ok(request_response_pact_members(r, spec)),
        PactModel::Message(m) => message_pact_members(m, spec),
        PactModel::V4(v) => v4_pact_json(v, spec),
    }
}

impl Pact {
    /// The consumer of the pact.
    pub fn consumer(&self) -> (r: Consumer)
        ensures
            r.name@ == pact_consumer(self.deep_view()),
    {
        match self {
            Pact::RequestResponse(p) => Consumer { name: p.consumer.name.clone() },
            Pact::Message(p) => Consumer { name: p.consumer.name.clone() },
            Pact::V4(p) => Consumer { name: p.consumer.name.clone() },
        }
    }

    /// The provider of the pact.
    pub fn provider(&self) -> (r: Provider)
        ensures
            r.name@ == pact_provider(self.deep_view()),
    {
        match self {
            Pact::RequestResponse(p) => Provider { name: p.provider.name.clone() },
            Pact::Message(p) => Provider { name: p.provider.name.clone() },
            Pact::V4(p) => Provider { name: p.provider.name.clone() },
        }
    }

    /// The interactions of the pact.
    pub fn interactions(&self) -> (r: Vec<Interaction>)
        ensures
            r.deep_view() == pact_interactions(self.deep_view()),
    {
        let mut r: Vec<Interaction> = Vec::new();
        let ghost all = pact_interactions(self.deep_view());
        match self {
            Pact::RequestResponse(p) => {
                let mut i: usize = 0;
                while i < p.interactions.len()
                    invariant
                        i <= p.interactions.len(),
                        all.len() == p.interactions.len(),
                        forall|k: int|
                            0 <= k < all.len() ==> all[k] == InteractionModel::RequestResponse(
                                #[trigger] p.interactions@[k].deep_view(),
                            ),
                        r.deep_view() == all.take(i as int),
                    decreases p.interactions.len() - i,
                {
                    let item = Interaction::RequestResponse(p.interactions[i].duplicate());
                    let ghost before = r.deep_view();
                    r.push(item);
                    proof {
                        assert(r.deep_view() =~= before.push(item.deep_view()));
                        assert(all.take(i + 1) == all.take(i as int).push(all[i as int]));
                    }
                    i += 1;
                }
                proof {
                    assert(all.take(p.interactions.len() as int) == all);
                }
            },
            Pact::Message(p) => {
                let mut i: usize = 0;
                while i < p.messages.len()
                    invariant
                        i <= p.messages.len(),
                        all.len() == p.messages.len(),
                        forall|k: int|
                            0 <= k < all.len() ==> all[k] == InteractionModel::Message(
                                #[trigger] p.messages@[k].deep_view(),
                            ),
                        r.deep_view() == all.take(i as int),
                    decreases p.messages.len() - i,
                {
                    let item = Interaction::Message(p.messages[i].duplicate());
                    let ghost before = r.deep_view();
                    r.push(item);
                    proof {
                        assert(r.deep_view() =~= before.push(item.deep_view()));
                        assert(all.take(i + 1) == all.take(i as int).push(all[i as int]));
                    }
                    i += 1;
                }
                proof {
                    assert(all.take(p.messages.len() as int) == all);
                }
            },
            Pact::V4(p) => {
                let mut i: usize = 0;
                while i < p.interactions.len()
                    invariant
                        i <= p.interactions.len(),
                        all.len() == p.interactions.len(),
                        forall|k: int|
                            0 <= k < all.len() ==> all[k] == InteractionModel::V4(
                                #[trigger] p.interactions@[k].deep_view(),
                            ),
                        r.deep_view() == all.take(i as int),
                    decreases p.interactions.len() - i,
                {
                    let item = Interaction::V4(p.interactions[i].duplicate());
                    let ghost before = r.deep_view();
                    r.push(item);
                    proof {
                        assert(r.deep_view() =~= before.push(item.deep_view()));
                        assert(all.take(i + 1) == all.take(i as int).push(all[i as int]));
                    }
                    i += 1;
                }
                proof {
                    assert(all.take(p.interactions.len() as int) == all);
                }
            },
        }
        r
    }

    /// The metadata of the pact as groups of texts.
    pub fn metadata(&self) -> (r: Metadata)
        ensures
            r.deep_view() == (match self.deep_view() {
                PactModel::RequestResponse(p) => p.metadata,
                PactModel::Message(p) => p.metadata,
                PactModel::V4(p) => metadata_texts(p.metadata),
            }),
    {
        match self {
            Pact::RequestResponse(p) => p.metadata.duplicate(),
            Pact::Message(p) => p.metadata.duplicate(),
            Pact::V4(p) => p.metadata(),
        }
    }

    /// The version of the specification of the pact.
    pub fn specification_version(&self) -> (r: PactSpecification)
        ensures
            r == pact_version(self.deep_view()),
    {
        match self {
            Pact::RequestResponse(p) => p.specification_version,
            Pact::Message(p) => p.specification_version,
            Pact::V4(_) => PactSpecification::V4,
        }
    }

    /// Writes the pact as a JSON object for a version of the specification.
    pub fn to_json(&self, pact_spec: PactSpecification) -> (r: Result<Json, String>)
        ensures
            match r {
                Ok(j) => j.deep_view() is Object && pact_json(self.deep_view(), pact_spec) == Ok::<
                    Entries<JsonModel>,
                    Seq<char>,
                >(j.deep_view()->Object_0),
                Err(e) => pact_json(self.deep_view(), pact_spec) == Err::<
                    Entries<JsonModel>,
                    Seq<char>,
                >(e@),
            },
    {
        match self {
            Pact::RequestResponse(p) => Ok(p.to_json(pact_spec)),
            Pact::Message(p) => p.to_json(pact_spec),
            Pact::V4(p) => p.to_json(pact_spec),
        }
    }

    /// The pact as a pact of requests and responses, which a pact of
    /// messages is not, nor a pact of version 4 with an interaction of
    /// another kind.
    pub fn as_request_response_pact(&self) -> (r: Result<RequestResponsePact, String>)
        ensures
            match self.deep_view() {
                PactModel::RequestResponse(p) => r matches Ok(q) && q.deep_view() == p,
                PactModel::V4(p) => match r {
                    Ok(q) => v4_to_request_response(p) == Ok::<RequestResponsePactModel, Seq<char>>(
                        q.deep_view(),
                    ),
                    Err(e) => v4_to_request_response(p) == Err::<
                        RequestResponsePactModel,
                        Seq<char>,
                    >(e@),
                },
                PactModel::Message(_) => r matches Err(e) && e@
                    == "Can't convert a Message Pact to a different type"@,
            },
    {
        match self {
            Pact::RequestResponse(p) => Ok(p.duplicate()),
            Pact::V4(p) => p.as_request_response_pact(),
            Pact::Message(_) => Err("Can't convert a Message Pact to a different type".to_owned()),
        }
    }

    /// The pact as a pact of messages, which a pact of requests and
    /// responses is not, nor a pact of version 4 with an interaction of
    /// another kind.
    pub fn as_message_pact(&self) -> (r: Result<MessagePact, String>)
        ensures
            match self.deep_view() {
                PactModel::Message(p) => r matches Ok(q) && q.deep_view() == p,
                PactModel::V4(p) => match r {
                    Ok(q) => v4_to_message_pact(p) == Ok::<MessagePactModel, Seq<char>>(
                        q.deep_view(),
                    ),
                    Err(e) => v4_to_message_pact(p) == Err::<MessagePactModel, Seq<char>>(e@),
                },
                PactModel::RequestResponse(_) => r matches Err(e) && e@
                    == "Can't convert a Request/response Pact to a different type"@,
            },
    {
        match self {
            Pact::Message(p) => Ok(p.duplicate()),
            Pact::V4(p) => p.as_message_pact(),
            Pact::RequestResponse(_) => Err(
                "Can't convert a Request/response Pact to a different type".to_owned(),
            ),
        }
    }

    /// The pact as a pact of version 4, which every pact has.
    pub fn as_v4_pact(&self) -> (r: V4Pact)
        ensures
            r.deep_view() == (match self.deep_view() {
                PactModel::RequestResponse(p) => as_v4_pact_spec(p),
                PactModel::Message(p) => message_pact_as_v4(p),
                PactModel::V4(p) => p,
            }),
    {
        match self {
            Pact::RequestResponse(p) => p.as_v4_pact(),
            Pact::Message(p) => p.as_v4_pact(),
            Pact::V4(p) => p.duplicate(),
        }
    }

    /// The name of the file in which the pact is kept unless another is
    /// given.
    pub fn default_file_name(&self) -> (r: String)
        ensures
            r@ == file_name(pact_consumer(self.deep_view()), pact_provider(self.deep_view())),
    {
        match self {
            Pact::RequestResponse(p) => p.default_file_name(),
            Pact::Message(p) => p.default_file_name(),
            Pact::V4(p) => p.default_file_name(),
        }
    }
}

/// The members by which groups of metadata are written have increasing
/// names.
pub proof fn lemma_group_members_increasing(metadata: MetadataModel)
    ensures
        keys_increasing(group_members(metadata)),
    decreases metadata.len(),
{
    if metadata.len() > 0 {
        lemma_group_members_increasing(metadata.drop_last());
        lemma_put_increasing(
            group_members(metadata.drop_last()),
            metadata_key(metadata.last().0),
            JsonModel::Object(string_members(metadata.last().1)),
        );
    }
}

/// The members by which the metadata of a pact of version 4 are written
/// have increasing names.
pub proof fn lemma_v4_group_members_increasing(metadata: Entries<JsonModel>)
    ensures
        keys_increasing(v4_group_members(metadata)),
    decreases metadata.len(),
{
    if metadata.len() > 0 {
        lemma_v4_group_members_increasing(metadata.drop_last());
        lemma_put_increasing(
            v4_group_members(metadata.drop_last()),
            metadata_key(metadata.last().0),
            metadata.last().1,
        );
    }
}

/// Whatever the members of metadata held, once stamped they hold the
/// version of the specification that the pact is written for and the
/// version of this library.
pub proof fn lemma_stamped(groups: Entries<JsonModel>, spec: PactSpecification)
    requires
        keys_increasing(groups),
    ensures
        lookup(stamped(groups, spec), "pactSpecification"@) == Some(
            version_object(version_text(spec)),
        ),
        lookup(stamped(groups, spec), "pactRust"@) == Some(version_object(library_version())),
{
    reveal_strlit("pactSpecification");
    reveal_strlit("pactRust");
    let first = put(groups, "pactSpecification"@, version_object(version_text(spec)));
    lemma_put_increasing(groups, "pactSpecification"@, version_object(version_text(spec)));
    lemma_lookup_put(
        groups,
        "pactSpecification"@,
        version_object(version_text(spec)),
        "pactSpecification"@,
    );
    lemma_lookup_put(first, "pactRust"@, version_object(library_version()), "pactRust"@);
    lemma_lookup_put(first, "pactRust"@, version_object(library_version()), "pactSpecification"@);
    assert("pactRust"@.len() != "pactSpecification"@.len());
}

/// A pact of versions 1 to 3 that is written for a version of the
/// specification records that version and the version of this library in
/// its metadata, whatever its metadata recorded before.
pub proof fn lemma_metadata_rewritten(metadata: MetadataModel, spec: PactSpecification)
    ensures
        lookup(metadata_members(metadata, spec), "pactSpecification"@) == Some(
            version_object(version_text(spec)),
        ),
        lookup(metadata_members(metadata, spec), "pactRust"@) == Some(
            version_object(library_version()),
        ),
{
    lemma_group_members_increasing(metadata);
    lemma_stamped(group_members(metadata), spec);
}

/// A pact of version 4 that is written as such records the version 4 of the
/// specification and the version of this library in its metadata, whatever
/// its metadata recorded before.
pub proof fn lemma_v4_metadata_rewritten(metadata: Entries<JsonModel>)
    ensures
        lookup(
            stamped(v4_group_members(metadata), PactSpecification::V4),
            "pactSpecification"@,
        ) == Some(version_object(version_text(PactSpecification::V4))),
        lookup(stamped(v4_group_members(metadata), PactSpecification::V4), "pactRust"@) == Some(
            version_object(library_version()),
        ),
{
    lemma_v4_group_members_increasing(metadata);
    lemma_stamped(v4_group_members(metadata), PactSpecification::V4);
}

/// The interaction of a request and a response that a JSON value writes for
/// a version of the specification: one of version 4 for that version, else
/// one of versions 1 to 3.
pub open spec fn http_interaction_of(source: Seq<char>, j: JsonModel, spec: PactSpecification) -> Result<
    InteractionModel,
    Seq<char>,
> {
    if spec is V4 {
        match crate::interactions::v4_interaction_of(source, 0, j) {
            Ok(i) => Ok(InteractionModel::V4(i)),
            Err(e) => Err(e),
        }
    } else {
        match request_response_of(0, j, spec) {
            Ok(i) => Ok(InteractionModel::RequestResponse(i)),
            Err(e) => Err(e),
        }
    }
}

/// The interaction of a message that a JSON value writes for a version of
/// the specification: one of version 4 for that version, else a message of
/// version 3.
pub open spec fn message_interaction_of(source: Seq<char>, j: JsonModel, spec: PactSpecification) -> Result<
    InteractionModel,
    Seq<char>,
> {
    if spec is V4 {
        match crate::interactions::v4_interaction_of(source, 0, j) {
            Ok(i) => Ok(InteractionModel::V4(i)),
            Err(e) => Err(e),
        }
    } else {
        match message_of(0, j, spec) {
            Ok(m) => Ok(InteractionModel::Message(m)),
            Err(e) => Err(e),
        }
    }
}

/// Reads an interaction of a request and a response from its JSON form for
/// a version of the specification, where `source` names where it came from.
pub fn http_interaction_from_json(source: &str, json: &Json, spec: &PactSpecification) -> (r:
    Result<Interaction, String>)
    ensures
        match r {
            Ok(i) => http_interaction_of(source@, json.deep_view(), *spec) == Ok::<
                InteractionModel,
                Seq<char>,
            >(i.deep_view()),
            Err(e) => http_interaction_of(source@, json.deep_view(), *spec) == Err::<
                InteractionModel,
                Seq<char>,
            >(e@),
        },
{
    match spec {
        PactSpecification::V4 => match crate::interactions::interaction_from_json(source, 0, json) {
            Ok(i) => Ok(Interaction::V4(i)),
            Err(e) => Err(e),
        },
        _ => match RequestResponseInteraction::from_json(0, json, spec) {
            Ok(i) => Ok(Interaction::RequestResponse(i)),
            Err(e) => Err(e),
        },
    }
}

/// Reads an interaction of a message from its JSON form for a version of
/// the specification, where `source` names where it came from.
pub fn message_interaction_from_json(source: &str, json: &Json, spec: &PactSpecification) -> (r:
    Result<Interaction, String>)
    ensures
        match r {
            Ok(i) => message_interaction_of(source@, json.deep_view(), *spec) == Ok::<
                InteractionModel,
                Seq<char>,
            >(i.deep_view()),
            Err(e) => message_interaction_of(source@, json.deep_view(), *spec) == Err::<
                InteractionModel,
                Seq<char>,
            >(e@),
        },
{
    match spec {
        PactSpecification::V4 => match crate::interactions::interaction_from_json(source, 0, json) {
            Ok(i) => Ok(Interaction::V4(i)),
            Err(e) => Err(e),
        },
        _ => match Message::from_json(0, json, spec) {
            Ok(m) => Ok(Interaction::Message(m)),
            Err(e) => Err(e),
        },
    }
}

} // verus!
