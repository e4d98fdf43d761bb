//! Interactions: one exchange of a request and a response, or of messages,
//! in the forms of all versions of the specification, with their keys and
//! the conflicts between them.

use vstd::prelude::*;
use crate::bodies::{BodyModel, OptionalBody};
use crate::collections::{lookup, put, Duplicate, Entries, Same, SortedMap};
use crate::content_types::{
    ascii_lowercase, parsed_content_type, to_ascii_lowercase, ContentType, ContentTypeModel,
};
use crate::generators::{
    generators_from, generators_from_json, generators_members, generators_to_json, no_generators,
    Generators, GeneratorsModel,
};
use crate::json::{compact_text, json_text, lemma_json_model, member, plain_text, Json, JsonModel};
use crate::matchingrules::{
    matchers_from, matchers_from_json, matchers_json, matchers_to_json, no_rules, renamed,
    CategoryModel, MatchingRules,
};
use crate::message::{
    calc_content_type, description_from_json, description_of, id_from_json, id_of, message_type,
    string_members, strings_of_members, text_members, texts_of_members, Message, MessageModel,
};
use crate::models::{
    default_request, default_response, request_differences, request_members, request_of,
    response_differences, response_members, response_of, Difference, DifferenceType,
    PactSpecification, Request, RequestModel, Response, ResponseModel,
};
use crate::provider_states::{states_json, states_of, states_to_json, ProviderState, StateModel};
use crate::text::{decimal, decimal_string, str_eq};
use crate::v4_parts::{
    body_from_v4, body_to_v4_json, v4_body_json, v4_body_of, v4_request_members, v4_request_of,
    v4_response_members, v4_response_of, HttpRequest, HttpResponse,
};

verus! {

/// What `std::collections::hash_map::DefaultHasher` makes of a text,
/// written in hexadecimal.
pub uninterp spec fn content_hash(text: Seq<char>) -> Seq<char>;

/// Feeds the text to a new `std::collections::hash_map::DefaultHasher` and
/// writes what it finishes with in hexadecimal, which this library refers to
/// as `content_hash`.
#[verifier::external_body]
pub(crate) fn hash_text(text: &str) -> (r: String)
    ensures
        r@ == content_hash(text@),
{
    let mut hasher = std::collections::hash_map::DefaultHasher::new();
    std::hash::Hash::hash(text, &mut hasher);
    format!("{:x}", std::hash::Hasher::finish(&hasher))
}

/// A conflict between two interactions.
#[derive(Debug, PartialEq, Eq, Hash)]
pub struct PactConflict {
    /// The description of the interactions.
    pub interaction: String,
    /// The description of the conflict.
    pub description: String,
}

/// The mathematical value of a `PactConflict`.
pub struct ConflictModel {
    pub interaction: Seq<char>,
    pub description: Seq<char>,
}

impl DeepView for PactConflict {
    type V = ConflictModel;

    open spec fn deep_view(&self) -> ConflictModel {
        ConflictModel { interaction: self.interaction@, description: self.description@ }
    }
}

impl Duplicate for PactConflict {
    fn duplicate(&self) -> (r: PactConflict) {
        PactConflict {
            interaction: self.interaction.clone(),
            description: self.description.clone(),
        }
    }
}

/// The mathematical value of a `RequestResponseInteraction`.
pub struct RequestResponseModel {
    pub id: Option<Seq<char>>,
    pub description: Seq<char>,
    pub provider_states: Seq<StateModel>,
    pub request: RequestModel,
    pub response: ResponseModel,
}

/// An interaction of a request and the response to it.
#[derive(Debug, PartialEq, Eq, Hash)]
pub struct RequestResponseInteraction {
    /// The identifier that a broker gave the interaction, if one did.
    pub id: Option<String>,
    /// The description of the interaction, which names it in its pact.
    pub description: String,
    /// The provider states of the interaction.
    pub provider_states: Vec<ProviderState>,
    /// The request.
    pub request: Request,
    /// The response.
    pub response: Response,
}

impl DeepView for RequestResponseInteraction {
    type V = RequestResponseModel;

    open spec fn deep_view(&self) -> RequestResponseModel {
        RequestResponseModel {
            id: self.id.deep_view(),
            description: self.description@,
            provider_states: self.provider_states.deep_view(),
            request: self.request.deep_view(),
            response: self.response.deep_view(),
        }
    }
}

impl Duplicate for RequestResponseInteraction {
    fn duplicate(&self) -> (r: RequestResponseInteraction) {
        RequestResponseInteraction {
            id: self.id.duplicate(),
            description: self.description.clone(),
            provider_states: self.provider_states.duplicate(),
            request: self.request.duplicate(),
            response: self.response.duplicate(),
        }
    }
}

impl Same for RequestResponseInteraction {
    fn same(&self, other: &RequestResponseInteraction) -> (b: bool) {
        self.id.same(&other.id) && self.description == other.description
            && self.provider_states.same(&other.provider_states) && self.request.same(
            &other.request,
        ) && self.response.same(&other.response)
    }
}

/// The kinds of interactions of version 4.
#[derive(Debug, Clone, Copy, PartialEq, Eq, Hash)]
#[allow(non_camel_case_types)]
pub enum V4InteractionType {
    /// A request and the response to it.
    Synchronous_HTTP,
    /// A message.
    Asynchronous_Messages,
    /// A message and the messages in reply to it.
    Synchronous_Messages,
}

/// The name of a kind of interaction.
pub open spec fn type_text(kind: V4InteractionType) -> Seq<char> {
    match kind {
        V4InteractionType::Synchronous_HTTP => "Synchronous/HTTP"@,
        V4InteractionType::Asynchronous_Messages => "Asynchronous/Messages"@,
        V4InteractionType::Synchronous_Messages => "Synchronous/Messages"@,
    }
}

/// The kind of interaction that a name stands for.
pub open spec fn type_of_text(text: Seq<char>) -> Option<V4InteractionType> {
    if text == "Synchronous/HTTP"@ {
        Some(V4InteractionType::Synchronous_HTTP)
    } else if text == "Asynchronous/Messages"@ {
        Some(V4InteractionType::Asynchronous_Messages)
    } else if text == "Synchronous/Messages"@ {
        Some(V4InteractionType::Synchronous_Messages)
    } else {
        None
    }
}

/// The message for a name that stands for no kind of interaction.
pub open spec fn type_fault(text: Seq<char>) -> Seq<char> {
    "'"@ + text + "' is not a valid V4 interaction type"@
}

impl V4InteractionType {
    /// The default kind: a request and the response to it.
    pub fn default() -> (r: V4InteractionType)
        ensures
            r == V4InteractionType::Synchronous_HTTP,
    {
        V4InteractionType::Synchronous_HTTP
    }

    /// The name of the kind.
    pub fn to_text(&self) -> (r: String)
        ensures
            r@ == type_text(*self),
    {
        match self {
            V4InteractionType::Synchronous_HTTP => "Synchronous/HTTP".to_owned(),
            V4InteractionType::Asynchronous_Messages => "Asynchronous/Messages".to_owned(),
            V4InteractionType::Synchronous_Messages => "Synchronous/Messages".to_owned(),
        }
    }

    /// The kind that a name stands for.
    pub fn from_str(type_str: &str) -> (r: Result<V4InteractionType, String>)
        ensures
            match r {
                Ok(kind) => type_of_text(type_str@) == Some(kind),
                Err(e) => type_of_text(type_str@) is None && e@ == type_fault(type_str@),
            },
    {
        if str_eq(type_str, "Synchronous/HTTP") {
            Ok(V4InteractionType::Synchronous_HTTP)
        } else if str_eq(type_str, "Asynchronous/Messages") {
            Ok(V4InteractionType::Asynchronous_Messages)
        } else if str_eq(type_str, "Synchronous/Messages") {
            Ok(V4InteractionType::Synchronous_Messages)
        } else {
            let mut message = "'".to_owned();
            message.append(type_str);
            message.append("' is not a valid V4 interaction type");
            Err(message)
        }
    }

    /// Whether two kinds are the same.
    pub fn is(&self, other: V4InteractionType) -> (b: bool)
        ensures
            b == (*self == other),
    {
        match (self, other) {
            (V4InteractionType::Synchronous_HTTP, V4InteractionType::Synchronous_HTTP) => true,
            (
                V4InteractionType::Asynchronous_Messages,
                V4InteractionType::Asynchronous_Messages,
            ) => true,
            (V4InteractionType::Synchronous_Messages, V4InteractionType::Synchronous_Messages) => true,
            _ => false,
        }
    }
}

/// The mathematical value of a `SynchronousHttp`.
pub struct SynchronousHttpModel {
    pub id: Option<Seq<char>>,
    pub key: Option<Seq<char>>,
    pub description: Seq<char>,
    pub provider_states: Seq<StateModel>,
    pub request: RequestModel,
    pub response: ResponseModel,
    pub comments: Entries<JsonModel>,
}

/// An interaction of a request and the response to it, in version 4.
#[derive(Debug, PartialEq, Eq, Hash)]
pub struct SynchronousHttp {
    /// The identifier that a broker gave the interaction, if one did.
    pub id: Option<String>,
    /// The key of the interaction, made from its content.
    pub key: Option<String>,
    /// The description of the interaction, which names it in its pact.
    pub description: String,
    /// The provider states of the interaction.
    pub provider_states: Vec<ProviderState>,
    /// The request.
    pub request: HttpRequest,
    /// The response.
    pub response: HttpResponse,
    /// Comments on the interaction.
    pub comments: SortedMap<Json>,
}

impl DeepView for SynchronousHttp {
    type V = SynchronousHttpModel;

    open spec fn deep_view(&self) -> SynchronousHttpModel {
        SynchronousHttpModel {
            id: self.id.deep_view(),
            key: self.key.deep_view(),
            description: self.description@,
            provider_states: self.provider_states.deep_view(),
            request: self.request.deep_view(),
            response: self.response.deep_view(),
            comments: self.comments.deep_view(),
        }
    }
}

impl Duplicate for SynchronousHttp {
    fn duplicate(&self) -> (r: SynchronousHttp) {
        SynchronousHttp {
            id: self.id.duplicate(),
            key: self.key.duplicate(),
            description: self.description.clone(),
            provider_states: self.provider_states.duplicate(),
            request: self.request.duplicate(),
            response: self.response.duplicate(),
            comments: self.comments.duplicate(),
        }
    }
}

/// The mathematical value of an `AsynchronousMessage`.
pub struct AsynchronousMessageModel {
    pub id: Option<Seq<char>>,
    pub key: Option<Seq<char>>,
    pub description: Seq<char>,
    pub provider_states: Seq<StateModel>,
    pub contents: BodyModel,
    pub metadata: Entries<JsonModel>,
    pub matching_rules: Entries<CategoryModel>,
    pub generators: GeneratorsModel,
    pub comments: Entries<JsonModel>,
}

/// An interaction of one message, in version 4.
#[derive(Debug, PartialEq, Eq, Hash)]
pub struct AsynchronousMessage {
    /// The identifier that a broker gave the interaction, if one did.
    pub id: Option<String>,
    /// The key of the interaction, made from its content.
    pub key: Option<String>,
    /// The description of the interaction, which names it in its pact.
    pub description: String,
    /// The provider states of the interaction.
    pub provider_states: Vec<ProviderState>,
    /// The contents of the message.
    pub contents: OptionalBody,
    /// The metadata of the message.
    pub metadata: SortedMap<Json>,
    /// The matching rules.
    pub matching_rules: MatchingRules,
    /// The generators.
    pub generators: Generators,
    /// Comments on the interaction.
    pub comments: SortedMap<Json>,
}

impl DeepView for AsynchronousMessage {
    type V = AsynchronousMessageModel;

    open spec fn deep_view(&self) -> AsynchronousMessageModel {
        AsynchronousMessageModel {
            id: self.id.deep_view(),
            key: self.key.deep_view(),
            description: self.description@,
            provider_states: self.provider_states.deep_view(),
            contents: self.contents.deep_view(),
            metadata: self.metadata.deep_view(),
            matching_rules: self.matching_rules.deep_view(),
            generators: self.generators.deep_view(),
            comments: self.comments.deep_view(),
        }
    }
}

impl Duplicate for AsynchronousMessage {
    fn duplicate(&self) -> (r: AsynchronousMessage) {
        AsynchronousMessage {
            id: self.id.duplicate(),
            key: self.key.duplicate(),
            description: self.description.clone(),
            provider_states: self.provider_states.duplicate(),
            contents: self.contents.duplicate(),
            metadata: self.metadata.duplicate(),
            matching_rules: self.matching_rules.duplicate(),
            generators: self.generators.duplicate(),
            comments: self.comments.duplicate(),
        }
    }
}

/// The mathematical value of a `SynchronousMessages`.
pub struct SynchronousMessagesModel {
    pub id: Option<Seq<char>>,
    pub key: Option<Seq<char>>,
    pub description: Seq<char>,
    pub provider_states: Seq<StateModel>,
    pub request: BodyModel,
    pub response: Seq<BodyModel>,
    pub comments: Entries<JsonModel>,
}

/// An interaction of a message and the messages in reply to it, in version
/// 4.
#[derive(Debug, PartialEq, Eq, Hash)]
pub struct SynchronousMessages {
    /// The identifier that a broker gave the interaction, if one did.
    pub id: Option<String>,
    /// The key of the interaction.
    pub key: Option<String>,
    /// The description of the interaction, which names it in its pact.
    pub description: String,
    /// The provider states of the interaction.
    pub provider_states: Vec<ProviderState>,
    /// The contents of the message that asks.
    pub request: OptionalBody,
    /// The contents of the messages in reply.
    pub response: Vec<OptionalBody>,
    /// Comments on the interaction.
    pub comments: SortedMap<Json>,
}

impl DeepView for SynchronousMessages {
    type V = SynchronousMessagesModel;

    open spec fn deep_view(&self) -> SynchronousMessagesModel {
        SynchronousMessagesModel {
            id: self.id.deep_view(),
            key: self.key.deep_view(),
            description: self.description@,
            provider_states: self.provider_states.deep_view(),
            request: self.request.deep_view(),
            response: self.response.deep_view(),
            comments: self.comments.deep_view(),
        }
    }
}

impl Duplicate for SynchronousMessages {
    fn duplicate(&self) -> (r: SynchronousMessages) {
        SynchronousMessages {
            id: self.id.duplicate(),
            key: self.key.duplicate(),
            description: self.description.clone(),
            provider_states: self.provider_states.duplicate(),
            request: self.request.duplicate(),
            response: self.response.duplicate(),
            comments: self.comments.duplicate(),
        }
    }
}

/// The mathematical value of a `V4Interaction`.
pub enum V4Model {
    SynchronousHttp(SynchronousHttpModel),
    AsynchronousMessage(AsynchronousMessageModel),
    SynchronousMessages(SynchronousMessagesModel),
}

/// An interaction of version 4, of any kind.
#[derive(Debug, PartialEq, Eq, Hash)]
pub enum V4Interaction {
    SynchronousHttp(SynchronousHttp),
    AsynchronousMessage(AsynchronousMessage),
    SynchronousMessages(SynchronousMessages),
}

impl DeepView for V4Interaction {
    type V = V4Model;

    open spec fn deep_view(&self) -> V4Model {
        match self {
            V4Interaction::SynchronousHttp(i) => V4Model::SynchronousHttp(i.deep_view()),
            V4Interaction::AsynchronousMessage(i) => V4Model::AsynchronousMessage(i.deep_view()),
            V4Interaction::SynchronousMessages(i) => V4Model::SynchronousMessages(i.deep_view()),
        }
    }
}

impl Duplicate for V4Interaction {
    fn duplicate(&self) -> (r: V4Interaction) {
        match self {
            V4Interaction::SynchronousHttp(i) => V4Interaction::SynchronousHttp(i.duplicate()),
            V4Interaction::AsynchronousMessage(i) => V4Interaction::AsynchronousMessage(
                i.duplicate(),
            ),
            V4Interaction::SynchronousMessages(i) => V4Interaction::SynchronousMessages(
                i.duplicate(),
            ),
        }
    }
}

/// The mathematical value of an `Interaction`.
pub enum InteractionModel {
    RequestResponse(RequestResponseModel),
    Message(MessageModel),
    V4(V4Model),
}

/// An interaction of any version and kind.
#[derive(Debug, PartialEq, Eq, Hash)]
pub enum Interaction {
    RequestResponse(RequestResponseInteraction),
    Message(Message),
    V4(V4Interaction),
}

impl DeepView for Interaction {
    type V = InteractionModel;

    open spec fn deep_view(&self) -> InteractionModel {
        match self {
            Interaction::RequestResponse(i) => InteractionModel::RequestResponse(i.deep_view()),
            Interaction::Message(i) => InteractionModel::Message(i.deep_view()),
            Interaction::V4(i) => InteractionModel::V4(i.deep_view()),
        }
    }
}

impl Duplicate for Interaction {
    fn duplicate(&self) -> (r: Interaction) {
        match self {
            Interaction::RequestResponse(i) => Interaction::RequestResponse(i.duplicate()),
            Interaction::Message(i) => Interaction::Message(i.duplicate()),
            Interaction::V4(i) => Interaction::V4(i.duplicate()),
        }
    }
}

/// What the key of an interaction of a request and a response is made of:
/// its description, its provider states, its request and its response, and
/// neither its identifier nor its comments.
pub open spec fn http_content(
    description: Seq<char>,
    provider_states: Seq<StateModel>,
    request: RequestModel,
    response: ResponseModel,
) -> JsonModel {
    JsonModel::Object(
        put(
            put(
                put(
                    put(Seq::empty(), "description"@, JsonModel::String(description)),
                    "providerStates"@,
                    JsonModel::Array(states_json(provider_states)),
                ),
                "request"@,
                JsonModel::Object(v4_request_members(request)),
            ),
            "response"@,
            JsonModel::Object(v4_response_members(response)),
        ),
    )
}

/// The key of an interaction of a request and a response: the hash of its
/// content.
pub open spec fn http_key(
    description: Seq<char>,
    provider_states: Seq<StateModel>,
    request: RequestModel,
    response: ResponseModel,
) -> Seq<char> {
    content_hash(compact_text(http_content(description, provider_states, request, response)))
}

/// The members by which a message is written in version 4, without its kind
/// and its key: `description`; `contents` unless they are missing;
/// `metadata`, `providerStates`, `matchingRules` and `generators` where
/// there are any.
pub open spec fn message_content_members(
    description: Seq<char>,
    provider_states: Seq<StateModel>,
    contents: BodyModel,
    metadata: Entries<JsonModel>,
    matching_rules: Entries<CategoryModel>,
    generators: GeneratorsModel,
) -> Entries<JsonModel> {
    let base = put(Seq::empty(), "description"@, JsonModel::String(description));
    let with_contents = if contents is Missing {
        base
    } else {
        put(base, "contents"@, v4_body_json(contents))
    };
    let with_metadata = if metadata.len() > 0 {
        put(with_contents, "metadata"@, JsonModel::Object(metadata))
    } else {
        with_contents
    };
    let with_states = if provider_states.len() > 0 {
        put(with_metadata, "providerStates"@, JsonModel::Array(states_json(provider_states)))
    } else {
        with_metadata
    };
    let with_rules = if !no_rules(matching_rules) {
        put(with_states, "matchingRules"@, matchers_json(matching_rules, true))
    } else {
        with_states
    };
    if !no_generators(generators) {
        put(with_rules, "generators"@, JsonModel::Object(generators_members(generators)))
    } else {
        with_rules
    }
}

/// The key of an interaction of one message: the hash of its content, which
/// holds neither its identifier nor its comments.
pub open spec fn message_key(m: AsynchronousMessageModel) -> Seq<char> {
    content_hash(
        compact_text(
            JsonModel::Object(
                message_content_members(
                    m.description,
                    m.provider_states,
                    m.contents,
                    m.metadata,
                    m.matching_rules,
                    m.generators,
                ),
            ),
        ),
    )
}

/// The key that an interaction is written with: its own, or the one made
/// from its content where it has none.
pub open spec fn written_key(key: Option<Seq<char>>, made: Seq<char>) -> Seq<char> {
    match key {
        Some(k) => k,
        None => made,
    }
}

/// The members `base` with `providerStates` and `comments` where there are
/// any.
pub open spec fn with_states_and_comments(
    base: Entries<JsonModel>,
    provider_states: Seq<StateModel>,
    comments: Entries<JsonModel>,
) -> Entries<JsonModel> {
    let with_states = if provider_states.len() > 0 {
        put(base, "providerStates"@, JsonModel::Array(states_json(provider_states)))
    } else {
        base
    };
    if comments.len() > 0 {
        put(with_states, "comments"@, JsonModel::Object(comments))
    } else {
        with_states
    }
}

/// The members by which an interaction of a request and a response is
/// written in version 4.
pub open spec fn http_members(i: SynchronousHttpModel) -> Entries<JsonModel> {
    with_states_and_comments(
        put(
            put(
                put(
                    put(
                        put(
                            Seq::empty(),
                            "type"@,
                            JsonModel::String(type_text(V4InteractionType::Synchronous_HTTP)),
                        ),
                        "key"@,
                        JsonModel::String(
                            written_key(
                                i.key,
                                http_key(i.description, i.provider_states, i.request, i.response),
                            ),
                        ),
                    ),
                    "description"@,
                    JsonModel::String(i.description),
                ),
                "request"@,
                JsonModel::Object(v4_request_members(i.request)),
            ),
            "response"@,
            JsonModel::Object(v4_response_members(i.response)),
        ),
        i.provider_states,
        i.comments,
    )
}

/// The members by which an interaction of one message is written in version
/// 4.
pub open spec fn async_message_members(m: AsynchronousMessageModel) -> Entries<JsonModel> {
    let content = put(
        put(
            message_content_members(
                m.description,
                m.provider_states,
                m.contents,
                m.metadata,
                m.matching_rules,
                m.generators,
            ),
            "type"@,
            JsonModel::String(type_text(V4InteractionType::Asynchronous_Messages)),
        ),
        "key"@,
        JsonModel::String(written_key(m.key, message_key(m))),
    );
    if m.comments.len() > 0 {
        put(content, "comments"@, JsonModel::Object(m.comments))
    } else {
        content
    }
}

/// The JSON values by which bodies are written in version 4, in their
/// order.
pub open spec fn bodies_json(bodies: Seq<BodyModel>) -> Seq<JsonModel> {
    Seq::new(bodies.len(), |i: int| v4_body_json(bodies[i]))
}

/// The members by which an interaction of a message and its replies is
/// written in version 4.
pub open spec fn sync_messages_members(m: SynchronousMessagesModel) -> Entries<JsonModel> {
    with_states_and_comments(
        put(
            put(
                put(
                    put(
                        Seq::empty(),
                        "type"@,
                        JsonModel::String(type_text(V4InteractionType::Synchronous_Messages)),
                    ),
                    "description"@,
                    JsonModel::String(m.description),
                ),
                "request"@,
                v4_body_json(m.request),
            ),
            "response"@,
            JsonModel::Array(bodies_json(m.response)),
        ),
        m.provider_states,
        m.comments,
    )
}

/// Adds `providerStates` and `comments` to `members` where there are any.
fn write_states_and_comments(
    members: &mut SortedMap<Json>,
    provider_states: &Vec<ProviderState>,
    comments: &SortedMap<Json>,
)
    ensures
        final(members).deep_view() == with_states_and_comments(
            old(members).deep_view(),
            provider_states.deep_view(),
            comments.deep_view(),
        ),
{
    if provider_states.len() > 0 {
        members.insert("providerStates".to_owned(), Json::array(states_to_json(provider_states)));
    }
    if !comments.is_empty() {
        members.insert("comments".to_owned(), Json::object(comments.duplicate()));
    }
}

impl SynchronousHttp {
    /// The default interaction.
    pub fn default() -> (r: SynchronousHttp)
        ensures
            r.deep_view() == (SynchronousHttpModel {
                id: None,
                key: None,
                description: "Synchronous/HTTP Interaction"@,
                provider_states: seq![],
                request: default_request(),
                response: default_response(),
                comments: seq![],
            }),
    {
        let provider_states: Vec<ProviderState> = Vec::new();
        assert(provider_states.deep_view() =~= Seq::<StateModel>::empty());
        SynchronousHttp {
            id: None,
            key: None,
            description: "Synchronous/HTTP Interaction".to_owned(),
            provider_states,
            request: HttpRequest::default(),
            response: HttpResponse::default(),
            comments: SortedMap::new(),
        }
    }

    /// Makes the key of the interaction from its content.
    pub fn calc_hash(&self) -> (r: String)
        ensures
            r@ == http_key(
                self.deep_view().description,
                self.deep_view().provider_states,
                self.deep_view().request,
                self.deep_view().response,
            ),
    {
        let mut members: SortedMap<Json> = SortedMap::new();
        members.insert("description".to_owned(), Json::String(self.description.clone()));
        members.insert(
            "providerStates".to_owned(),
            Json::array(states_to_json(&self.provider_states)),
        );
        members.insert("request".to_owned(), self.request.to_json());
        members.insert("response".to_owned(), self.response.to_json());
        let text = json_text(&Json::object(members));
        hash_text(text.as_str())
    }

    /// The same interaction with the key made from its content.
    pub fn with_key(&self) -> (r: SynchronousHttp)
        ensures
            r.deep_view() == (SynchronousHttpModel {
                key: Some(
                    http_key(
                        self.deep_view().description,
                        self.deep_view().provider_states,
                        self.deep_view().request,
                        self.deep_view().response,
                    ),
                ),
                ..self.deep_view()
            }),
    {
        SynchronousHttp {
            id: self.id.duplicate(),
            key: Some(self.calc_hash()),
            description: self.description.clone(),
            provider_states: self.provider_states.duplicate(),
            request: self.request.duplicate(),
            response: self.response.duplicate(),
            comments: self.comments.duplicate(),
        }
    }

    /// Writes the interaction as a JSON object.
    pub fn to_json(&self) -> (r: Json)
        ensures
            r.deep_view() == JsonModel::Object(http_members(self.deep_view())),
    {
        let key = match &self.key {
            Some(k) => k.clone(),
            None => self.calc_hash(),
        };
        let mut members: SortedMap<Json> = SortedMap::new();
        members.insert(
            "type".to_owned(),
            Json::String(V4InteractionType::Synchronous_HTTP.to_text()),
        );
        members.insert("key".to_owned(), Json::String(key));
        members.insert("description".to_owned(), Json::String(self.description.clone()));
        members.insert("request".to_owned(), self.request.to_json());
        members.insert("response".to_owned(), self.response.to_json());
        write_states_and_comments(&mut members, &self.provider_states, &self.comments);
        Json::object(members)
    }

    /// The same interaction as versions 1 to 3 hold it.
    pub fn as_request_response(&self) -> (r: RequestResponseInteraction)
        ensures
            r.deep_view() == http_as_request_response(self.deep_view()),
    {
        RequestResponseInteraction {
            id: self.id.duplicate(),
            description: self.description.clone(),
            provider_states: self.provider_states.duplicate(),
            request: self.request.as_v3_request(),
            response: self.response.as_v3_response(),
        }
    }
}

/// An interaction of version 4 as versions 1 to 3 hold it: with the same
/// identifier, description, provider states, request and response.
pub open spec fn http_as_request_response(i: SynchronousHttpModel) -> RequestResponseModel {
    RequestResponseModel {
        id: i.id,
        description: i.description,
        provider_states: i.provider_states,
        request: i.request,
        response: i.response,
    }
}

/// An interaction of versions 1 to 3 as version 4 holds it: with the same
/// identifier, description, provider states, request and response, the key
/// made from its content, and no comments.
pub open spec fn request_response_as_http(i: RequestResponseModel) -> SynchronousHttpModel {
    SynchronousHttpModel {
        id: i.id,
        key: Some(http_key(i.description, i.provider_states, i.request, i.response)),
        description: i.description,
        provider_states: i.provider_states,
        request: i.request,
        response: i.response,
        comments: seq![],
    }
}

/// A message of version 4 as version 3 holds it: with the texts of its
/// metadata, and its matching rules for the content under the name `body`.
pub open spec fn async_as_message(m: AsynchronousMessageModel) -> MessageModel {
    MessageModel {
        id: m.id,
        description: m.description,
        provider_states: m.provider_states,
        contents: m.contents,
        metadata: text_members(m.metadata),
        matching_rules: renamed(m.matching_rules, "content"@, "body"@),
        generators: m.generators,
    }
}

/// A message of version 3 as version 4 holds it, before its key is made.
pub open spec fn message_as_async_unkeyed(m: MessageModel) -> AsynchronousMessageModel {
    AsynchronousMessageModel {
        id: m.id,
        key: None,
        description: m.description,
        provider_states: m.provider_states,
        contents: m.contents,
        metadata: string_members(m.metadata),
        matching_rules: renamed(m.matching_rules, "body"@, "content"@),
        generators: m.generators,
        comments: seq![],
    }
}

/// A message of version 3 as version 4 holds it: with its metadata as JSON
/// strings, its matching rules for the body under the name `content`, the
/// key made from its content, and no comments.
pub open spec fn message_as_async(m: MessageModel) -> AsynchronousMessageModel {
    AsynchronousMessageModel {
        key: Some(message_key(message_as_async_unkeyed(m))),
        ..message_as_async_unkeyed(m)
    }
}

impl AsynchronousMessage {
    /// The default interaction.
    pub fn default() -> (r: AsynchronousMessage)
        ensures
            r.deep_view() == (AsynchronousMessageModel {
                id: None,
                key: None,
                description: "Asynchronous/Message Interaction"@,
                provider_states: seq![],
                contents: BodyModel::Missing,
                metadata: seq![],
                matching_rules: seq![],
                generators: seq![],
                comments: seq![],
            }),
    {
        let provider_states: Vec<ProviderState> = Vec::new();
        assert(provider_states.deep_view() =~= Seq::<StateModel>::empty());
        AsynchronousMessage {
            id: None,
            key: None,
            description: "Asynchronous/Message Interaction".to_owned(),
            provider_states,
            contents: OptionalBody::Missing,
            metadata: SortedMap::new(),
            matching_rules: MatchingRules::default(),
            generators: Generators::default(),
            comments: SortedMap::new(),
        }
    }

    /// The members of the content of the message.
    fn content_members(&self) -> (members: SortedMap<Json>)
        ensures
            members.deep_view() == message_content_members(
                self.deep_view().description,
                self.deep_view().provider_states,
                self.deep_view().contents,
                self.deep_view().metadata,
                self.deep_view().matching_rules,
                self.deep_view().generators,
            ),
    {
        let mut members: SortedMap<Json> = SortedMap::new();
        members.insert("description".to_owned(), Json::String(self.description.clone()));
        match &self.contents {
            OptionalBody::Missing => {},
            _ => {
                members.insert("contents".to_owned(), body_to_v4_json(&self.contents));
            },
        }
        if !self.metadata.is_empty() {
            members.insert("metadata".to_owned(), Json::object(self.metadata.duplicate()));
        }
        if self.provider_states.len() > 0 {
            members.insert(
                "providerStates".to_owned(),
                Json::array(states_to_json(&self.provider_states)),
            );
        }
        if self.matching_rules.is_not_empty() {
            members.insert(
                "matchingRules".to_owned(),
                matchers_to_json(&self.matching_rules, true),
            );
        }
        if self.generators.is_not_empty() {
            members.insert("generators".to_owned(), generators_to_json(&self.generators));
        }
        members
    }

    /// Makes the key of the interaction from its content.
    pub fn calc_hash(&self) -> (r: String)
        ensures
            r@ == message_key(self.deep_view()),
    {
        let text = json_text(&Json::object(self.content_members()));
        hash_text(text.as_str())
    }

    /// The same interaction with the key made from its content.
    pub fn with_key(&self) -> (r: AsynchronousMessage)
        ensures
            r.deep_view() == (AsynchronousMessageModel {
                key: Some(message_key(self.deep_view())),
                ..self.deep_view()
            }),
    {
        AsynchronousMessage {
            id: self.id.duplicate(),
            key: Some(self.calc_hash()),
            description: self.description.clone(),
            provider_states: self.provider_states.duplicate(),
            contents: self.contents.duplicate(),
            metadata: self.metadata.duplicate(),
            matching_rules: self.matching_rules.duplicate(),
            generators: self.generators.duplicate(),
            comments: self.comments.duplicate(),
        }
    }

    /// The content type of the message: the one that its contents record,
    /// else the one that its metadata declare under `contentType`, else the
    /// one that the first bytes of its contents show.
    pub fn message_content_type(&self) -> (r: Option<ContentType>)
        ensures
            r.deep_view() == message_type(
                self.deep_view().contents,
                match lookup(self.deep_view().metadata, "contentType"@) {
                    Some(v) => Some(plain_text(v)),
                    None => None,
                },
            ),
    {
        let declared = match self.metadata.get("contentType") {
            Some(v) => Some(v.to_plain_text()),
            None => None,
        };
        calc_content_type(&self.contents, declared.as_ref())
    }

    /// Writes the interaction as a JSON object.
    pub fn to_json(&self) -> (r: Json)
        ensures
            r.deep_view() == JsonModel::Object(async_message_members(self.deep_view())),
    {
        let key = match &self.key {
            Some(k) => k.clone(),
            None => self.calc_hash(),
        };
        let mut members = self.content_members();
        members.insert(
            "type".to_owned(),
            Json::String(V4InteractionType::Asynchronous_Messages.to_text()),
        );
        members.insert("key".to_owned(), Json::String(key));
        if !self.comments.is_empty() {
            members.insert("comments".to_owned(), Json::object(self.comments.duplicate()));
        }
        Json::object(members)
    }

    /// The same message as version 3 holds it.
    pub fn as_message(&self) -> (r: Message)
        ensures
            r.deep_view() == async_as_message(self.deep_view()),
    {
        Message {
            id: self.id.duplicate(),
            description: self.description.clone(),
            provider_states: self.provider_states.duplicate(),
            contents: self.contents.duplicate(),
            metadata: texts_of_members(&self.metadata),
            matching_rules: self.matching_rules.rename("content", "body"),
            generators: self.generators.duplicate(),
        }
    }
}

impl SynchronousMessages {
    /// Writes the interaction as a JSON object.
    pub fn to_json(&self) -> (r: Json)
        ensures
            r.deep_view() == JsonModel::Object(sync_messages_members(self.deep_view())),
    {
        let mut replies: Vec<Json> = Vec::new();
        let ghost all = bodies_json(self.deep_view().response);
        let mut i: usize = 0;
        while i < self.response.len()
            invariant
                i <= self.response.len(),
                all == bodies_json(self.deep_view().response),
                replies.deep_view() == all.take(i as int),
            decreases self.response.len() - i,
        {
            let item = body_to_v4_json(&self.response[i]);
            let ghost before = replies.deep_view();
            replies.push(item);
            proof {
                assert(replies.deep_view() =~= before.push(item.deep_view()));
                assert(all.take(i + 1) == all.take(i as int).push(all[i as int]));
            }
            i += 1;
        }
        proof {
            assert(all.take(self.response.len() as int) == all);
        }
        let mut members: SortedMap<Json> = SortedMap::new();
        members.insert(
            "type".to_owned(),
            Json::String(V4InteractionType::Synchronous_Messages.to_text()),
        );
        members.insert("description".to_owned(), Json::String(self.description.clone()));
        members.insert("request".to_owned(), body_to_v4_json(&self.request));
        members.insert("response".to_owned(), Json::array(replies));
        write_states_and_comments(&mut members, &self.provider_states, &self.comments);
        Json::object(members)
    }
}

impl Message {
    /// The same message as version 4 holds it, with the key made from its
    /// content.
    pub fn as_v4_async_message(&self) -> (r: AsynchronousMessage)
        ensures
            r.deep_view() == message_as_async(self.deep_view()),
    {
        let unkeyed = AsynchronousMessage {
            id: self.id.duplicate(),
            key: None,
            description: self.description.clone(),
            provider_states: self.provider_states.duplicate(),
            contents: self.contents.duplicate(),
            metadata: strings_of_members(&self.metadata),
            matching_rules: self.matching_rules.rename("body", "content"),
            generators: self.generators.duplicate(),
            comments: SortedMap::new(),
        };
        unkeyed.with_key()
    }
}

/// The request that the member `request` of an interaction gives, or the
/// default request where there is no such member.
pub open spec fn interaction_request(j: JsonModel, spec: PactSpecification) -> Result<
    RequestModel,
    Seq<char>,
> {
    match member(j, "request"@) {
        Some(v) => request_of(v, spec),
        None => Ok(default_request()),
    }
}

/// The response that the member `response` of an interaction gives, or the
/// default response where there is no such member.
pub open spec fn interaction_response(j: JsonModel) -> Result<ResponseModel, Seq<char>> {
    match member(j, "response"@) {
        Some(v) => response_of(v),
        None => Ok(default_response()),
    }
}

/// The interaction that a JSON value writes at position `index` of a pact
/// of versions 1 to 3, or the message for what its request or its response
/// could not be read for.
pub open spec fn request_response_of(index: usize, j: JsonModel, spec: PactSpecification) -> Result<
    RequestResponseModel,
    Seq<char>,
> {
    match interaction_request(j, spec) {
        Err(e) => Err(e),
        Ok(request) => match interaction_response(j) {
            Err(e) => Err(e),
            Ok(response) => Ok(
                RequestResponseModel {
                    id: id_of(j),
                    description: description_of(j, "Interaction"@, index),
                    provider_states: states_of(j),
                    request,
                    response,
                },
            ),
        },
    }
}

/// The members by which an interaction is written for a version of the
/// specification of 1 to 3: `description`, `request` and `response`; and,
/// where there are provider states, all of them as `providerStates` in
/// version 3, else the name of the first as `providerState`.
pub open spec fn request_response_members(i: RequestResponseModel, spec: PactSpecification) -> Entries<
    JsonModel,
> {
    let base = put(
        put(
            put(Seq::empty(), "description"@, JsonModel::String(i.description)),
            "request"@,
            JsonModel::Object(request_members(i.request, spec)),
        ),
        "response"@,
        JsonModel::Object(response_members(i.response, spec)),
    );
    if i.provider_states.len() > 0 {
        if spec is V3 {
            put(base, "providerStates"@, JsonModel::Array(states_json(i.provider_states)))
        } else {
            put(base, "providerState"@, JsonModel::String(i.provider_states[0].name))
        }
    } else {
        base
    }
}

/// A difference that makes a conflict: any but one of the bodies or of the
/// matching rules.
pub open spec fn conflicting(d: Difference) -> bool {
    !(d.0 is MatchingRules || d.0 is Body)
}

/// The conflicts that differences make for the interaction described as
/// `description`, in the order of the differences.
pub open spec fn conflicts_from(description: Seq<char>, differences: Seq<Difference>) -> Seq<
    ConflictModel,
>
    decreases differences.len(),
{
    if differences.len() == 0 {
        seq![]
    } else if conflicting(differences.last()) {
        conflicts_from(description, differences.drop_last()).push(
            ConflictModel { interaction: description, description: differences.last().1 },
        )
    } else {
        conflicts_from(description, differences.drop_last())
    }
}

/// The conflicts of the interaction `a` with the interaction `b`: none
/// unless both have the same description and the same provider states;
/// else those of the requests, then those of the responses.
pub open spec fn request_response_conflicts(a: RequestResponseModel, b: RequestResponseModel) -> Seq<
    ConflictModel,
> {
    if a.description == b.description && a.provider_states == b.provider_states {
        conflicts_from(a.description, request_differences(a.request, b.request)) + conflicts_from(
            a.description,
            response_differences(a.response, b.response),
        )
    } else {
        seq![]
    }
}

/// An interaction as one of a request and a response of versions 1 to 3,
/// where it is of that kind.
pub open spec fn as_request_response_spec(i: InteractionModel) -> Option<RequestResponseModel> {
    match i {
        InteractionModel::RequestResponse(r) => Some(r),
        InteractionModel::V4(V4Model::SynchronousHttp(h)) => Some(http_as_request_response(h)),
        _ => None,
    }
}

/// An interaction as a message of version 3, where it is of that kind.
pub open spec fn as_message_spec(i: InteractionModel) -> Option<MessageModel> {
    match i {
        InteractionModel::Message(m) => Some(m),
        InteractionModel::V4(V4Model::AsynchronousMessage(m)) => Some(async_as_message(m)),
        _ => None,
    }
}

/// An interaction as one of version 4, where it can be one.
pub open spec fn as_v4_spec(i: InteractionModel) -> Option<V4Model> {
    match i {
        InteractionModel::RequestResponse(r) => Some(
            V4Model::SynchronousHttp(request_response_as_http(r)),
        ),
        InteractionModel::Message(m) => Some(V4Model::AsynchronousMessage(message_as_async(m))),
        InteractionModel::V4(v) => Some(v),
    }
}

/// The conflict between a request and response and a message.
pub open spec fn kind_conflict(description: Seq<char>) -> ConflictModel {
    ConflictModel {
        interaction: description,
        description: "You can not combine message and request/response interactions"@,
    }
}

/// The conflicts of the interaction `a` with any other interaction.
pub open spec fn conflicts_spec(a: RequestResponseModel, other: InteractionModel) -> Seq<
    ConflictModel,
> {
    match as_request_response_spec(other) {
        Some(b) => request_response_conflicts(a, b),
        None => seq![kind_conflict(a.description)],
    }
}

/// Adds to `conflicts` those that `differences` make.
fn add_conflicts(
    conflicts: &mut Vec<PactConflict>,
    description: &String,
    differences: &Vec<(DifferenceType, String)>,
)
    ensures
        final(conflicts).deep_view() == old(conflicts).deep_view() + conflicts_from(
            description@,
            differences.deep_view(),
        ),
{
    let ghost before = conflicts.deep_view();
    let ghost all = differences.deep_view();
    let mut i: usize = 0;
    proof {
        assert(before + conflicts_from(description@, all.take(0)) == before);
    }
    while i < differences.len()
        invariant
            i <= differences.len(),
            all == differences.deep_view(),
            conflicts.deep_view() == before + conflicts_from(description@, all.take(i as int)),
        decreases differences.len() - i,
    {
        proof {
            let next = all.take(i + 1);
            assert(next.drop_last() == all.take(i as int));
            assert(next.last() == all[i as int]);
            assert(all[i as int] == (differences@[i as int].0, differences@[i as int].1@));
        }
        let significant = match differences[i].0 {
            DifferenceType::MatchingRules => false,
            DifferenceType::Body => false,
            _ => true,
        };
        if significant {
            let conflict = PactConflict {
                interaction: description.clone(),
                description: differences[i].1.clone(),
            };
            let ghost older = conflicts.deep_view();
            conflicts.push(conflict);
            proof {
                assert(conflicts.deep_view() =~= older.push(conflict.deep_view()));
                assert(before + conflicts_from(description@, all.take(i as int)).push(
                    conflict.deep_view(),
                ) == (before + conflicts_from(description@, all.take(i as int))).push(
                    conflict.deep_view(),
                ));
            }
        }
        i += 1;
    }
    proof {
        assert(all.take(differences.len() as int) == all);
    }
}

impl RequestResponseInteraction {
    /// The default interaction.
    pub fn default() -> (r: RequestResponseInteraction)
        ensures
            r.deep_view() == (RequestResponseModel {
                id: None,
                description: "Default Interaction"@,
                provider_states: seq![],
                request: default_request(),
                response: default_response(),
            }),
    {
        let provider_states: Vec<ProviderState> = Vec::new();
        assert(provider_states.deep_view() =~= Seq::<StateModel>::empty());
        RequestResponseInteraction {
            id: None,
            description: "Default Interaction".to_owned(),
            provider_states,
            request: Request::default(),
            response: Response::default(),
        }
    }

    /// Reads the interaction at position `index` of a pact from its JSON
    /// form.
    pub fn from_json(index: usize, pact_json: &Json, spec_version: &PactSpecification) -> (r:
        Result<RequestResponseInteraction, String>)
        ensures
            match r {
                Ok(i) => request_response_of(index, pact_json.deep_view(), *spec_version) == Ok::<
                    RequestResponseModel,
                    Seq<char>,
                >(i.deep_view()),
                Err(e) => request_response_of(index, pact_json.deep_view(), *spec_version) == Err::<
                    RequestResponseModel,
                    Seq<char>,
                >(e@),
            },
    {
        let id = id_from_json(pact_json);
        let description = description_from_json(pact_json, "Interaction", index);
        let provider_states = ProviderState::from_json(pact_json);
        let request = match pact_json.get("request") {
            Some(v) => match Request::from_json(v, spec_version) {
                Ok(request) => request,
                Err(e) => {
                    return Err(e);
                },
            },
            None => Request::default(),
        };
        let response = match pact_json.get("response") {
            Some(v) => match Response::from_json(v, spec_version) {
                Ok(response) => response,
                Err(e) => {
                    return Err(e);
                },
            },
            None => Response::default(),
        };
        Ok(RequestResponseInteraction { id, description, provider_states, request, response })
    }

    /// Writes the interaction as a JSON object for a version of the
    /// specification.
    pub fn to_json(&self, spec_version: &PactSpecification) -> (r: Json)
        ensures
            r.deep_view() == JsonModel::Object(
                request_response_members(self.deep_view(), *spec_version),
            ),
    {
        let mut members: SortedMap<Json> = SortedMap::new();
        members.insert("description".to_owned(), Json::String(self.description.clone()));
        members.insert("request".to_owned(), self.request.to_json(spec_version));
        members.insert("response".to_owned(), self.response.to_json(spec_version));
        if self.provider_states.len() > 0 {
            match spec_version {
                PactSpecification::V3 => {
                    members.insert(
                        "providerStates".to_owned(),
                        Json::array(states_to_json(&self.provider_states)),
                    );
                },
                _ => {
                    members.insert(
                        "providerState".to_owned(),
                        Json::String(self.provider_states[0].name.clone()),
                    );
                },
            }
        }
        Json::object(members)
    }

    /// The conflicts of this interaction with one of the same kind: none
    /// unless both have the same description and the same provider states.
    pub fn conflicts_with_request_response(&self, other: &RequestResponseInteraction) -> (r: Vec<
        PactConflict,
    >)
        ensures
            r.deep_view() == request_response_conflicts(self.deep_view(), other.deep_view()),
    {
        let mut conflicts: Vec<PactConflict> = Vec::new();
        assert(conflicts.deep_view() =~= Seq::<ConflictModel>::empty());
        if self.description == other.description && self.provider_states.same(
            &other.provider_states,
        ) {
            let of_requests = self.request.differences_from(&other.request);
            add_conflicts(&mut conflicts, &self.description, &of_requests);
            let of_responses = self.response.differences_from(&other.response);
            add_conflicts(&mut conflicts, &self.description, &of_responses);
            proof {
                let first = conflicts_from(self.description@, of_requests.deep_view());
                let second = conflicts_from(self.description@, of_responses.deep_view());
                assert(Seq::<ConflictModel>::empty() + first + second == first + second);
            }
        }
        conflicts
    }

    /// The conflicts of this interaction with another one. Two interactions
    /// conflict where they have the same description and the same provider
    /// states but differ in their requests or responses otherwise than in
    /// bodies and matching rules; and an interaction of messages conflicts
    /// with any of a request and a response.
    pub fn conflicts_with(&self, other: &Interaction) -> (r: Vec<PactConflict>)
        ensures
            r.deep_view() == conflicts_spec(self.deep_view(), other.deep_view()),
    {
        match other.as_request_response() {
            Some(other) => self.conflicts_with_request_response(&other),
            None => {
                let mut conflicts: Vec<PactConflict> = Vec::new();
                let conflict = PactConflict {
                    interaction: self.description.clone(),
                    description: "You can not combine message and request/response interactions".to_owned(),
                };
                conflicts.push(conflict);
                assert(conflicts.deep_view() =~= seq![conflict.deep_view()]);
                conflicts
            },
        }
    }

    /// The same interaction as version 4 holds it, with the key made from
    /// its content.
    pub fn as_v4_http(&self) -> (r: SynchronousHttp)
        ensures
            r.deep_view() == request_response_as_http(self.deep_view()),
    {
        let unkeyed = SynchronousHttp {
            id: self.id.duplicate(),
            key: None,
            description: self.description.clone(),
            provider_states: self.provider_states.duplicate(),
            request: self.request.as_v4_request(),
            response: self.response.as_v4_response(),
            comments: SortedMap::new(),
        };
        unkeyed.with_key()
    }
}

/// The kind of an interaction of version 4.
pub open spec fn v4_kind(i: V4Model) -> V4InteractionType {
    match i {
        V4Model::SynchronousHttp(_) => V4InteractionType::Synchronous_HTTP,
        V4Model::AsynchronousMessage(_) => V4InteractionType::Asynchronous_Messages,
        V4Model::SynchronousMessages(_) => V4InteractionType::Synchronous_Messages,
    }
}

/// The key of an interaction of version 4, if it has one.
pub open spec fn v4_key(i: V4Model) -> Option<Seq<char>> {
    match i {
        V4Model::SynchronousHttp(h) => h.key,
        V4Model::AsynchronousMessage(m) => m.key,
        V4Model::SynchronousMessages(m) => m.key,
    }
}

/// The description of an interaction of version 4.
pub open spec fn v4_description(i: V4Model) -> Seq<char> {
    match i {
        V4Model::SynchronousHttp(h) => h.description,
        V4Model::AsynchronousMessage(m) => m.description,
        V4Model::SynchronousMessages(m) => m.description,
    }
}

/// The provider states of an interaction of version 4.
pub open spec fn v4_states(i: V4Model) -> Seq<StateModel> {
    match i {
        V4Model::SynchronousHttp(h) => h.provider_states,
        V4Model::AsynchronousMessage(m) => m.provider_states,
        V4Model::SynchronousMessages(m) => m.provider_states,
    }
}

/// The members by which an interaction of version 4 is written.
pub open spec fn v4_members(i: V4Model) -> Entries<JsonModel> {
    match i {
        V4Model::SynchronousHttp(h) => http_members(h),
        V4Model::AsynchronousMessage(m) => async_message_members(m),
        V4Model::SynchronousMessages(m) => sync_messages_members(m),
    }
}

/// The name of the kind of an interaction, with its version.
pub open spec fn kind_name(i: InteractionModel) -> Seq<char> {
    match i {
        InteractionModel::RequestResponse(_) => "V3 Synchronous/HTTP"@,
        InteractionModel::Message(_) => "V3 Asynchronous/Messages"@,
        InteractionModel::V4(v) => "V4 "@ + type_text(v4_kind(v)),
    }
}

/// The description of an interaction.
pub open spec fn description_spec(i: InteractionModel) -> Seq<char> {
    match i {
        InteractionModel::RequestResponse(r) => r.description,
        InteractionModel::Message(m) => m.description,
        InteractionModel::V4(v) => v4_description(v),
    }
}

/// The provider states of an interaction.
pub open spec fn states_spec(i: InteractionModel) -> Seq<StateModel> {
    match i {
        InteractionModel::RequestResponse(r) => r.provider_states,
        InteractionModel::Message(m) => m.provider_states,
        InteractionModel::V4(v) => v4_states(v),
    }
}

impl V4Interaction {
    /// The kind of the interaction.
    pub fn v4_type(&self) -> (r: V4InteractionType)
        ensures
            r == v4_kind(self.deep_view()),
    {
        match self {
            V4Interaction::SynchronousHttp(_) => V4InteractionType::Synchronous_HTTP,
            V4Interaction::AsynchronousMessage(_) => V4InteractionType::Asynchronous_Messages,
            V4Interaction::SynchronousMessages(_) => V4InteractionType::Synchronous_Messages,
        }
    }

    /// The key of the interaction, if it has one.
    pub fn key(&self) -> (r: Option<String>)
        ensures
            r.deep_view() == v4_key(self.deep_view()),
    {
        match self {
            V4Interaction::SynchronousHttp(i) => i.key.duplicate(),
            V4Interaction::AsynchronousMessage(i) => i.key.duplicate(),
            V4Interaction::SynchronousMessages(i) => i.key.duplicate(),
        }
    }

    /// The description of the interaction.
    pub fn description(&self) -> (r: String)
        ensures
            r@ == v4_description(self.deep_view()),
    {
        match self {
            V4Interaction::SynchronousHttp(i) => i.description.clone(),
            V4Interaction::AsynchronousMessage(i) => i.description.clone(),
            V4Interaction::SynchronousMessages(i) => i.description.clone(),
        }
    }

    /// The provider states of the interaction.
    pub fn provider_states(&self) -> (r: &Vec<ProviderState>)
        ensures
            r.deep_view() == v4_states(self.deep_view()),
    {
        match self {
            V4Interaction::SynchronousHttp(i) => &i.provider_states,
            V4Interaction::AsynchronousMessage(i) => &i.provider_states,
            V4Interaction::SynchronousMessages(i) => &i.provider_states,
        }
    }

    /// The comments on the interaction.
    pub fn comments(&self) -> (r: &SortedMap<Json>)
        ensures
            r.deep_view() == (match self.deep_view() {
                V4Model::SynchronousHttp(h) => h.comments,
                V4Model::AsynchronousMessage(m) => m.comments,
                V4Model::SynchronousMessages(m) => m.comments,
            }),
    {
        match self {
            V4Interaction::SynchronousHttp(i) => &i.comments,
            V4Interaction::AsynchronousMessage(i) => &i.comments,
            V4Interaction::SynchronousMessages(i) => &i.comments,
        }
    }

    /// Writes the interaction as a JSON object.
    pub fn to_json(&self) -> (r: Json)
        ensures
            r.deep_view() == JsonModel::Object(v4_members(self.deep_view())),
    {
        match self {
            V4Interaction::SynchronousHttp(i) => i.to_json(),
            V4Interaction::AsynchronousMessage(i) => i.to_json(),
            V4Interaction::SynchronousMessages(i) => i.to_json(),
        }
    }

    /// The same interaction as one of any version.
    pub fn to_super(&self) -> (r: Interaction)
        ensures
            r.deep_view() == InteractionModel::V4(self.deep_view()),
    {
        Interaction::V4(self.duplicate())
    }
}

impl Interaction {
    /// The name of the kind of the interaction, with its version.
    pub fn type_of(&self) -> (r: String)
        ensures
            r@ == kind_name(self.deep_view()),
    {
        match self {
            Interaction::RequestResponse(_) => "V3 Synchronous/HTTP".to_owned(),
            Interaction::Message(_) => "V3 Asynchronous/Messages".to_owned(),
            Interaction::V4(v) => {
                let mut r = "V4 ".to_owned();
                r.append(v.v4_type().to_text().as_str());
                r
            },
        }
    }

    /// Whether this is an interaction of a request and a response.
    pub fn is_request_response(&self) -> (b: bool)
        ensures
            b == (as_request_response_spec(self.deep_view()) is Some),
    {
        match self {
            Interaction::RequestResponse(_) => true,
            Interaction::V4(V4Interaction::SynchronousHttp(_)) => true,
            _ => false,
        }
    }

    /// The interaction as one of a request and a response of versions 1 to
    /// 3, where it is of that kind.
    pub fn as_request_response(&self) -> (r: Option<RequestResponseInteraction>)
        ensures
            r.deep_view() == as_request_response_spec(self.deep_view()),
    {
        match self {
            Interaction::RequestResponse(i) => Some(i.duplicate()),
            Interaction::V4(V4Interaction::SynchronousHttp(i)) => Some(i.as_request_response()),
            _ => None,
        }
    }

    /// Whether this is an interaction of one message.
    pub fn is_message(&self) -> (b: bool)
        ensures
            b == (as_message_spec(self.deep_view()) is Some),
    {
        match self {
            Interaction::Message(_) => true,
            Interaction::V4(V4Interaction::AsynchronousMessage(_)) => true,
            _ => false,
        }
    }

    /// The interaction as a message of version 3, where it is of that
    /// kind.
    pub fn as_message(&self) -> (r: Option<Message>)
        ensures
            r.deep_view() == as_message_spec(self.deep_view()),
    {
        match self {
            Interaction::Message(i) => Some(i.duplicate()),
            Interaction::V4(V4Interaction::AsynchronousMessage(i)) => Some(i.as_message()),
            _ => None,
        }
    }

    /// The identifier that a broker gave the interaction, if one did.
    pub fn id(&self) -> (r: Option<String>)
        ensures
            r.deep_view() == (match self.deep_view() {
                InteractionModel::RequestResponse(i) => i.id,
                InteractionModel::Message(i) => i.id,
                InteractionModel::V4(V4Model::SynchronousHttp(i)) => i.id,
                InteractionModel::V4(V4Model::AsynchronousMessage(i)) => i.id,
                InteractionModel::V4(V4Model::SynchronousMessages(i)) => i.id,
            }),
    {
        match self {
            Interaction::RequestResponse(i) => i.id.duplicate(),
            Interaction::Message(i) => i.id.duplicate(),
            Interaction::V4(V4Interaction::SynchronousHttp(i)) => i.id.duplicate(),
            Interaction::V4(V4Interaction::AsynchronousMessage(i)) => i.id.duplicate(),
            Interaction::V4(V4Interaction::SynchronousMessages(i)) => i.id.duplicate(),
        }
    }

    /// The description of the interaction.
    pub fn description(&self) -> (r: String)
        ensures
            r@ == description_spec(self.deep_view()),
    {
        match self {
            Interaction::RequestResponse(i) => i.description.clone(),
            Interaction::Message(i) => i.description.clone(),
            Interaction::V4(v) => v.description(),
        }
    }

    /// The provider states of the interaction.
    pub fn provider_states(&self) -> (r: &Vec<ProviderState>)
        ensures
            r.deep_view() == states_spec(self.deep_view()),
    {
        match self {
            Interaction::RequestResponse(i) => &i.provider_states,
            Interaction::Message(i) => &i.provider_states,
            Interaction::V4(v) => v.provider_states(),
        }
    }

    /// Whether this is an interaction of version 4.
    pub fn is_v4(&self) -> (b: bool)
        ensures
            b == (self.deep_view() is V4),
    {
        match self {
            Interaction::V4(_) => true,
            _ => false,
        }
    }

    /// The interaction as one of version 4.
    pub fn as_v4(&self) -> (r: Option<V4Interaction>)
        ensures
            r.deep_view() == as_v4_spec(self.deep_view()),
    {
        match self {
            Interaction::RequestResponse(i) => Some(V4Interaction::SynchronousHttp(i.as_v4_http())),
            Interaction::Message(i) => Some(
                V4Interaction::AsynchronousMessage(i.as_v4_async_message()),
            ),
            Interaction::V4(v) => Some(v.duplicate()),
        }
    }

    /// The interaction as one of a request and a response of version 4,
    /// where it is of that kind.
    pub fn as_v4_http(&self) -> (r: Option<SynchronousHttp>)
        ensures
            r.deep_view() == (match as_v4_spec(self.deep_view()) {
                Some(V4Model::SynchronousHttp(h)) => Some(h),
                _ => None,
            }),
    {
        match self {
            Interaction::RequestResponse(i) => Some(i.as_v4_http()),
            Interaction::V4(V4Interaction::SynchronousHttp(i)) => Some(i.duplicate()),
            _ => None,
        }
    }

    /// The interaction as one of one message of version 4, where it is of
    /// that kind.
    pub fn as_v4_async_message(&self) -> (r: Option<AsynchronousMessage>)
        ensures
            r.deep_view() == (match as_v4_spec(self.deep_view()) {
                Some(V4Model::AsynchronousMessage(m)) => Some(m),
                _ => None,
            }),
    {
        match self {
            Interaction::Message(i) => Some(i.as_v4_async_message()),
            Interaction::V4(V4Interaction::AsynchronousMessage(i)) => Some(i.duplicate()),
            _ => None,
        }
    }

    /// The interaction as one of a message and its replies, where it is of
    /// that kind.
    pub fn as_v4_sync_message(&self) -> (r: Option<SynchronousMessages>)
        ensures
            r.deep_view() == (match self.deep_view() {
                InteractionModel::V4(V4Model::SynchronousMessages(m)) => Some(m),
                _ => None,
            }),
    {
        match self {
            Interaction::V4(V4Interaction::SynchronousMessages(i)) => Some(i.duplicate()),
            _ => None,
        }
    }

    /// The matching rules of the interaction itself, which only a message
    /// has.
    pub fn matching_rules(&self) -> (r: Option<MatchingRules>)
        ensures
            r.deep_view() == (match self.deep_view() {
                InteractionModel::Message(m) => Some(m.matching_rules),
                InteractionModel::V4(V4Model::AsynchronousMessage(m)) => Some(m.matching_rules),
                _ => None,
            }),
    {
        match self {
            Interaction::Message(i) => Some(i.matching_rules.duplicate()),
            Interaction::V4(V4Interaction::AsynchronousMessage(i)) => Some(
                i.matching_rules.duplicate(),
            ),
            _ => None,
        }
    }
}

/// The keys of two interactions of a request and a response are the same
/// where their descriptions, provider states, requests and responses are,
/// whatever their identifiers and comments.
pub proof fn lemma_key_of_content(a: SynchronousHttpModel, b: SynchronousHttpModel)
    requires
        a.description == b.description,
        a.provider_states == b.provider_states,
        a.request == b.request,
        a.response == b.response,
    ensures
        http_key(a.description, a.provider_states, a.request, a.response) == http_key(
            b.description,
            b.provider_states,
            b.request,
            b.response,
        ),
{
}

/// An interaction of requests and responses of version 4 is, as versions 1
/// to 3 hold it, one with the same method, path, query, headers, body and
/// status; and as version 4 holds that one again, it is the same but for
/// its key and its comments.
pub proof fn lemma_http_conversions(i: SynchronousHttpModel)
    ensures
        http_as_request_response(i).request == i.request,
        http_as_request_response(i).response == i.response,
        request_response_as_http(http_as_request_response(i)).request == i.request,
        request_response_as_http(http_as_request_response(i)).response == i.response,
        request_response_as_http(http_as_request_response(i)).description == i.description,
        request_response_as_http(http_as_request_response(i)).provider_states
            == i.provider_states,
{
}

/// The message for an interaction without a member `type`.
pub open spec fn no_type_fault(index: usize, source: Seq<char>) -> Seq<char> {
    "Interaction "@ + decimal(index as nat)
        + " has no type attribute. It will be ignored. Source: "@ + source
}

/// The message for an interaction whose member `type` names no kind.
pub open spec fn bad_type_fault(index: usize, kind: JsonModel, source: Seq<char>) -> Seq<char> {
    "Interaction "@ + decimal(index as nat) + " has an incorrect type attribute '"@ + compact_text(
        kind,
    ) + "'. It will be ignored. Source: "@ + source
}

/// The message for an interaction of a message and its replies, which is
/// not read.
pub open spec fn unimplemented_fault(source: Seq<char>) -> Seq<char> {
    "Interaction type 'Synchronous/Messages' is currently unimplemented. It will be ignored. Source: "@
        + source
}

/// The comments that the JSON form of an interaction gives.
pub open spec fn comments_of(j: JsonModel) -> Entries<JsonModel> {
    match member(j, "comments"@) {
        Some(JsonModel::Object(m)) => m,
        _ => seq![],
    }
}

/// The key that the JSON form of an interaction gives.
pub open spec fn key_of(j: JsonModel) -> Option<Seq<char>> {
    match member(j, "key"@) {
        Some(v) => Some(plain_text(v)),
        None => None,
    }
}

/// The member `k` of an object, or `null` where there is none.
pub open spec fn member_or_null(j: JsonModel, k: Seq<char>) -> JsonModel {
    match member(j, k) {
        Some(v) => v,
        None => JsonModel::Null,
    }
}

/// The interaction of a request and a response that a JSON value writes in
/// version 4.
pub open spec fn v4_http_of(index: usize, j: JsonModel) -> Result<V4Model, Seq<char>> {
    match v4_request_of(member_or_null(j, "request"@)) {
        Err(e) => Err(e),
        Ok(request) => match v4_response_of(member_or_null(j, "response"@)) {
            Err(e) => Err(e),
            Ok(response) => Ok(
                V4Model::SynchronousHttp(
                    SynchronousHttpModel {
                        id: id_of(j),
                        key: key_of(j),
                        description: description_of(j, "Interaction"@, index),
                        provider_states: states_of(j),
                        request,
                        response,
                        comments: comments_of(j),
                    },
                ),
            ),
        },
    }
}

/// The metadata that the JSON form of a message gives in version 4.
pub open spec fn v4_metadata_of(j: JsonModel) -> Entries<JsonModel> {
    match member(j, "metadata"@) {
        Some(JsonModel::Object(m)) => m,
        _ => seq![],
    }
}

/// The content type that the metadata of a message declare under
/// `contentType`.
pub open spec fn metadata_type(metadata: Entries<JsonModel>) -> Option<ContentTypeModel> {
    match lookup(metadata, "contentType"@) {
        Some(v) => parsed_content_type(plain_text(v)),
        None => None,
    }
}

/// The interaction of one message that a JSON value writes in version 4.
pub open spec fn v4_message_of(index: usize, j: JsonModel) -> Result<V4Model, Seq<char>> {
    match matchers_from(j, None) {
        Err(e) => Err(e),
        Ok(matching_rules) => match generators_from(j) {
            Err(e) => Err(e),
            Ok(generators) => Ok(
                V4Model::AsynchronousMessage(
                    AsynchronousMessageModel {
                        id: id_of(j),
                        key: key_of(j),
                        description: description_of(j, "Interaction"@, index),
                        provider_states: states_of(j),
                        contents: v4_body_of(
                            member(j, "contents"@),
                            metadata_type(v4_metadata_of(j)),
                        ),
                        metadata: v4_metadata_of(j),
                        matching_rules,
                        generators,
                        comments: comments_of(j),
                    },
                ),
            ),
        },
    }
}

/// The interaction that a JSON value writes at position `index` of a pact
/// of version 4 that was read from `source`: of the kind that its member
/// `type` names. An interaction without that member, with a kind that is
/// none, or of a message and its replies, is an error, as is one whose
/// parts could not be read.
pub open spec fn v4_interaction_of(source: Seq<char>, index: usize, j: JsonModel) -> Result<
    V4Model,
    Seq<char>,
> {
    match member(j, "type"@) {
        None => Err(no_type_fault(index, source)),
        Some(kind) => match type_of_text(plain_text(kind)) {
            None => Err(bad_type_fault(index, kind, source)),
            Some(V4InteractionType::Synchronous_HTTP) => v4_http_of(index, j),
            Some(V4InteractionType::Asynchronous_Messages) => v4_message_of(index, j),
            Some(V4InteractionType::Synchronous_Messages) => Err(unimplemented_fault(source)),
        },
    }
}

/// The interactions that the first `n` of the JSON values `items` write,
/// without those that could not be read.
pub open spec fn v4_interactions_of(source: Seq<char>, items: Seq<JsonModel>, n: nat) -> Seq<
    V4Model,
>
    decreases n,
{
    if n == 0 {
        seq![]
    } else {
        let before = v4_interactions_of(source, items, (n - 1) as nat);
        match v4_interaction_of(source, (n - 1) as usize, items[n - 1]) {
            Ok(i) => before.push(i),
            Err(_) => before,
        }
    }
}

/// The interactions of a pact of version 4: those that the items of its
/// member `interactions` write, where that is an array.
pub open spec fn v4_interactions(source: Seq<char>, j: JsonModel) -> Seq<V4Model> {
    match member(j, "interactions"@) {
        Some(JsonModel::Array(items)) => v4_interactions_of(source, items, items.len()),
        _ => seq![],
    }
}

/// The messages for those of the first `n` of the JSON values `items` that
/// write no interaction, in their order.
pub open spec fn v4_faults_of(source: Seq<char>, items: Seq<JsonModel>, n: nat) -> Seq<Seq<char>>
    decreases n,
{
    if n == 0 {
        seq![]
    } else {
        let before = v4_faults_of(source, items, (n - 1) as nat);
        match v4_interaction_of(source, (n - 1) as usize, items[n - 1]) {
            Ok(_) => before,
            Err(e) => before.push(e),
        }
    }
}

/// The messages for the interactions of a pact of version 4 that could not
/// be read: one for each item of its member `interactions` that writes no
/// interaction.
pub open spec fn v4_faults(source: Seq<char>, j: JsonModel) -> Seq<Seq<char>> {
    match member(j, "interactions"@) {
        Some(JsonModel::Array(items)) => v4_faults_of(source, items, items.len()),
        _ => seq![],
    }
}

/// Every one of the first `n` items is either read as an interaction or
/// reported with a message: the interactions and the messages together are
/// as many as the items.
pub proof fn lemma_read_or_reported(source: Seq<char>, items: Seq<JsonModel>, n: nat)
    ensures
        v4_interactions_of(source, items, n).len() + v4_faults_of(source, items, n).len() == n,
    decreases n,
{
    if n > 0 {
        lemma_read_or_reported(source, items, (n - 1) as nat);
    }
}

/// Reads the comments of an interaction from its JSON form.
fn comments_from_json(j: &Json) -> (r: SortedMap<Json>)
    ensures
        r.deep_view() == comments_of(j.deep_view()),
{
    match j.get("comments") {
        Some(v) => {
            proof {
                lemma_json_model(*v);
            }
            match v {
                Json::Object(m) => m.duplicate(),
                _ => SortedMap::new(),
            }
        },
        None => SortedMap::new(),
    }
}

/// Reads an interaction of a request and a response in version 4.
fn http_from_json(index: usize, ijson: &Json) -> (r: Result<V4Interaction, String>)
    ensures
        match r {
            Ok(i) => v4_http_of(index, ijson.deep_view()) == Ok::<V4Model, Seq<char>>(
                i.deep_view(),
            ),
            Err(e) => v4_http_of(index, ijson.deep_view()) == Err::<V4Model, Seq<char>>(e@),
        },
{
    let nothing = Json::Null;
    let request_json = match ijson.get("request") {
        Some(v) => v,
        None => &nothing,
    };
    let response_json = match ijson.get("response") {
        Some(v) => v,
        None => &nothing,
    };
    let request = match HttpRequest::from_json(request_json) {
        Ok(request) => request,
        Err(e) => {
            return Err(e);
        },
    };
    let response = match HttpResponse::from_json(response_json) {
        Ok(response) => response,
        Err(e) => {
            return Err(e);
        },
    };
    let key = match ijson.get("key") {
        Some(v) => Some(v.to_plain_text()),
        None => None,
    };
    Ok(
        V4Interaction::SynchronousHttp(
            SynchronousHttp {
                id: id_from_json(ijson),
                key,
                description: description_from_json(ijson, "Interaction", index),
                provider_states: ProviderState::from_json(ijson),
                request,
                response,
                comments: comments_from_json(ijson),
            },
        ),
    )
}

/// Reads an interaction of one message in version 4.
fn message_from_json(index: usize, ijson: &Json) -> (r: Result<V4Interaction, String>)
    ensures
        match r {
            Ok(i) => v4_message_of(index, ijson.deep_view()) == Ok::<V4Model, Seq<char>>(
                i.deep_view(),
            ),
            Err(e) => v4_message_of(index, ijson.deep_view()) == Err::<V4Model, Seq<char>>(e@),
        },
{
    let metadata: SortedMap<Json> = match ijson.get("metadata") {
        Some(v) => {
            proof {
                lemma_json_model(*v);
            }
            match v {
                Json::Object(m) => m.duplicate(),
                _ => SortedMap::new(),
            }
        },
        None => SortedMap::new(),
    };
    let declared = match metadata.get("contentType") {
        Some(v) => ContentType::parse(v.to_plain_text().as_str()),
        None => None,
    };
    let contents = body_from_v4(ijson, "contents", declared);
    let matching_rules = match matchers_from_json(ijson, &None) {
        Ok(rules) => rules,
        Err(e) => {
            return Err(e);
        },
    };
    let generators = match generators_from_json(ijson) {
        Ok(g) => g,
        Err(e) => {
            return Err(e);
        },
    };
    let key = match ijson.get("key") {
        Some(v) => Some(v.to_plain_text()),
        None => None,
    };
    Ok(
        V4Interaction::AsynchronousMessage(
            AsynchronousMessage {
                id: id_from_json(ijson),
                key,
                description: description_from_json(ijson, "Interaction", index),
                provider_states: ProviderState::from_json(ijson),
                contents,
                metadata,
                matching_rules,
                generators,
                comments: comments_from_json(ijson),
            },
        ),
    )
}

/// Reads the interaction at position `index` of a pact of version 4 that
/// was read from `source`.
pub fn interaction_from_json(source: &str, index: usize, ijson: &Json) -> (r: Result<
    V4Interaction,
    String,
>)
    ensures
        match r {
            Ok(i) => v4_interaction_of(source@, index, ijson.deep_view()) == Ok::<
                V4Model,
                Seq<char>,
            >(i.deep_view()),
            Err(e) => v4_interaction_of(source@, index, ijson.deep_view()) == Err::<
                V4Model,
                Seq<char>,
            >(e@),
        },
{
    match ijson.get("type") {
        Some(i_type) => {
            let name = i_type.to_plain_text();
            match V4InteractionType::from_str(name.as_str()) {
                Ok(kind) => match kind {
                    V4InteractionType::Synchronous_HTTP => http_from_json(index, ijson),
                    V4InteractionType::Asynchronous_Messages => message_from_json(index, ijson),
                    V4InteractionType::Synchronous_Messages => {
                        let mut message =
                            "Interaction type 'Synchronous/Messages' is currently unimplemented. It will be ignored. Source: ".to_owned();
                        message.append(source);
                        Err(message)
                    },
                },
                Err(_) => {
                    let mut message = "Interaction ".to_owned();
                    message.append(decimal_string(index).as_str());
                    message.append(" has an incorrect type attribute '");
                    message.append(json_text(i_type).as_str());
                    message.append("'. It will be ignored. Source: ");
                    message.append(source);
                    Err(message)
                },
            }
        },
        None => {
            let mut message = "Interaction ".to_owned();
            message.append(decimal_string(index).as_str());
            message.append(" has no type attribute. It will be ignored. Source: ");
            message.append(source);
            Err(message)
        },
    }
}

/// Reads the interactions of a pact of version 4 that was read from
/// `source`, and leaves out those that cannot be read.
pub fn interactions_from_json(json: &Json, source: &str) -> (r: Vec<V4Interaction>)
    ensures
        r.deep_view() == v4_interactions(source@, json.deep_view()),
{
    let mut r: Vec<V4Interaction> = Vec::new();
    assert(r.deep_view() =~= Seq::<V4Model>::empty());
    match json.get("interactions") {
        Some(v) => {
            proof {
                lemma_json_model(*v);
            }
            match v {
                Json::Array(array) => {
                    let ghost items = array.deep_view();
                    let mut index: usize = 0;
                    while index < array.len()
                        invariant
                            index <= array.len(),
                            items == array.deep_view(),
                            r.deep_view() == v4_interactions_of(source@, items, index as nat),
                        decreases array.len() - index,
                    {
                        proof {
                            assert(items[index as int] == array@[index as int].deep_view());
                        }
                        match interaction_from_json(source, index, &array[index]) {
                            Ok(i) => {
                                let ghost before = r.deep_view();
                                r.push(i);
                                assert(r.deep_view() =~= before.push(i.deep_view()));
                            },
                            Err(_) => {},
                        }
                        index += 1;
                    }
                },
                _ => {},
            }
        },
        None => {},
    }
    r
}

/// The messages for the interactions of a pact of version 4, read from
/// `source`, that cannot be read and that `interactions_from_json` leaves
/// out: one for each, in their order.
pub fn interaction_faults_from_json(json: &Json, source: &str) -> (r: Vec<String>)
    ensures
        r.deep_view() == v4_faults(source@, json.deep_view()),
{
    let mut r: Vec<String> = Vec::new();
    assert(r.deep_view() =~= Seq::<Seq<char>>::empty());
    match json.get("interactions") {
        Some(v) => {
            proof {
                lemma_json_model(*v);
            }
            match v {
                Json::Array(array) => {
                    let ghost items = array.deep_view();
                    let mut index: usize = 0;
                    while index < array.len()
                        invariant
                            index <= array.len(),
                            items == array.deep_view(),
                            r.deep_view() == v4_faults_of(source@, items, index as nat),
                        decreases array.len() - index,
                    {
                        proof {
                            assert(items[index as int] == array@[index as int].deep_view());
                        }
                        match interaction_from_json(source, index, &array[index]) {
                            Ok(_) => {},
                            Err(e) => {
                                let ghost before = r.deep_view();
                                r.push(e);
                                assert(r.deep_view() =~= before.push(e@));
                            },
                        }
                        index += 1;
                    }
                },
                _ => {},
            }
        },
        None => {},
    }
    r
}

/// Whether a name of metadata, in ASCII lower case, names the content
/// type.
pub open spec fn names_content_type(name: Seq<char>) -> bool {
    ascii_lowercase(name) == "contenttype"@ || ascii_lowercase(name) == "content-type"@
}

/// The position of the first of the metadata from `from` on whose name
/// names the content type, or their number where there is none.
pub open spec fn content_type_position(metadata: Entries<JsonModel>, from: int) -> int
    decreases metadata.len() - from,
{
    if from >= metadata.len() {
        metadata.len() as int
    } else if names_content_type(metadata[from].0) {
        from
    } else {
        content_type_position(metadata, from + 1)
    }
}

/// The content type that the metadata of a message name, whatever the case
/// of the letters of the name: the text of the value where it is a string,
/// and the empty text where it is another value.
pub open spec fn named_content_type(metadata: Entries<JsonModel>) -> Option<Seq<char>> {
    let p = content_type_position(metadata, 0);
    if 0 <= p < metadata.len() {
        match metadata[p].1 {
            JsonModel::String(s) => Some(s),
            _ => Some(Seq::empty()),
        }
    } else {
        None
    }
}

impl AsynchronousMessage {
    /// The content type that the metadata of the message name.
    pub fn lookup_content_type(&self) -> (r: Option<String>)
        ensures
            r.deep_view() == named_content_type(self.deep_view().metadata),
    {
        let ghost all = self.metadata.deep_view();
        let mut i: usize = 0;
        while i < self.metadata.entries.len()
            invariant
                i <= self.metadata.entries.len(),
                all == self.metadata.deep_view(),
                content_type_position(all, 0) == content_type_position(all, i as int),
            decreases self.metadata.entries.len() - i,
        {
            let key = to_ascii_lowercase(self.metadata.entries[i].0.as_str());
            if str_eq(key.as_str(), "contenttype") || str_eq(key.as_str(), "content-type") {
                return match &self.metadata.entries[i].1 {
                    Json::String(s) => Some(s.clone()),
                    _ => Some(String::new()),
                };
            }
            i += 1;
        }
        None
    }
}

} // verus!
