//! Requests and responses as pacts of version 4 of the specification hold
//! them, and the form in which that version writes a body.

use vstd::prelude::*;
use crate::bodies::{
    base64_decode, base64_decoded, base64_encode, base64_encoded, body_type, BodyModel,
    OptionalBody,
};
use crate::collections::{lookup, put, Duplicate, Entries, Same, SortedMap};
use crate::content_types::{
    binary_type, content_type_text, json_type, parsed_content_type, unknown_type, ContentType,
    ContentTypeModel,
};
use crate::generators::{
    generators_from, generators_from_json, generators_members, generators_to_json, no_generators,
    Generators,
};
use crate::headers::{
    declared_content_type, declared_type, header_members, headers_from, headers_from_json,
    headers_to_json, Headers,
};
use crate::json::{
    json_from_bytes, lemma_json_model, member, parsed_bytes, plain_text, Json, JsonModel,
};
use crate::matchingrules::{
    matchers_from, matchers_from_json, matchers_json, matchers_to_json, no_rules, MatchingRules,
};
use crate::models::{
    method_of, object_query, path_of, query_to_object, query_value_members, status_fault,
    status_of, v3_query_from_json, Query, Request, RequestModel, Response, ResponseModel,
};
use crate::query::{text_of_utf8, MultiMap};
use crate::text::{str_eq, to_uppercase, uppercase};

verus! {

/// How the bytes of a body are written: as the JSON value that they hold or
/// as a string, with the mark of whether the string is in base64.
pub open spec fn written_content(bytes: Seq<u8>, content_type: ContentTypeModel) -> (
    JsonModel,
    JsonModel,
) {
    let in_base64 = (
        JsonModel::String(base64_encoded(bytes)),
        JsonModel::String("base64"@),
    );
    if json_type(content_type) {
        match parsed_bytes(bytes) {
            Some(j) => (j, JsonModel::Bool(false)),
            None => in_base64,
        }
    } else if binary_type(content_type) {
        in_base64
    } else if vstd::utf8::valid_utf8(bytes) {
        (JsonModel::String(vstd::utf8::decode_utf8(bytes)), JsonModel::Bool(false))
    } else {
        in_base64
    }
}

/// The value by which a body is written in version 4: for bytes, an object
/// with `content`, `contentType` and `encoded`; for an empty body, an object
/// with the empty `content`; and `null` for a null body. A missing body is
/// not written; where a value is asked for it all the same, it is `null`.
pub open spec fn v4_body_json(body: BodyModel) -> JsonModel {
    match body {
        BodyModel::Present(bytes, _) => {
            let content_type = match body_type(body) {
                Some(c) => c,
                None => unknown_type(),
            };
            let written = written_content(bytes, content_type);
            JsonModel::Object(
                put(
                    put(
                        put(Seq::empty(), "content"@, written.0),
                        "contentType"@,
                        JsonModel::String(content_type_text(content_type)),
                    ),
                    "encoded"@,
                    written.1,
                ),
            )
        },
        BodyModel::Empty => JsonModel::Object(
            put(Seq::empty(), "content"@, JsonModel::String(Seq::empty())),
        ),
        _ => JsonModel::Null,
    }
}

/// Whether the member `encoded` says that the content is encoded, and how.
pub open spec fn encoding_of(attrs: Entries<JsonModel>) -> (bool, Seq<char>) {
    match lookup(attrs, "encoded"@) {
        Some(JsonModel::String(s)) => (true, s),
        Some(JsonModel::Bool(b)) => (b, Seq::empty()),
        _ => (false, Seq::empty()),
    }
}

/// The bytes of a content written as `text`, where `decoded` is what the
/// text holds as base64: those bytes where the encoding is `base64` and the
/// text holds any, else the text itself.
pub open spec fn content_bytes(
    text: Seq<char>,
    encoding: (bool, Seq<char>),
    decoded: Option<Seq<u8>>,
) -> Seq<u8> {
    if encoding.0 && encoding.1 == "base64"@ && decoded is Some {
        decoded->0
    } else {
        vstd::utf8::encode_utf8(text)
    }
}

/// The body that a member of a JSON object stands for in version 4, where
/// `declared` is the content type that the headers give: for an object with
/// `content`, its bytes with the content type of `contentType`, or the
/// declared one where there is no such member; empty where there are no
/// bytes; null for `null`; and missing for anything else.
pub open spec fn v4_body_of(field: Option<JsonModel>, declared: Option<ContentTypeModel>) -> BodyModel {
    match field {
        Some(JsonModel::Object(attrs)) => match lookup(attrs, "content"@) {
            Some(contents) => {
                let content_type = match lookup(attrs, "contentType"@) {
                    Some(v) => parsed_content_type(plain_text(v)),
                    None => declared,
                };
                let text = plain_text(contents);
                let bytes = content_bytes(text, encoding_of(attrs), base64_decoded(text));
                if bytes.len() == 0 {
                    BodyModel::Empty
                } else {
                    BodyModel::Present(bytes, content_type)
                }
            },
            None => BodyModel::Missing,
        },
        Some(JsonModel::Null) => BodyModel::Null,
        _ => BodyModel::Missing,
    }
}

/// The bytes of a content written as `text`, where `decoded` is what the
/// text holds as base64.
pub fn content_bytes_of(text: &str, encoded: bool, encoding: &str, decoded: Option<Vec<u8>>) -> (r:
    Vec<u8>)
    ensures
        r@ == content_bytes(
            text@,
            (encoded, encoding@),
            match decoded {
                Some(bytes) => Some(bytes@),
                None => None,
            },
        ),
{
    if encoded && str_eq(encoding, "base64") {
        match decoded {
            Some(bytes) => bytes,
            None => text.as_bytes_vec(),
        }
    } else {
        text.as_bytes_vec()
    }
}

/// Writes a body in the form of version 4.
pub fn body_to_v4_json(body: &OptionalBody) -> (r: Json)
    ensures
        r.deep_view() == v4_body_json(body.deep_view()),
{
    match body {
        OptionalBody::Present(bytes, _) => {
            let content_type = match body.content_type() {
                Some(c) => c,
                None => ContentType::unknown(),
            };
            let (contents, encoded) = if content_type.is_json() {
                match json_from_bytes(bytes.as_slice()) {
                    Some(j) => (j, Json::Bool(false)),
                    None => (Json::String(base64_encode(bytes)), Json::String("base64".to_owned())),
                }
            } else if content_type.is_binary() {
                (Json::String(base64_encode(bytes)), Json::String("base64".to_owned()))
            } else {
                match text_of_utf8(bytes) {
                    Ok(s) => (Json::String(s), Json::Bool(false)),
                    Err(_) => (
                        Json::String(base64_encode(bytes)),
                        Json::String("base64".to_owned()),
                    ),
                }
            };
            let mut members: SortedMap<Json> = SortedMap::new();
            members.insert("content".to_owned(), contents);
            members.insert("contentType".to_owned(), Json::String(content_type.to_text()));
            members.insert("encoded".to_owned(), encoded);
            Json::object(members)
        },
        OptionalBody::Empty => {
            let mut members: SortedMap<Json> = SortedMap::new();
            members.insert("content".to_owned(), Json::String(String::new()));
            Json::object(members)
        },
        _ => Json::Null,
    }
}

/// Reads the member `attr_name` of `json` as a body in the form of version
/// 4, where `declared` is the content type that the part declares.
pub fn body_from_v4(json: &Json, attr_name: &str, declared: Option<ContentType>) -> (r:
    OptionalBody)
    ensures
        r.deep_view() == v4_body_of(member(json.deep_view(), attr_name@), declared.deep_view()),
{
    match json.get(attr_name) {
        Some(body) => {
            proof {
                lemma_json_model(*body);
            }
            match body {
                Json::Object(attrs) => match attrs.get("content") {
                    Some(contents) => {
                        let content_type = match attrs.get("contentType") {
                            Some(v) => ContentType::parse(v.to_plain_text().as_str()),
                            None => declared,
                        };
                        let (encoded, encoding) = match attrs.get("encoded") {
                            Some(Json::String(s)) => (true, s.clone()),
                            Some(Json::Bool(b)) => (*b, String::new()),
                            _ => (false, String::new()),
                        };
                        let text = contents.to_plain_text();
                        let decoded = base64_decode(text.as_str());
                        let bytes = content_bytes_of(
                            text.as_str(),
                            encoded,
                            encoding.as_str(),
                            decoded,
                        );
                        if bytes.len() == 0 {
                            OptionalBody::Empty
                        } else {
                            OptionalBody::Present(bytes, content_type)
                        }
                    },
                    None => OptionalBody::Missing,
                },
                Json::Null => OptionalBody::Null,
                _ => OptionalBody::Missing,
            }
        },
        None => OptionalBody::Missing,
    }
}

/// Reads the member `attr_name` of `json` as a body in the form of version
/// 4, for a part with the given headers.
pub fn body_from_v4_json(json: &Json, attr_name: &str, headers: &Option<MultiMap>) -> (r:
    OptionalBody)
    ensures
        r.deep_view() == v4_body_of(
            member(json.deep_view(), attr_name@),
            declared_type(headers.deep_view()),
        ),
{
    body_from_v4(json, attr_name, declared_content_type(headers))
}

/// A request as version 4 holds it.
#[derive(Debug, PartialEq, Eq, Hash)]
pub struct HttpRequest {
    /// The method, such as `GET`.
    pub method: String,
    /// The path.
    pub path: String,
    /// The parameters of the query.
    pub query: Option<MultiMap>,
    /// The headers.
    pub headers: Option<MultiMap>,
    /// The body.
    pub body: OptionalBody,
    /// The matching rules.
    pub matching_rules: MatchingRules,
    /// The generators.
    pub generators: Generators,
}

impl DeepView for HttpRequest {
    type V = RequestModel;

    open spec fn deep_view(&self) -> RequestModel {
        RequestModel {
            method: self.method@,
            path: self.path@,
            query: self.query.deep_view(),
            headers: self.headers.deep_view(),
            body: self.body.deep_view(),
            matching_rules: self.matching_rules.deep_view(),
            generators: self.generators.deep_view(),
        }
    }
}

impl Duplicate for HttpRequest {
    fn duplicate(&self) -> (r: HttpRequest) {
        HttpRequest {
            method: self.method.clone(),
            path: self.path.clone(),
            query: self.query.duplicate(),
            headers: self.headers.duplicate(),
            body: self.body.duplicate(),
            matching_rules: self.matching_rules.duplicate(),
            generators: self.generators.duplicate(),
        }
    }
}

impl Same for HttpRequest {
    fn same(&self, other: &HttpRequest) -> (b: bool) {
        self.method == other.method && self.path == other.path && self.query.same(&other.query)
            && self.headers.same(&other.headers) && self.body.same(&other.body)
            && self.matching_rules.same(&other.matching_rules) && self.generators.same(
            &other.generators,
        )
    }
}

/// The query that the JSON form of a request gives in version 4.
pub open spec fn v4_query_of(j: JsonModel) -> Query {
    match member(j, "query"@) {
        Some(v) => object_query(v),
        None => None,
    }
}

/// The request that a JSON value writes in version 4, or the message for
/// its first path of a matching rule or generator that is no path
/// expression.
pub open spec fn v4_request_of(j: JsonModel) -> Result<RequestModel, Seq<char>> {
    match matchers_from(j, None) {
        Err(e) => Err(e),
        Ok(matching_rules) => match generators_from(j) {
            Err(e) => Err(e),
            Ok(generators) => Ok(
                RequestModel {
                    method: method_of(j),
                    path: path_of(j),
                    query: v4_query_of(j),
                    headers: headers_from(j),
                    body: v4_body_of(member(j, "body"@), declared_type(headers_from(j))),
                    matching_rules,
                    generators,
                },
            ),
        },
    }
}

/// The members `base` with those that a request and a response share in
/// version 4: `headers` where there are headers; `body` unless the body is
/// missing; `matchingRules` and `generators` where there are any.
pub open spec fn v4_part_members(
    base: Entries<JsonModel>,
    headers: Headers,
    body: BodyModel,
    matching_rules: Entries<crate::matchingrules::CategoryModel>,
    generators: crate::generators::GeneratorsModel,
) -> Entries<JsonModel> {
    let with_headers = match headers {
        Some(h) => put(base, "headers"@, JsonModel::Object(header_members(h))),
        None => base,
    };
    let with_body = if body is Missing {
        with_headers
    } else {
        put(with_headers, "body"@, v4_body_json(body))
    };
    let with_rules = if !no_rules(matching_rules) {
        put(with_body, "matchingRules"@, matchers_json(matching_rules, true))
    } else {
        with_body
    };
    if !no_generators(generators) {
        put(with_rules, "generators"@, JsonModel::Object(generators_members(generators)))
    } else {
        with_rules
    }
}

/// The members by which a request is written in version 4.
pub open spec fn v4_request_members(r: RequestModel) -> Entries<JsonModel> {
    let base = put(
        put(Seq::empty(), "method"@, JsonModel::String(uppercase(r.method))),
        "path"@,
        JsonModel::String(r.path),
    );
    let with_query = match r.query {
        Some(q) => put(base, "query"@, JsonModel::Object(query_value_members(q))),
        None => base,
    };
    v4_part_members(with_query, r.headers, r.body, r.matching_rules, r.generators)
}

/// Adds to `members` those that a request and a response share in version
/// 4.
pub fn write_v4_part(
    members: &mut SortedMap<Json>,
    headers: &Option<MultiMap>,
    body: &OptionalBody,
    matching_rules: &MatchingRules,
    generators: &Generators,
)
    ensures
        final(members).deep_view() == v4_part_members(
            old(members).deep_view(),
            headers.deep_view(),
            body.deep_view(),
            matching_rules.deep_view(),
            generators.deep_view(),
        ),
{
    match headers {
        Some(h) => {
            members.insert("headers".to_owned(), headers_to_json(h));
        },
        None => {},
    }
    match body {
        OptionalBody::Missing => {},
        _ => {
            members.insert("body".to_owned(), body_to_v4_json(body));
        },
    }
    if matching_rules.is_not_empty() {
        members.insert("matchingRules".to_owned(), matchers_to_json(matching_rules, true));
    }
    if generators.is_not_empty() {
        members.insert("generators".to_owned(), generators_to_json(generators));
    }
}

impl HttpRequest {
    /// The default request: a `GET` of the root.
    pub fn default() -> (r: HttpRequest)
        ensures
            r.deep_view() == crate::models::default_request(),
    {
        HttpRequest {
            method: "GET".to_owned(),
            path: "/".to_owned(),
            query: None,
            headers: None,
            body: OptionalBody::Missing,
            matching_rules: MatchingRules::default(),
            generators: Generators::default(),
        }
    }

    /// Reads a request from its JSON form in version 4.
    pub fn from_json(request_json: &Json) -> (r: Result<HttpRequest, String>)
        ensures
            match r {
                Ok(request) => v4_request_of(request_json.deep_view()) == Ok::<
                    RequestModel,
                    Seq<char>,
                >(request.deep_view()),
                Err(e) => v4_request_of(request_json.deep_view()) == Err::<RequestModel, Seq<char>>(
                    e@,
                ),
            },
    {
        let method_val = match request_json.get("method") {
            Some(v) => {
                let text = v.to_plain_text();
                to_uppercase(text.as_str())
            },
            None => "GET".to_owned(),
        };
        let path_val = match request_json.get("path") {
            Some(v) => v.to_plain_text(),
            None => "/".to_owned(),
        };
        let query_val = match request_json.get("query") {
            Some(v) => v3_query_from_json(v),
            None => None,
        };
        let headers = headers_from_json(request_json);
        let body = body_from_v4_json(request_json, "body", &headers);
        let matching_rules = match matchers_from_json(request_json, &None) {
            Ok(rules) => rules,
            Err(e) => {
                return Err(e);
            },
        };
        let generators = match generators_from_json(request_json) {
            Ok(g) => g,
            Err(e) => {
                return Err(e);
            },
        };
        Ok(
            HttpRequest {
                method: method_val,
                path: path_val,
                query: query_val,
                headers,
                body,
                matching_rules,
                generators,
            },
        )
    }

    /// Writes the request as a JSON object in version 4.
    pub fn to_json(&self) -> (r: Json)
        ensures
            r.deep_view() == JsonModel::Object(v4_request_members(self.deep_view())),
    {
        let mut members: SortedMap<Json> = SortedMap::new();
        members.insert("method".to_owned(), Json::String(to_uppercase(self.method.as_str())));
        members.insert("path".to_owned(), Json::String(self.path.clone()));
        match &self.query {
            Some(q) => {
                members.insert("query".to_owned(), query_to_object(q));
            },
            None => {},
        }
        write_v4_part(
            &mut members,
            &self.headers,
            &self.body,
            &self.matching_rules,
            &self.generators,
        );
        Json::object(members)
    }

    /// The same request as versions 1 to 3 hold it.
    pub fn as_v3_request(&self) -> (r: Request)
        ensures
            r.deep_view() == self.deep_view(),
    {
        Request {
            method: self.method.clone(),
            path: self.path.clone(),
            query: self.query.duplicate(),
            headers: self.headers.duplicate(),
            body: self.body.duplicate(),
            matching_rules: self.matching_rules.duplicate(),
            generators: self.generators.duplicate(),
        }
    }
}

/// A response as version 4 holds it.
#[derive(Debug, PartialEq, Eq, Hash)]
pub struct HttpResponse {
    /// The status code.
    pub status: u16,
    /// The headers.
    pub headers: Option<MultiMap>,
    /// The body.
    pub body: OptionalBody,
    /// The matching rules.
    pub matching_rules: MatchingRules,
    /// The generators.
    pub generators: Generators,
}

impl DeepView for HttpResponse {
    type V = ResponseModel;

    open spec fn deep_view(&self) -> ResponseModel {
        ResponseModel {
            status: self.status,
            headers: self.headers.deep_view(),
            body: self.body.deep_view(),
            matching_rules: self.matching_rules.deep_view(),
            generators: self.generators.deep_view(),
        }
    }
}

impl Duplicate for HttpResponse {
    fn duplicate(&self) -> (r: HttpResponse) {
        HttpResponse {
            status: self.status,
            headers: self.headers.duplicate(),
            body: self.body.duplicate(),
            matching_rules: self.matching_rules.duplicate(),
            generators: self.generators.duplicate(),
        }
    }
}

impl Same for HttpResponse {
    fn same(&self, other: &HttpResponse) -> (b: bool) {
        self.status == other.status && self.headers.same(&other.headers) && self.body.same(
            &other.body,
        ) && self.matching_rules.same(&other.matching_rules) && self.generators.same(
            &other.generators,
        )
    }
}

/// The response that a JSON value writes in version 4, or the message for a
/// status that is no number, or for the first path of a matching rule or
/// generator that is no path expression.
pub open spec fn v4_response_of(j: JsonModel) -> Result<ResponseModel, Seq<char>> {
    match status_of(j) {
        None => Err(status_fault(j)),
        Some(status) => match matchers_from(j, None) {
            Err(e) => Err(e),
            Ok(matching_rules) => match generators_from(j) {
                Err(e) => Err(e),
                Ok(generators) => Ok(
                    ResponseModel {
                        status,
                        headers: headers_from(j),
                        body: v4_body_of(member(j, "body"@), declared_type(headers_from(j))),
                        matching_rules,
                        generators,
                    },
                ),
            },
        },
    }
}

/// The members by which a response is written in version 4.
pub open spec fn v4_response_members(r: ResponseModel) -> Entries<JsonModel> {
    v4_part_members(
        put(Seq::empty(), "status"@, crate::json::number_model(r.status as nat)),
        r.headers,
        r.body,
        r.matching_rules,
        r.generators,
    )
}

impl HttpResponse {
    /// The default response: the status 200 and nothing else.
    pub fn default() -> (r: HttpResponse)
        ensures
            r.deep_view() == crate::models::default_response(),
    {
        HttpResponse {
            status: 200,
            headers: None,
            body: OptionalBody::Missing,
            matching_rules: MatchingRules::default(),
            generators: Generators::default(),
        }
    }

    /// Reads a response from its JSON form in version 4.
    pub fn from_json(response: &Json) -> (r: Result<HttpResponse, String>)
        ensures
            match r {
                Ok(read) => v4_response_of(response.deep_view()) == Ok::<ResponseModel, Seq<char>>(
                    read.deep_view(),
                ),
                Err(e) => v4_response_of(response.deep_view()) == Err::<ResponseModel, Seq<char>>(
                    e@,
                ),
            },
    {
        let status_val: u16 = match response.get("status") {
            Some(v) => match v.as_u64() {
                Some(n) => (n % 65536) as u16,
                None => {
                    let mut message = "Response status is not a number: ".to_owned();
                    message.append(crate::json::json_text(v).as_str());
                    return Err(message);
                },
            },
            None => 200,
        };
        let headers = headers_from_json(response);
        let body = body_from_v4_json(response, "body", &headers);
        let matching_rules = match matchers_from_json(response, &None) {
            Ok(rules) => rules,
            Err(e) => {
                return Err(e);
            },
        };
        let generators = match generators_from_json(response) {
            Ok(g) => g,
            Err(e) => {
                return Err(e);
            },
        };
        Ok(HttpResponse { status: status_val, headers, body, matching_rules, generators })
    }

    /// Writes the response as a JSON object in version 4.
    pub fn to_json(&self) -> (r: Json)
        ensures
            r.deep_view() == JsonModel::Object(v4_response_members(self.deep_view())),
    {
        let mut members: SortedMap<Json> = SortedMap::new();
        members.insert("status".to_owned(), Json::number(self.status as usize));
        write_v4_part(
            &mut members,
            &self.headers,
            &self.body,
            &self.matching_rules,
            &self.generators,
        );
        Json::object(members)
    }

    /// The same response as versions 1 to 3 hold it.
    pub fn as_v3_response(&self) -> (r: Response)
        ensures
            r.deep_view() == self.deep_view(),
    {
        Response {
            status: self.status,
            headers: self.headers.duplicate(),
            body: self.body.duplicate(),
            matching_rules: self.matching_rules.duplicate(),
            generators: self.generators.duplicate(),
        }
    }
}

impl Request {
    /// The same request as version 4 holds it.
    pub fn as_v4_request(&self) -> (r: HttpRequest)
        ensures
            r.deep_view() == self.deep_view(),
    {
        HttpRequest {
            method: self.method.clone(),
            path: self.path.clone(),
            query: self.query.duplicate(),
            headers: self.headers.duplicate(),
            body: self.body.duplicate(),
            matching_rules: self.matching_rules.duplicate(),
            generators: self.generators.duplicate(),
        }
    }
}

impl Response {
    /// The same response as version 4 holds it.
    pub fn as_v4_response(&self) -> (r: HttpResponse)
        ensures
            r.deep_view() == self.deep_view(),
    {
        HttpResponse {
            status: self.status,
            headers: self.headers.duplicate(),
            body: self.body.duplicate(),
            matching_rules: self.matching_rules.duplicate(),
            generators: self.generators.duplicate(),
        }
    }
}

} // verus!
