//! Requests and responses as pacts of versions 1 to 3 of the specification
//! hold them, with the parties of a pact and the versions of the
//! specification.

use vstd::prelude::*;
use crate::bodies::{body_json, body_of_json, BodyModel, OptionalBody};
use crate::collections::{keys_of, put, Duplicate, Entries, Same, SortedMap};
use crate::content_types::{unknown_type, ContentType};
use crate::generators::{
    generators_from, generators_from_json, generators_members, generators_to_json, no_generators,
    Generators, GeneratorsModel,
};
use crate::headers::{
    body_from_json, content_type, declared_type, header_members, headers_from, headers_from_json,
    headers_to_json, lookup_header_value, resolved_type, header_value, Headers,
};
use crate::json::{
    compact_text, json_text, lemma_json_model, member, plain_text, count_of, Json, JsonModel,
};
use crate::matchingrules::{
    matchers_from, matchers_from_json, matchers_json, matchers_to_json, nested_members, no_rules,
    CategoryModel, MatchingRules,
};
use crate::query::{
    build_query_string, joined, parse_query_string, parsed_query, written_parameters, MultiMap,
};
use crate::text::{decimal, decimal_string, to_uppercase, uppercase};

verus! {

/// A version of the pact specification.
#[derive(Debug, Clone, Copy, PartialEq, Eq, Hash, PartialOrd, Ord)]
#[allow(non_camel_case_types)]
pub enum PactSpecification {
    /// A version that is not known.
    Unknown,
    /// Version 1.
    V1,
    /// Version 1.1.
    V1_1,
    /// Version 2.
    V2,
    /// Version 3.
    V3,
    /// Version 4.
    V4,
}

impl DeepView for PactSpecification {
    type V = PactSpecification;

    open spec fn deep_view(&self) -> PactSpecification {
        *self
    }
}

/// The number by which a version is written in the metadata of a pact.
pub open spec fn version_text(spec: PactSpecification) -> Seq<char> {
    match spec {
        PactSpecification::V1 => "1.0.0"@,
        PactSpecification::V1_1 => "1.1.0"@,
        PactSpecification::V2 => "2.0.0"@,
        PactSpecification::V3 => "3.0.0"@,
        PactSpecification::V4 => "4.0"@,
        PactSpecification::Unknown => "unknown"@,
    }
}

/// The name of a version.
pub open spec fn version_name(spec: PactSpecification) -> Seq<char> {
    match spec {
        PactSpecification::V1 => "V1"@,
        PactSpecification::V1_1 => "V1.1"@,
        PactSpecification::V2 => "V2"@,
        PactSpecification::V3 => "V3"@,
        PactSpecification::V4 => "V4"@,
        PactSpecification::Unknown => "unknown"@,
    }
}

/// Whether matching rules and queries are written in their nested forms:
/// from version 3 on.
pub open spec fn nested_forms(spec: PactSpecification) -> bool {
    spec is V3 || spec is V4
}

impl PactSpecification {
    /// The number by which the version is written in the metadata of a
    /// pact.
    pub fn version_str(&self) -> (r: String)
        ensures
            r@ == version_text(*self),
    {
        match self {
            PactSpecification::V1 => "1.0.0".to_owned(),
            PactSpecification::V1_1 => "1.1.0".to_owned(),
            PactSpecification::V2 => "2.0.0".to_owned(),
            PactSpecification::V3 => "3.0.0".to_owned(),
            PactSpecification::V4 => "4.0".to_owned(),
            PactSpecification::Unknown => "unknown".to_owned(),
        }
    }

    /// The name of the version.
    pub fn to_text(&self) -> (r: String)
        ensures
            r@ == version_name(*self),
    {
        match self {
            PactSpecification::V1 => "V1".to_owned(),
            PactSpecification::V1_1 => "V1.1".to_owned(),
            PactSpecification::V2 => "V2".to_owned(),
            PactSpecification::V3 => "V3".to_owned(),
            PactSpecification::V4 => "V4".to_owned(),
            PactSpecification::Unknown => "unknown".to_owned(),
        }
    }

    /// Whether matching rules and queries are written in their nested
    /// forms.
    pub fn is_nested(&self) -> (b: bool)
        ensures
            b == nested_forms(*self),
    {
        match self {
            PactSpecification::V3 => true,
            PactSpecification::V4 => true,
            _ => false,
        }
    }
}

/// The name that the value of `consumer` or `provider` gives: its member
/// `name` as a text, or `fallback` where it has none.
pub open spec fn party_name(j: JsonModel, fallback: Seq<char>) -> Seq<char> {
    match member(j, "name"@) {
        Some(v) => plain_text(v),
        None => fallback,
    }
}

/// The members by which a party is written: its name.
pub open spec fn party_members(name: Seq<char>) -> Entries<JsonModel> {
    put(Seq::empty(), "name"@, JsonModel::String(name))
}

/// The consumer of a pact.
#[derive(Debug, PartialEq, Eq, Hash)]
pub struct Consumer {
    pub name: String,
}

/// The provider of a pact.
#[derive(Debug, PartialEq, Eq, Hash)]
pub struct Provider {
    pub name: String,
}

impl Consumer {
    /// Reads a consumer from its JSON form.
    pub fn from_json(j: &Json) -> (r: Consumer)
        ensures
            r.name@ == party_name(j.deep_view(), "consumer"@),
    {
        match j.get("name") {
            Some(v) => Consumer { name: v.to_plain_text() },
            None => Consumer { name: "consumer".to_owned() },
        }
    }

    /// Writes the consumer as a JSON object.
    pub fn to_json(&self) -> (r: Json)
        ensures
            r.deep_view() == JsonModel::Object(party_members(self.name@)),
    {
        let mut members: SortedMap<Json> = SortedMap::new();
        members.insert("name".to_owned(), Json::String(self.name.clone()));
        Json::object(members)
    }
}

impl Provider {
    /// Reads a provider from its JSON form.
    pub fn from_json(j: &Json) -> (r: Provider)
        ensures
            r.name@ == party_name(j.deep_view(), "provider"@),
    {
        match j.get("name") {
            Some(v) => Provider { name: v.to_plain_text() },
            None => Provider { name: "provider".to_owned() },
        }
    }

    /// Writes the provider as a JSON object.
    pub fn to_json(&self) -> (r: Json)
        ensures
            r.deep_view() == JsonModel::Object(party_members(self.name@)),
    {
        let mut members: SortedMap<Json> = SortedMap::new();
        members.insert("name".to_owned(), Json::String(self.name.clone()));
        Json::object(members)
    }
}

/// The kinds of differences between two requests or two responses.
#[derive(Debug, Clone, Copy, PartialEq, Eq, Hash)]
pub enum DifferenceType {
    /// The methods differ.
    Method,
    /// The paths differ.
    Path,
    /// The headers differ.
    Headers,
    /// The query parameters differ.
    QueryParameters,
    /// The bodies differ.
    Body,
    /// The matching rules differ.
    MatchingRules,
    /// The response statuses differ.
    Status,
}

impl DeepView for DifferenceType {
    type V = DifferenceType;

    open spec fn deep_view(&self) -> DifferenceType {
        *self
    }
}

/// A difference: its kind and its description.
pub type Difference = (DifferenceType, Seq<char>);

/// The parameters of a query, if it has any.
pub type Query = Option<Entries<Seq<Seq<char>>>>;

/// The mathematical value of a `Request`.
pub struct RequestModel {
    pub method: Seq<char>,
    pub path: Seq<char>,
    pub query: Query,
    pub headers: Headers,
    pub body: BodyModel,
    pub matching_rules: Entries<CategoryModel>,
    pub generators: GeneratorsModel,
}

/// A request.
#[derive(Debug, PartialEq, Eq, Hash)]
pub struct Request {
    /// The method, such as `GET`.
    pub method: String,
    /// The path.
    pub path: String,
    /// The parameters of the query.
    pub query: Option<MultiMap>,
    /// The headers.
    pub headers: Option<MultiMap>,
    /// The body.
    pub body: OptionalBody,
    /// The matching rules.
    pub matching_rules: MatchingRules,
    /// The generators.
    pub generators: Generators,
}

impl DeepView for Request {
    type V = RequestModel;

    open spec fn deep_view(&self) -> RequestModel {
        RequestModel {
            method: self.method@,
            path: self.path@,
            query: self.query.deep_view(),
            headers: self.headers.deep_view(),
            body: self.body.deep_view(),
            matching_rules: self.matching_rules.deep_view(),
            generators: self.generators.deep_view(),
        }
    }
}

impl Duplicate for Request {
    fn duplicate(&self) -> (r: Request) {
        Request {
            method: self.method.clone(),
            path: self.path.clone(),
            query: self.query.duplicate(),
            headers: self.headers.duplicate(),
            body: self.body.duplicate(),
            matching_rules: self.matching_rules.duplicate(),
            generators: self.generators.duplicate(),
        }
    }
}

impl Same for Request {
    fn same(&self, other: &Request) -> (b: bool) {
        self.method == other.method && self.path == other.path && self.query.same(&other.query)
            && self.headers.same(&other.headers) && self.body.same(&other.body)
            && self.matching_rules.same(&other.matching_rules) && self.generators.same(
            &other.generators,
        )
    }
}

/// The default request: a `GET` of the root.
pub open spec fn default_request() -> RequestModel {
    RequestModel {
        method: "GET"@,
        path: "/"@,
        query: None,
        headers: None,
        body: BodyModel::Missing,
        matching_rules: seq![],
        generators: seq![],
    }
}

/// The method that the JSON form of a request gives: its member `method` in
/// upper case, or `GET`.
pub open spec fn method_of(j: JsonModel) -> Seq<char> {
    match member(j, "method"@) {
        Some(v) => uppercase(plain_text(v)),
        None => "GET"@,
    }
}

/// The path that the JSON form of a request gives: its member `path`, or
/// `/`.
pub open spec fn path_of(j: JsonModel) -> Seq<char> {
    match member(j, "path"@) {
        Some(v) => plain_text(v),
        None => "/"@,
    }
}

/// The query that a JSON value writes where only the text form is read.
pub open spec fn string_query(v: JsonModel) -> Query {
    match v {
        JsonModel::String(s) => parsed_query(s),
        _ => None,
    }
}

/// The values that a JSON value gives a query parameter: a string is one
/// value; of an array each item is one, a string as it is and any other
/// item as the JSON text of the array; any other value gives none.
pub open spec fn query_values(v: JsonModel) -> Seq<Seq<char>> {
    match v {
        JsonModel::String(s) => seq![s],
        JsonModel::Array(items) => Seq::new(
            items.len(),
            |i: int|
                match items[i] {
                    JsonModel::String(s) => s,
                    _ => compact_text(v),
                },
        ),
        _ => seq![],
    }
}

/// The parameters that the members of a JSON object give.
pub open spec fn query_members(m: Entries<JsonModel>) -> Entries<Seq<Seq<char>>>
    decreases m.len(),
{
    if m.len() == 0 {
        seq![]
    } else {
        put(query_members(m.drop_last()), m.last().0, query_values(m.last().1))
    }
}

/// The query that a JSON value writes where both the text form and the
/// object form are read.
pub open spec fn object_query(v: JsonModel) -> Query {
    match v {
        JsonModel::String(s) => parsed_query(s),
        JsonModel::Object(m) => Some(query_members(m)),
        _ => None,
    }
}

/// The query that the JSON form of a request gives for a version of the
/// specification: the object form is read for version 3 only.
pub open spec fn query_of(j: JsonModel, spec: PactSpecification) -> Query {
    match member(j, "query"@) {
        Some(v) => if spec is V3 {
            object_query(v)
        } else {
            string_query(v)
        },
        None => None,
    }
}

/// The request that a JSON value writes for a version of the specification,
/// or the message for its first path of a matching rule or generator that
/// is no path expression.
pub open spec fn request_of(j: JsonModel, spec: PactSpecification) -> Result<
    RequestModel,
    Seq<char>,
> {
    match matchers_from(j, Some("requestMatchingRules"@)) {
        Err(e) => Err(e),
        Ok(matching_rules) => match generators_from(j) {
            Err(e) => Err(e),
            Ok(generators) => Ok(
                RequestModel {
                    method: method_of(j),
                    path: path_of(j),
                    query: query_of(j, spec),
                    headers: headers_from(j),
                    body: body_of_json(member(j, "body"@), declared_type(headers_from(j))),
                    matching_rules,
                    generators,
                },
            ),
        },
    }
}

/// The JSON strings of texts, in their order.
pub open spec fn strings_json(values: Seq<Seq<char>>) -> Seq<JsonModel> {
    Seq::new(values.len(), |i: int| JsonModel::String(values[i]))
}

/// The members by which the parameters of a query are written in the
/// object form: for each name the array of its values.
pub open spec fn query_value_members(q: Entries<Seq<Seq<char>>>) -> Entries<JsonModel>
    decreases q.len(),
{
    if q.len() == 0 {
        seq![]
    } else {
        put(
            query_value_members(q.drop_last()),
            q.last().0,
            JsonModel::Array(strings_json(q.last().1)),
        )
    }
}

/// The value by which a query is written for a version of the
/// specification: an object from version 3 on, a query string before.
pub open spec fn query_json(q: Entries<Seq<Seq<char>>>, spec: PactSpecification) -> JsonModel {
    if nested_forms(spec) {
        JsonModel::Object(query_value_members(q))
    } else {
        JsonModel::String(joined(written_parameters(q), seq!['&']))
    }
}

/// The members `base` with those that a request and a response share:
/// `headers` where there are headers; `body` unless the body is missing,
/// written for the content type of the part; `matchingRules` and
/// `generators` where there are any.
pub open spec fn part_members(
    base: Entries<JsonModel>,
    headers: Headers,
    body: BodyModel,
    matching_rules: Entries<CategoryModel>,
    generators: GeneratorsModel,
    spec: PactSpecification,
) -> Entries<JsonModel> {
    let with_headers = match headers {
        Some(h) => put(base, "headers"@, JsonModel::Object(header_members(h))),
        None => base,
    };
    let resolved = match resolved_type(body, headers) {
        Some(c) => c,
        None => unknown_type(),
    };
    let with_body = match body_json(body, resolved) {
        Some(b) => put(with_headers, "body"@, b),
        None => with_headers,
    };
    let with_rules = if !no_rules(matching_rules) {
        put(with_body, "matchingRules"@, matchers_json(matching_rules, nested_forms(spec)))
    } else {
        with_body
    };
    if !no_generators(generators) {
        put(with_rules, "generators"@, JsonModel::Object(generators_members(generators)))
    } else {
        with_rules
    }
}

/// The members by which a request is written for a version of the
/// specification.
pub open spec fn request_members(r: RequestModel, spec: PactSpecification) -> Entries<JsonModel> {
    let base = put(
        put(Seq::empty(), "method"@, JsonModel::String(uppercase(r.method))),
        "path"@,
        JsonModel::String(r.path),
    );
    let with_query = match r.query {
        Some(q) => put(base, "query"@, query_json(q, spec)),
        None => base,
    };
    part_members(with_query, r.headers, r.body, r.matching_rules, r.generators, spec)
}

/// The differences `acc` with one more where `differs` holds.
pub open spec fn noted(acc: Seq<Difference>, differs: bool, kind: DifferenceType, text: Seq<char>) -> Seq<
    Difference,
> {
    if differs {
        acc.push((kind, text))
    } else {
        acc
    }
}

/// How a query is described: the JSON text of its object form, or `None`.
pub open spec fn described_query(q: Query) -> Seq<char> {
    match q {
        Some(m) => compact_text(JsonModel::Object(query_value_members(m))),
        None => "None"@,
    }
}

/// How headers are described: their JSON text, or `None`.
pub open spec fn described_headers(h: Headers) -> Seq<char> {
    match h {
        Some(m) => compact_text(JsonModel::Object(header_members(m))),
        None => "None"@,
    }
}

/// How a body is described: by its kind and the number of its bytes.
pub open spec fn described_body(b: BodyModel) -> Seq<char> {
    match b {
        BodyModel::Missing => "Missing"@,
        BodyModel::Empty => "Empty"@,
        BodyModel::Null => "Null"@,
        BodyModel::Present(bytes, _) => "Present("@ + decimal(bytes.len()) + " bytes)"@,
    }
}

/// How matching rules are described: their JSON text in the nested form.
pub open spec fn described_rules(rules: Entries<CategoryModel>) -> Seq<char> {
    compact_text(JsonModel::Object(nested_members(rules)))
}

/// `head`, then `a`, then `middle`, then `b`, then `tail`.
pub open spec fn versus(
    head: Seq<char>,
    a: Seq<char>,
    middle: Seq<char>,
    b: Seq<char>,
    tail: Seq<char>,
) -> Seq<char> {
    head + a + middle + b + tail
}

/// The names of the headers, in their order; none where there are no
/// headers.
pub open spec fn header_names(h: Headers) -> Seq<Seq<char>> {
    match h {
        Some(m) => keys_of(m),
        None => seq![],
    }
}

/// The differences of the request `a` from the request `b`, in this order:
/// the method, the path, the query, the names of the headers, the body, the
/// matching rules.
pub open spec fn request_differences(a: RequestModel, b: RequestModel) -> Seq<Difference> {
    let d1 = noted(
        seq![],
        a.method != b.method,
        DifferenceType::Method,
        versus("Request method "@, a.method, " != "@, b.method, ""@),
    );
    let d2 = noted(
        d1,
        a.path != b.path,
        DifferenceType::Path,
        versus("Request path "@, a.path, " != "@, b.path, ""@),
    );
    let d3 = noted(
        d2,
        a.query != b.query,
        DifferenceType::QueryParameters,
        versus("Request query "@, described_query(a.query), " != "@, described_query(b.query), ""@),
    );
    let d4 = noted(
        d3,
        header_names(a.headers) != header_names(b.headers),
        DifferenceType::Headers,
        versus(
            "Request headers "@,
            described_headers(a.headers),
            " != "@,
            described_headers(b.headers),
            ""@,
        ),
    );
    let d5 = noted(
        d4,
        a.body != b.body,
        DifferenceType::Body,
        versus("Request body '"@, described_body(a.body), "' != '"@, described_body(b.body), "'"@),
    );
    noted(
        d5,
        a.matching_rules != b.matching_rules,
        DifferenceType::MatchingRules,
        versus(
            "Request matching rules "@,
            described_rules(a.matching_rules),
            " != "@,
            described_rules(b.matching_rules),
            ""@,
        ),
    )
}

/// Reads the query that a JSON value writes where only the text form is
/// read.
pub fn query_from_json(query_json: &Json) -> (r: Option<MultiMap>)
    ensures
        r.deep_view() == string_query(query_json.deep_view()),
{
    match query_json {
        Json::String(s) => parse_query_string(s.as_str()),
        _ => None,
    }
}

/// The values that a JSON value gives a query parameter.
fn query_values_of(v: &Json) -> (r: Vec<String>)
    ensures
        r.deep_view() == query_values(v.deep_view()),
{
    proof {
        lemma_json_model(*v);
    }
    let mut r: Vec<String> = Vec::new();
    assert(r.deep_view() =~= Seq::<Seq<char>>::empty());
    match v {
        Json::String(s) => {
            r.push(s.clone());
            assert(r.deep_view() =~= seq![s@]);
        },
        Json::Array(items) => {
            let ghost all = query_values(v.deep_view());
            let mut i: usize = 0;
            while i < items.len()
                invariant
                    i <= items.len(),
                    all.len() == items.len(),
                    forall|k: int|
                        0 <= k < items.len() ==> all[k] == (match #[trigger] items@[k].deep_view() {
                            JsonModel::String(s) => s,
                            _ => compact_text(v.deep_view()),
                        }),
                    r.deep_view() == all.take(i as int),
                decreases items.len() - i,
            {
                let text = match &items[i] {
                    Json::String(s) => s.clone(),
                    _ => json_text(v),
                };
                let ghost before = r.deep_view();
                r.push(text);
                proof {
                    let item = items@[i as int];
                    assert(item.deep_view() is String <==> item is String);
                    assert(item is String ==> item.deep_view() == JsonModel::String(
                        item->String_0@,
                    ));
                    assert(text@ == all[i as int]);
                    assert(r.deep_view() =~= before.push(text@));
                    assert(all.take(i + 1) == all.take(i as int).push(all[i as int]));
                }
                i += 1;
            }
            proof {
                assert(all.take(items.len() as int) == all);
            }
        },
        _ => {},
    }
    r
}

/// Reads the query that a JSON value writes where both the text form and
/// the object form are read.
pub fn v3_query_from_json(query_json: &Json) -> (r: Option<MultiMap>)
    ensures
        r.deep_view() == object_query(query_json.deep_view()),
{
    proof {
        lemma_json_model(*query_json);
    }
    match query_json {
        Json::String(s) => parse_query_string(s.as_str()),
        Json::Object(members) => {
            let mut map: MultiMap = SortedMap::new();
            let ghost m = members.deep_view();
            let mut i: usize = 0;
            while i < members.entries.len()
                invariant
                    i <= members.entries.len(),
                    m == members.deep_view(),
                    map.deep_view() == query_members(m.take(i as int)),
                decreases members.entries.len() - i,
            {
                proof {
                    let next = m.take(i + 1);
                    assert(next.drop_last() == m.take(i as int));
                    assert(next.last() == m[i as int]);
                }
                map.insert(members.entries[i].0.clone(), query_values_of(&members.entries[i].1));
                i += 1;
            }
            proof {
                assert(m.take(members.entries.len() as int) == m);
            }
            Some(map)
        },
        _ => None,
    }
}

/// The JSON strings of texts, in their order.
pub fn strings_to_json(values: &Vec<String>) -> (r: Vec<Json>)
    ensures
        r.deep_view() == strings_json(values.deep_view()),
{
    let mut r: Vec<Json> = Vec::new();
    let ghost all = strings_json(values.deep_view());
    let mut i: usize = 0;
    while i < values.len()
        invariant
            i <= values.len(),
            all == strings_json(values.deep_view()),
            r.deep_view() == all.take(i as int),
        decreases values.len() - i,
    {
        let item = Json::String(values[i].clone());
        let ghost before = r.deep_view();
        r.push(item);
        proof {
            assert(r.deep_view() =~= before.push(item.deep_view()));
            assert(all.take(i + 1) == all.take(i as int).push(all[i as int]));
        }
        i += 1;
    }
    proof {
        assert(all.take(values.len() as int) == all);
    }
    r
}

/// Writes the parameters of a query in the object form.
pub fn query_to_object(query: &MultiMap) -> (r: Json)
    ensures
        r.deep_view() == JsonModel::Object(query_value_members(query.deep_view())),
{
    let mut members: SortedMap<Json> = SortedMap::new();
    let ghost q = query.deep_view();
    let mut i: usize = 0;
    while i < query.entries.len()
        invariant
            i <= query.entries.len(),
            q == query.deep_view(),
            members.deep_view() == query_value_members(q.take(i as int)),
        decreases query.entries.len() - i,
    {
        proof {
            let next = q.take(i + 1);
            assert(next.drop_last() == q.take(i as int));
            assert(next.last() == q[i as int]);
            assert(q[i as int].1 == query.entries@[i as int].1.deep_view());
        }
        members.insert(
            query.entries[i].0.clone(),
            Json::array(strings_to_json(&query.entries[i].1)),
        );
        i += 1;
    }
    proof {
        assert(q.take(query.entries.len() as int) == q);
    }
    Json::object(members)
}

/// Writes a query for a version of the specification.
pub fn query_to_json(query: &MultiMap, spec_version: &PactSpecification) -> (r: Json)
    ensures
        r.deep_view() == query_json(query.deep_view(), *spec_version),
{
    if spec_version.is_nested() {
        query_to_object(query)
    } else {
        Json::String(build_query_string(query))
    }
}

/// Adds to `members` those that a request and a response share.
pub fn write_part(
    members: &mut SortedMap<Json>,
    headers: &Option<MultiMap>,
    body: &OptionalBody,
    matching_rules: &MatchingRules,
    generators: &Generators,
    spec_version: &PactSpecification,
)
    ensures
        final(members).deep_view() == part_members(
            old(members).deep_view(),
            headers.deep_view(),
            body.deep_view(),
            matching_rules.deep_view(),
            generators.deep_view(),
            *spec_version,
        ),
{
    match headers {
        Some(h) => {
            members.insert("headers".to_owned(), headers_to_json(h));
        },
        None => {},
    }
    let resolved = match content_type(body, headers) {
        Some(c) => c,
        None => ContentType::unknown(),
    };
    match body.to_json(&resolved) {
        Some(b) => {
            members.insert("body".to_owned(), b);
        },
        None => {},
    }
    if matching_rules.is_not_empty() {
        members.insert(
            "matchingRules".to_owned(),
            matchers_to_json(matching_rules, spec_version.is_nested()),
        );
    }
    if generators.is_not_empty() {
        members.insert("generators".to_owned(), generators_to_json(generators));
    }
}

/// `head`, then `a`, then `middle`, then `b`, then `tail`.
fn versus_text(head: &str, a: &str, middle: &str, b: &str, tail: &str) -> (r: String)
    ensures
        r@ == versus(head@, a@, middle@, b@, tail@),
{
    let mut r = head.to_owned();
    r.append(a);
    r.append(middle);
    r.append(b);
    r.append(tail);
    r
}

/// Describes a query.
pub fn describe_query(q: &Option<MultiMap>) -> (r: String)
    ensures
        r@ == described_query(q.deep_view()),
{
    match q {
        Some(m) => json_text(&query_to_object(m)),
        None => "None".to_owned(),
    }
}

/// Describes headers.
pub fn describe_headers(h: &Option<MultiMap>) -> (r: String)
    ensures
        r@ == described_headers(h.deep_view()),
{
    match h {
        Some(m) => json_text(&headers_to_json(m)),
        None => "None".to_owned(),
    }
}

/// Describes a body.
pub fn describe_body(b: &OptionalBody) -> (r: String)
    ensures
        r@ == described_body(b.deep_view()),
{
    match b {
        OptionalBody::Missing => "Missing".to_owned(),
        OptionalBody::Empty => "Empty".to_owned(),
        OptionalBody::Null => "Null".to_owned(),
        OptionalBody::Present(bytes, _) => {
            let mut r = "Present(".to_owned();
            let n = decimal_string(bytes.len());
            r.append(n.as_str());
            r.append(" bytes)");
            r
        },
    }
}

/// Describes matching rules.
pub fn describe_rules(rules: &MatchingRules) -> (r: String)
    ensures
        r@ == described_rules(rules.deep_view()),
{
    json_text(&rules.to_v3_json())
}

/// The names of the headers, in their order.
fn names_of_headers(h: &Option<MultiMap>) -> (r: Vec<String>)
    ensures
        r.deep_view() == header_names(h.deep_view()),
{
    let mut r: Vec<String> = Vec::new();
    assert(r.deep_view() =~= Seq::<Seq<char>>::empty());
    match h {
        Some(m) => {
            let ghost all = keys_of(m.deep_view());
            let mut i: usize = 0;
            while i < m.entries.len()
                invariant
                    i <= m.entries.len(),
                    all == keys_of(m.deep_view()),
                    r.deep_view() == all.take(i as int),
                decreases m.entries.len() - i,
            {
                let name = m.entries[i].0.clone();
                let ghost before = r.deep_view();
                r.push(name);
                proof {
                    assert(r.deep_view() =~= before.push(name@));
                    assert(all.take(i + 1) == all.take(i as int).push(all[i as int]));
                }
                i += 1;
            }
            proof {
                assert(all.take(m.entries.len() as int) == all);
            }
        },
        None => {},
    }
    r
}

/// Adds a difference to `differences` where `differs` holds.
fn note(differences: &mut Vec<(DifferenceType, String)>, differs: bool, kind: DifferenceType, text: String)
    ensures
        final(differences).deep_view() == noted(old(differences).deep_view(), differs, kind, text@),
{
    if differs {
        let ghost before = differences.deep_view();
        differences.push((kind, text));
        assert(differences.deep_view() =~= before.push((kind, text@)));
    }
}

impl Request {
    /// The default request: a `GET` of the root.
    pub fn default() -> (r: Request)
        ensures
            r.deep_view() == default_request(),
    {
        Request {
            method: "GET".to_owned(),
            path: "/".to_owned(),
            query: None,
            headers: None,
            body: OptionalBody::Missing,
            matching_rules: MatchingRules::default(),
            generators: Generators::default(),
        }
    }

    /// The default request: a `GET` of the root.
    pub fn default_request() -> (r: Request)
        ensures
            r.deep_view() == default_request(),
    {
        Request::default()
    }

    /// Reads a request from its JSON form for a version of the
    /// specification.
    pub fn from_json(request_json: &Json, spec_version: &PactSpecification) -> (r: Result<
        Request,
        String,
    >)
        ensures
            match r {
                Ok(request) => request_of(request_json.deep_view(), *spec_version) == Ok::<
                    RequestModel,
                    Seq<char>,
                >(request.deep_view()),
                Err(e) => request_of(request_json.deep_view(), *spec_version) == Err::<
                    RequestModel,
                    Seq<char>,
                >(e@),
            },
    {
        let method_val = match request_json.get("method") {
            Some(v) => {
                let text = v.to_plain_text();
                to_uppercase(text.as_str())
            },
            None => "GET".to_owned(),
        };
        let path_val = match request_json.get("path") {
            Some(v) => v.to_plain_text(),
            None => "/".to_owned(),
        };
        let query_val = match request_json.get("query") {
            Some(v) => match spec_version {
                PactSpecification::V3 => v3_query_from_json(v),
                _ => query_from_json(v),
            },
            None => None,
        };
        let headers = headers_from_json(request_json);
        let body = body_from_json(request_json, "body", &headers);
        let matching_rules = match matchers_from_json(
            request_json,
            &Some("requestMatchingRules".to_owned()),
        ) {
            Ok(rules) => rules,
            Err(e) => {
                return Err(e);
            },
        };
        let generators = match generators_from_json(request_json) {
            Ok(g) => g,
            Err(e) => {
                return Err(e);
            },
        };
        Ok(
            Request {
                method: method_val,
                path: path_val,
                query: query_val,
                headers,
                body,
                matching_rules,
                generators,
            },
        )
    }

    /// Writes the request as a JSON object for a version of the
    /// specification.
    pub fn to_json(&self, spec_version: &PactSpecification) -> (r: Json)
        ensures
            r.deep_view() == JsonModel::Object(request_members(self.deep_view(), *spec_version)),
    {
        let mut members: SortedMap<Json> = SortedMap::new();
        members.insert("method".to_owned(), Json::String(to_uppercase(self.method.as_str())));
        members.insert("path".to_owned(), Json::String(self.path.clone()));
        match &self.query {
            Some(q) => {
                members.insert("query".to_owned(), query_to_json(q, spec_version));
            },
            None => {},
        }
        write_part(
            &mut members,
            &self.headers,
            &self.body,
            &self.matching_rules,
            &self.generators,
            spec_version,
        );
        Json::object(members)
    }

    /// The value of the header `header_name`, whatever the case of its
    /// letters.
    pub fn lookup_header_value(&self, header_name: &str) -> (r: Option<String>)
        ensures
            r.deep_view() == header_value(self.deep_view().headers, header_name@),
    {
        lookup_header_value(&self.headers, header_name)
    }

    /// The value of the `Content-Type` header.
    pub fn lookup_content_type(&self) -> (r: Option<String>)
        ensures
            r.deep_view() == header_value(self.deep_view().headers, "content-type"@),
    {
        lookup_header_value(&self.headers, "content-type")
    }

    /// The content type of the request.
    pub fn content_type(&self) -> (r: Option<ContentType>)
        ensures
            r.deep_view() == resolved_type(self.deep_view().body, self.deep_view().headers),
    {
        content_type(&self.body, &self.headers)
    }

    /// Describes all the differences of this request from another.
    pub fn differences_from(&self, other: &Request) -> (r: Vec<(DifferenceType, String)>)
        ensures
            r.deep_view() == request_differences(self.deep_view(), other.deep_view()),
    {
        let mut differences: Vec<(DifferenceType, String)> = Vec::new();
        assert(differences.deep_view() =~= Seq::<Difference>::empty());
        note(
            &mut differences,
            self.method != other.method,
            DifferenceType::Method,
            versus_text(
                "Request method ",
                self.method.as_str(),
                " != ",
                other.method.as_str(),
                "",
            ),
        );
        note(
            &mut differences,
            self.path != other.path,
            DifferenceType::Path,
            versus_text("Request path ", self.path.as_str(), " != ", other.path.as_str(), ""),
        );
        note(
            &mut differences,
            !self.query.same(&other.query),
            DifferenceType::QueryParameters,
            versus_text(
                "Request query ",
                describe_query(&self.query).as_str(),
                " != ",
                describe_query(&other.query).as_str(),
                "",
            ),
        );
        let keys = names_of_headers(&self.headers);
        let other_keys = names_of_headers(&other.headers);
        note(
            &mut differences,
            !keys.same(&other_keys),
            DifferenceType::Headers,
            versus_text(
                "Request headers ",
                describe_headers(&self.headers).as_str(),
                " != ",
                describe_headers(&other.headers).as_str(),
                "",
            ),
        );
        note(
            &mut differences,
            !self.body.same(&other.body),
            DifferenceType::Body,
            versus_text(
                "Request body '",
                describe_body(&self.body).as_str(),
                "' != '",
                describe_body(&other.body).as_str(),
                "'",
            ),
        );
        note(
            &mut differences,
            !self.matching_rules.same(&other.matching_rules),
            DifferenceType::MatchingRules,
            versus_text(
                "Request matching rules ",
                describe_rules(&self.matching_rules).as_str(),
                " != ",
                describe_rules(&other.matching_rules).as_str(),
                "",
            ),
        );
        differences
    }
}

/// The mathematical value of a `Response`.
pub struct ResponseModel {
    pub status: u16,
    pub headers: Headers,
    pub body: BodyModel,
    pub matching_rules: Entries<CategoryModel>,
    pub generators: GeneratorsModel,
}

/// A response.
#[derive(Debug, PartialEq, Eq, Hash)]
pub struct Response {
    /// The status code.
    pub status: u16,
    /// The headers.
    pub headers: Option<MultiMap>,
    /// The body.
    pub body: OptionalBody,
    /// The matching rules.
    pub matching_rules: MatchingRules,
    /// The generators.
    pub generators: Generators,
}

impl DeepView for Response {
    type V = ResponseModel;

    open spec fn deep_view(&self) -> ResponseModel {
        ResponseModel {
            status: self.status,
            headers: self.headers.deep_view(),
            body: self.body.deep_view(),
            matching_rules: self.matching_rules.deep_view(),
            generators: self.generators.deep_view(),
        }
    }
}

impl Duplicate for Response {
    fn duplicate(&self) -> (r: Response) {
        Response {
            status: self.status,
            headers: self.headers.duplicate(),
            body: self.body.duplicate(),
            matching_rules: self.matching_rules.duplicate(),
            generators: self.generators.duplicate(),
        }
    }
}

impl Same for Response {
    fn same(&self, other: &Response) -> (b: bool) {
        self.status == other.status && self.headers.same(&other.headers) && self.body.same(
            &other.body,
        ) && self.matching_rules.same(&other.matching_rules) && self.generators.same(
            &other.generators,
        )
    }
}

/// The default response: the status 200 and nothing else.
pub open spec fn default_response() -> ResponseModel {
    ResponseModel {
        status: 200,
        headers: None,
        body: BodyModel::Missing,
        matching_rules: seq![],
        generators: seq![],
    }
}

/// The status that the JSON form of a response gives: 200 where it has no
/// member `status`; the lowest 16 bits of that member where it is a number
/// written in digits that fits 64 bits; and none for any other member.
pub open spec fn status_of(j: JsonModel) -> Option<u16> {
    match member(j, "status"@) {
        Some(v) => match count_of(v, u64::MAX as nat) {
            Some(n) => Some((n % 65536) as u16),
            None => None,
        },
        None => Some(200),
    }
}

/// The message for a status that is no number.
pub open spec fn status_fault(j: JsonModel) -> Seq<char> {
    "Response status is not a number: "@ + compact_text(member(j, "status"@)->0)
}

/// The response that a JSON value writes, or the message for a status that
/// is no number, or for the first path of a matching rule or generator that
/// is no path expression.
pub open spec fn response_of(j: JsonModel) -> Result<ResponseModel, Seq<char>> {
    match status_of(j) {
        None => Err(status_fault(j)),
        Some(status) => match matchers_from(j, Some("responseMatchingRules"@)) {
            Err(e) => Err(e),
            Ok(matching_rules) => match generators_from(j) {
                Err(e) => Err(e),
                Ok(generators) => Ok(
                    ResponseModel {
                        status,
                        headers: headers_from(j),
                        body: body_of_json(member(j, "body"@), declared_type(headers_from(j))),
                        matching_rules,
                        generators,
                    },
                ),
            },
        },
    }
}

/// The members by which a response is written for a version of the
/// specification.
pub open spec fn response_members(r: ResponseModel, spec: PactSpecification) -> Entries<
    JsonModel,
> {
    part_members(
        put(Seq::empty(), "status"@, crate::json::number_model(r.status as nat)),
        r.headers,
        r.body,
        r.matching_rules,
        r.generators,
        spec,
    )
}

/// The differences of the response `a` from the response `b`, in this
/// order: the status, the headers, the body, the matching rules.
pub open spec fn response_differences(a: ResponseModel, b: ResponseModel) -> Seq<Difference> {
    let d1 = noted(
        seq![],
        a.status != b.status,
        DifferenceType::Status,
        versus(
            "Response status "@,
            decimal(a.status as nat),
            " != "@,
            decimal(b.status as nat),
            ""@,
        ),
    );
    let d2 = noted(
        d1,
        a.headers != b.headers,
        DifferenceType::Headers,
        versus(
            "Response headers "@,
            described_headers(a.headers),
            " != "@,
            described_headers(b.headers),
            ""@,
        ),
    );
    let d3 = noted(
        d2,
        a.body != b.body,
        DifferenceType::Body,
        versus("Response body '"@, described_body(a.body), "' != '"@, described_body(b.body), "'"@),
    );
    noted(
        d3,
        a.matching_rules != b.matching_rules,
        DifferenceType::MatchingRules,
        versus(
            "Response matching rules "@,
            described_rules(a.matching_rules),
            " != "@,
            described_rules(b.matching_rules),
            ""@,
        ),
    )
}

impl Response {
    /// The default response: the status 200 and nothing else.
    pub fn default() -> (r: Response)
        ensures
            r.deep_view() == default_response(),
    {
        Response {
            status: 200,
            headers: None,
            body: OptionalBody::Missing,
            matching_rules: MatchingRules::default(),
            generators: Generators::default(),
        }
    }

    /// The default response: the status 200 and nothing else.
    pub fn default_response() -> (r: Response)
        ensures
            r.deep_view() == default_response(),
    {
        Response::default()
    }

    /// Reads a response from its JSON form.
    pub fn from_json(response: &Json, _spec_version: &PactSpecification) -> (r: Result<
        Response,
        String,
    >)
        ensures
            match r {
                Ok(read) => response_of(response.deep_view()) == Ok::<ResponseModel, Seq<char>>(
                    read.deep_view(),
                ),
                Err(e) => response_of(response.deep_view()) == Err::<ResponseModel, Seq<char>>(e@),
            },
    {
        let status_val: u16 = match response.get("status") {
            Some(v) => match v.as_u64() {
                Some(n) => (n % 65536) as u16,
                None => {
                    let mut message = "Response status is not a number: ".to_owned();
                    message.append(json_text(v).as_str());
                    return Err(message);
                },
            },
            None => 200,
        };
        let headers = headers_from_json(response);
        let body = body_from_json(response, "body", &headers);
        let matching_rules = match matchers_from_json(
            response,
            &Some("responseMatchingRules".to_owned()),
        ) {
            Ok(rules) => rules,
            Err(e) => {
                return Err(e);
            },
        };
        let generators = match generators_from_json(response) {
            Ok(g) => g,
            Err(e) => {
                return Err(e);
            },
        };
        Ok(Response { status: status_val, headers, body, matching_rules, generators })
    }

    /// Writes the response as a JSON object for a version of the
    /// specification.
    pub fn to_json(&self, spec_version: &PactSpecification) -> (r: Json)
        ensures
            r.deep_view() == JsonModel::Object(response_members(self.deep_view(), *spec_version)),
    {
        let mut members: SortedMap<Json> = SortedMap::new();
        members.insert("status".to_owned(), Json::number(self.status as usize));
        write_part(
            &mut members,
            &self.headers,
            &self.body,
            &self.matching_rules,
            &self.generators,
            spec_version,
        );
        Json::object(members)
    }

    /// The value of the header `header_name`, whatever the case of its
    /// letters.
    pub fn lookup_header_value(&self, header_name: &str) -> (r: Option<String>)
        ensures
            r.deep_view() == header_value(self.deep_view().headers, header_name@),
    {
        lookup_header_value(&self.headers, header_name)
    }

    /// The value of the `Content-Type` header.
    pub fn lookup_content_type(&self) -> (r: Option<String>)
        ensures
            r.deep_view() == header_value(self.deep_view().headers, "content-type"@),
    {
        lookup_header_value(&self.headers, "content-type")
    }

    /// The content type of the response.
    pub fn content_type(&self) -> (r: Option<ContentType>)
        ensures
            r.deep_view() == resolved_type(self.deep_view().body, self.deep_view().headers),
    {
        content_type(&self.body, &self.headers)
    }

    /// Describes all the differences of this response from another.
    pub fn differences_from(&self, other: &Response) -> (r: Vec<(DifferenceType, String)>)
        ensures
            r.deep_view() == response_differences(self.deep_view(), other.deep_view()),
    {
        let mut differences: Vec<(DifferenceType, String)> = Vec::new();
        assert(differences.deep_view() =~= Seq::<Difference>::empty());
        note(
            &mut differences,
            self.status != other.status,
            DifferenceType::Status,
            versus_text(
                "Response status ",
                decimal_string(self.status as usize).as_str(),
                " != ",
                decimal_string(other.status as usize).as_str(),
                "",
            ),
        );
        note(
            &mut differences,
            !self.headers.same(&other.headers),
            DifferenceType::Headers,
            versus_text(
                "Response headers ",
                describe_headers(&self.headers).as_str(),
                " != ",
                describe_headers(&other.headers).as_str(),
                "",
            ),
        );
        note(
            &mut differences,
            !self.body.same(&other.body),
            DifferenceType::Body,
            versus_text(
                "Response body '",
                describe_body(&self.body).as_str(),
                "' != '",
                describe_body(&other.body).as_str(),
                "'",
            ),
        );
        note(
            &mut differences,
            !self.matching_rules.same(&other.matching_rules),
            DifferenceType::MatchingRules,
            versus_text(
                "Response matching rules ",
                describe_rules(&self.matching_rules).as_str(),
                " != ",
                describe_rules(&other.matching_rules).as_str(),
                "",
            ),
        );
        differences
    }
}

/// How a request is described in words.
pub open spec fn described_request(r: RequestModel) -> Seq<char> {
    "Request ( method: "@ + r.method + ", path: "@ + r.path + ", query: "@ + described_query(
        r.query,
    ) + ", headers: "@ + described_headers(r.headers) + ", body: "@ + described_body(r.body)
        + " )"@
}

/// How a response is described in words.
pub open spec fn described_response(r: ResponseModel) -> Seq<char> {
    "Response ( status: "@ + decimal(r.status as nat) + ", headers: "@ + described_headers(
        r.headers,
    ) + ", body: "@ + described_body(r.body) + " )"@
}

impl Request {
    /// Describes the request in words.
    pub fn to_text(&self) -> (r: String)
        ensures
            r@ == described_request(self.deep_view()),
    {
        let mut r = "Request ( method: ".to_owned();
        r.append(self.method.as_str());
        r.append(", path: ");
        r.append(self.path.as_str());
        r.append(", query: ");
        r.append(describe_query(&self.query).as_str());
        r.append(", headers: ");
        r.append(describe_headers(&self.headers).as_str());
        r.append(", body: ");
        r.append(describe_body(&self.body).as_str());
        r.append(" )");
        r
    }

    /// Gives the header `key` the values `val`, in place of those that it
    /// had.
    pub fn add_header(&mut self, key: &str, val: Vec<&str>)
        ensures
            final(self).deep_view() == (RequestModel {
                headers: crate::headers::with_header(
                    old(self).deep_view().headers,
                    key@,
                    val.deep_view(),
                ),
                ..old(self).deep_view()
            }),
    {
        crate::headers::add_header(&mut self.headers, key, val);
    }
}

impl Response {
    /// Describes the response in words.
    pub fn to_text(&self) -> (r: String)
        ensures
            r@ == described_response(self.deep_view()),
    {
        let mut r = "Response ( status: ".to_owned();
        r.append(decimal_string(self.status as usize).as_str());
        r.append(", headers: ");
        r.append(describe_headers(&self.headers).as_str());
        r.append(", body: ");
        r.append(describe_body(&self.body).as_str());
        r.append(" )");
        r
    }

    /// Gives the header `key` the values `val`, in place of those that it
    /// had.
    pub fn add_header(&mut self, key: &str, val: Vec<&str>)
        ensures
            final(self).deep_view() == (ResponseModel {
                headers: crate::headers::with_header(
                    old(self).deep_view().headers,
                    key@,
                    val.deep_view(),
                ),
                ..old(self).deep_view()
            }),
    {
        crate::headers::add_header(&mut self.headers, key, val);
    }
}

} // verus!
