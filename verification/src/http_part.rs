//! What a request and a response have in common: headers, a body,
//! matching rules and generators.

use vstd::prelude::*;
use crate::bodies::{BodyModel, OptionalBody};
use crate::collections::{Entries, SortedMap};
use crate::content_types::ContentType;
use crate::embedded::{build_generators, built_generators};
use crate::generators::{Generator, Generators, GeneratorsModel};
use crate::headers::{
    content_type, detect_content_type, has_text_body, header_value, lookup_header_value,
    resolved_type, sniffed_type, text_body, Headers,
};
use crate::matchingrules::{CategoryModel, MatchingRules};
use crate::models::{Request, Response};
use crate::query::MultiMap;
use crate::v4_parts::{HttpRequest, HttpResponse};

verus! {

/// A part of an exchange over HTTP: a request or a response.
pub trait HttpPart {
    /// The headers of the part.
    spec fn headers_model(&self) -> Headers;

    /// The body of the part.
    spec fn body_model(&self) -> BodyModel;

    /// The matching rules of the part.
    spec fn rules_model(&self) -> Entries<CategoryModel>;

    /// The generators of the part.
    spec fn generators_model(&self) -> GeneratorsModel;

    /// The headers of the part.
    fn headers(&self) -> (r: &Option<MultiMap>)
        ensures
            r.deep_view() == self.headers_model(),
    ;

    /// The body of the part.
    fn body(&self) -> (r: &OptionalBody)
        ensures
            r.deep_view() == self.body_model(),
    ;

    /// The matching rules of the part.
    fn matching_rules(&self) -> (r: &MatchingRules)
        ensures
            r.deep_view() == self.rules_model(),
    ;

    /// The generators of the part.
    fn generators(&self) -> (r: &Generators)
        ensures
            r.deep_view() == self.generators_model(),
    ;
}

impl HttpPart for Request {
    open spec fn headers_model(&self) -> Headers {
        self.deep_view().headers
    }

    open spec fn body_model(&self) -> BodyModel {
        self.deep_view().body
    }

    open spec fn rules_model(&self) -> Entries<CategoryModel> {
        self.deep_view().matching_rules
    }

    open spec fn generators_model(&self) -> GeneratorsModel {
        self.deep_view().generators
    }

    fn headers(&self) -> (r: &Option<MultiMap>) {
        &self.headers
    }

    fn body(&self) -> (r: &OptionalBody) {
        &self.body
    }

    fn matching_rules(&self) -> (r: &MatchingRules) {
        &self.matching_rules
    }

    fn generators(&self) -> (r: &Generators) {
        &self.generators
    }
}

impl HttpPart for Response {
    open spec fn headers_model(&self) -> Headers {
        self.deep_view().headers
    }

    open spec fn body_model(&self) -> BodyModel {
        self.deep_view().body
    }

    open spec fn rules_model(&self) -> Entries<CategoryModel> {
        self.deep_view().matching_rules
    }

    open spec fn generators_model(&self) -> GeneratorsModel {
        self.deep_view().generators
    }

    fn headers(&self) -> (r: &Option<MultiMap>) {
        &self.headers
    }

    fn body(&self) -> (r: &OptionalBody) {
        &self.body
    }

    fn matching_rules(&self) -> (r: &MatchingRules) {
        &self.matching_rules
    }

    fn generators(&self) -> (r: &Generators) {
        &self.generators
    }
}

impl HttpPart for HttpRequest {
    open spec fn headers_model(&self) -> Headers {
        self.deep_view().headers
    }

    open spec fn body_model(&self) -> BodyModel {
        self.deep_view().body
    }

    open spec fn rules_model(&self) -> Entries<CategoryModel> {
        self.deep_view().matching_rules
    }

    open spec fn generators_model(&self) -> GeneratorsModel {
        self.deep_view().generators
    }

    fn headers(&self) -> (r: &Option<MultiMap>) {
        &self.headers
    }

    fn body(&self) -> (r: &OptionalBody) {
        &self.body
    }

    fn matching_rules(&self) -> (r: &MatchingRules) {
        &self.matching_rules
    }

    fn generators(&self) -> (r: &Generators) {
        &self.generators
    }
}

impl HttpPart for HttpResponse {
    open spec fn headers_model(&self) -> Headers {
        self.deep_view().headers
    }

    open spec fn body_model(&self) -> BodyModel {
        self.deep_view().body
    }

    open spec fn rules_model(&self) -> Entries<CategoryModel> {
        self.deep_view().matching_rules
    }

    open spec fn generators_model(&self) -> GeneratorsModel {
        self.deep_view().generators
    }

    fn headers(&self) -> (r: &Option<MultiMap>) {
        &self.headers
    }

    fn body(&self) -> (r: &OptionalBody) {
        &self.body
    }

    fn matching_rules(&self) -> (r: &MatchingRules) {
        &self.matching_rules
    }

    fn generators(&self) -> (r: &Generators) {
        &self.generators
    }
}

/// The value of the header `header_name` of a part, whatever the case of
/// its letters.
pub fn part_header_value<P: HttpPart>(part: &P, header_name: &str) -> (r: Option<String>)
    ensures
        r.deep_view() == header_value(part.headers_model(), header_name@),
{
    lookup_header_value(part.headers(), header_name)
}

/// Whether a part has the header `header_name`, whatever the case of its
/// letters.
pub fn part_has_header<P: HttpPart>(part: &P, header_name: &str) -> (b: bool)
    ensures
        b == (header_value(part.headers_model(), header_name@) is Some),
{
    part_header_value(part, header_name).is_some()
}

/// The content type that the first bytes of the body of a part show.
pub fn part_detect_content_type<P: HttpPart>(part: &P) -> (r: Option<ContentType>)
    ensures
        r.deep_view() == sniffed_type(part.body_model()),
{
    detect_content_type(part.body())
}

/// The content type of a part: the one that its body records; else the one
/// that its `Content-Type` header gives; else the one that the first bytes of
/// its body show.
pub fn part_content_type<P: HttpPart>(part: &P) -> (r: Option<ContentType>)
    ensures
        r.deep_view() == resolved_type(part.body_model(), part.headers_model()),
{
    content_type(part.body(), part.headers())
}

/// Whether the body of a part is a text of ASCII characters.
pub fn part_has_text_body<P: HttpPart>(part: &P) -> (b: bool)
    ensures
        b == text_body(part.body_model()),
{
    has_text_body(part.body())
}

/// The generators of the category `category` of a part: those that the part
/// names for it, and those that its matching rules for it hold, for the
/// paths that the part names none for.
pub fn part_build_generators<P: HttpPart>(part: &P, category: &str) -> (r: SortedMap<Generator>)
    ensures
        r.deep_view() == built_generators(
            part.generators_model(),
            part.rules_model(),
            category@,
        ),
{
    build_generators(part.generators(), part.matching_rules(), category)
}

} // verus!
