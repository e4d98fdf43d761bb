//! The body of a request, a response or a message, and how it is read from
//! and written to JSON.

use vstd::prelude::*;
use crate::collections::{Duplicate, Same};
use crate::content_types::{
    detect_content_type_from_string, detected_type, json_type, text_type, unknown_type,
    ContentType, ContentTypeModel,
};
use crate::json::{json_from_bytes, json_from_text, json_text, compact_text, parsed_bytes, parsed_text, Json, JsonModel};
use crate::query::text_of_utf8;
use crate::text::push_char;

verus! {

/// A body: absent, empty, the JSON value `null`, or bytes, with their
/// content type where it is known.
#[derive(Debug, PartialEq, Eq, Hash)]
pub enum OptionalBody {
    Missing,
    Empty,
    Null,
    Present(Vec<u8>, Option<ContentType>),
}

/// The mathematical value of an `OptionalBody`.
pub enum BodyModel {
    Missing,
    Empty,
    Null,
    Present(Seq<u8>, Option<ContentTypeModel>),
}

impl DeepView for OptionalBody {
    type V = BodyModel;

    open spec fn deep_view(&self) -> BodyModel {
        match self {
            OptionalBody::Missing => BodyModel::Missing,
            OptionalBody::Empty => BodyModel::Empty,
            OptionalBody::Null => BodyModel::Null,
            OptionalBody::Present(bytes, content_type) => BodyModel::Present(
                bytes@,
                content_type.deep_view(),
            ),
        }
    }
}

/// A copy of the bytes.
pub fn copy_bytes(bytes: &Vec<u8>) -> (r: Vec<u8>)
    ensures
        r@ == bytes@,
{
    let mut r: Vec<u8> = Vec::new();
    let mut i: usize = 0;
    while i < bytes.len()
        invariant
            i <= bytes.len(),
            r@ == bytes@.take(i as int),
        decreases bytes.len() - i,
    {
        r.push(bytes[i]);
        assert(bytes@.take(i + 1) == bytes@.take(i as int).push(bytes@[i as int]));
        i += 1;
    }
    assert(bytes@.take(bytes.len() as int) == bytes@);
    r
}

impl Duplicate for OptionalBody {
    fn duplicate(&self) -> (r: OptionalBody) {
        match self {
            OptionalBody::Missing => OptionalBody::Missing,
            OptionalBody::Empty => OptionalBody::Empty,
            OptionalBody::Null => OptionalBody::Null,
            OptionalBody::Present(bytes, content_type) => OptionalBody::Present(
                copy_bytes(bytes),
                content_type.duplicate(),
            ),
        }
    }
}

impl OptionalBody {
    /// Whether the body holds bytes.
    pub fn is_present(&self) -> (b: bool)
        ensures
            b == (self.deep_view() is Present),
    {
        match self {
            OptionalBody::Present(_, _) => true,
            _ => false,
        }
    }

    /// A copy of the bytes of the body, if it holds any.
    pub fn value(&self) -> (r: Option<Vec<u8>>)
        ensures
            match r {
                Some(bytes) => self.deep_view() is Present && bytes@ == self.deep_view()->Present_0,
                None => !(self.deep_view() is Present),
            },
    {
        match self {
            OptionalBody::Present(bytes, _) => Some(copy_bytes(bytes)),
            _ => None,
        }
    }

    /// Whether the content type of the body is known.
    pub fn has_content_type(&self) -> (b: bool)
        ensures
            b == (self.deep_view() matches BodyModel::Present(_, Some(_))),
    {
        match self {
            OptionalBody::Present(_, Some(_)) => true,
            _ => false,
        }
    }

    /// The content type of the body, where it is known.
    pub fn content_type(&self) -> (r: Option<ContentType>)
        ensures
            r.deep_view() == body_type(self.deep_view()),
    {
        match self {
            OptionalBody::Present(_, Some(content_type)) => Some(content_type.duplicate()),
            _ => None,
        }
    }

    /// Reads the field `fieldname` of `json` as a body, where `declared` is
    /// the content type that the headers give, if they give one.
    pub fn from_json(json: &Json, fieldname: &str, declared: Option<ContentType>) -> (r:
        OptionalBody)
        ensures
            r.deep_view() == body_of_json(
                crate::json::member(json.deep_view(), fieldname@),
                declared.deep_view(),
            ),
            r.deep_view() is Missing <==> crate::json::member(json.deep_view(), fieldname@) is None,
            r.deep_view() is Null <==> crate::json::member(json.deep_view(), fieldname@)
                == Some(JsonModel::Null),
            r.deep_view() is Empty <==> crate::json::member(json.deep_view(), fieldname@) == Some(
                JsonModel::String(Seq::empty()),
            ),
            r.deep_view() is Present <==> (crate::json::member(json.deep_view(), fieldname@) matches Some(
                v,
            ) && v != JsonModel::Null && v != JsonModel::String(Seq::empty())),
    {
        match json.get(fieldname) {
            Some(v) => match v {
                Json::String(s) => {
                    if s.as_str().unicode_len() == 0 {
                        assert(s@ =~= Seq::<char>::empty());
                        OptionalBody::Empty
                    } else {
                        let content_type = match declared {
                            Some(c) => c,
                            None => match detect_content_type_from_string(s.as_str()) {
                                Some(c) => c,
                                None => ContentType::unknown(),
                            },
                        };
                        if content_type.is_json() {
                            let parsed = json_from_text(s.as_str());
                            json_text_body(s.as_str(), content_type, &parsed)
                        } else if content_type.is_text() {
                            OptionalBody::Present(s.as_str().as_bytes_vec(), Some(content_type))
                        } else {
                            let decoded = base64_decode(s.as_str());
                            binary_text_body(s.as_str(), decoded)
                        }
                    }
                },
                Json::Null => OptionalBody::Null,
                _ => {
                    let text = json_text(v);
                    OptionalBody::Present(text.as_str().as_bytes_vec(), None)
                },
            },
            None => OptionalBody::Missing,
        }
    }

    /// The JSON value by which the body is written, where `content_type` is
    /// the content type of the part that holds the body. A body that is
    /// missing is not written.
    pub fn to_json(&self, content_type: &ContentType) -> (r: Option<Json>)
        ensures
            r.deep_view() == body_json(self.deep_view(), content_type.deep_view()),
    {
        match self {
            OptionalBody::Present(bytes, _) => {
                if content_type.is_json() {
                    let parsed = json_from_bytes(bytes.as_slice());
                    match parsed {
                        Some(json_body) => Some(json_body),
                        None => Some(Json::String(base64_encode(bytes))),
                    }
                } else {
                    match text_of_utf8(bytes) {
                        Ok(s) => Some(Json::String(s)),
                        Err(_) => Some(Json::String(base64_encode(bytes))),
                    }
                }
            },
            OptionalBody::Empty => Some(Json::String(String::new())),
            OptionalBody::Missing => None,
            OptionalBody::Null => Some(Json::Null),
        }
    }
}

/// The content type that a body records, if it records one.
pub open spec fn body_type(body: BodyModel) -> Option<ContentTypeModel> {
    match body {
        BodyModel::Present(_, Some(c)) => Some(c),
        _ => None,
    }
}

/// The text that the `base64` crate writes for bytes, in the standard
/// alphabet with padding.
pub uninterp spec fn base64_encoded(bytes: Seq<u8>) -> Seq<char>;

/// The bytes that the `base64` crate reads from a text in the standard
/// alphabet with padding, where the text is such an encoding.
pub uninterp spec fn base64_decoded(s: Seq<char>) -> Option<Seq<u8>>;

/// Calls `base64::encode`: the standard base64 text of the bytes, which this
/// library refers to as `base64_encoded`.
#[verifier::external_body]
pub(crate) fn base64_encode(bytes: &Vec<u8>) -> (r: String)
    ensures
        r@ == base64_encoded(bytes@),
{
    base64::encode(bytes)
}

/// Calls `base64::decode`: the bytes that a standard base64 text stands
/// for, or nothing where the text is no such encoding, which this library
/// refers to as `base64_decoded`.
#[verifier::external_body]
pub(crate) fn base64_decode(s: &str) -> (r: Option<Vec<u8>>)
    ensures
        match r {
            Some(bytes) => base64_decoded(s@) == Some(bytes@),
            None => base64_decoded(s@) is None,
        },
{
    base64::decode(s).ok()
}

/// The text `s` between double quotes.
pub open spec fn quoted(s: Seq<char>) -> Seq<char> {
    seq!['"'] + s + seq!['"']
}

/// The body that a text with a JSON content type stands for, where `parsed`
/// is what the text holds as JSON: the text itself where it is a JSON string
/// or object, else the text between double quotes.
pub open spec fn json_text_body_spec(
    s: Seq<char>,
    content_type: ContentTypeModel,
    parsed: Option<JsonModel>,
) -> BodyModel {
    if parsed matches Some(j) && (j is String || j is Object) {
        BodyModel::Present(vstd::utf8::encode_utf8(s), Some(content_type))
    } else {
        BodyModel::Present(vstd::utf8::encode_utf8(quoted(s)), Some(content_type))
    }
}

/// Makes the body that a text with a JSON content type stands for, where
/// `parsed` is what the text holds as JSON.
pub fn json_text_body(s: &str, content_type: ContentType, parsed: &Option<Json>) -> (r:
    OptionalBody)
    ensures
        r.deep_view() == json_text_body_spec(s@, content_type.deep_view(), parsed.deep_view()),
{
    let as_it_is = match parsed {
        Some(Json::String(_)) => true,
        Some(Json::Object(_)) => true,
        _ => false,
    };
    if as_it_is {
        OptionalBody::Present(s.as_bytes_vec(), Some(content_type))
    } else {
        let mut text = String::new();
        push_char(&mut text, '"');
        text.append(s);
        push_char(&mut text, '"');
        assert(text@ =~= quoted(s@));
        OptionalBody::Present(text.as_str().as_bytes_vec(), Some(content_type))
    }
}

/// The body that a text without a text content type stands for, where
/// `decoded` is what the text holds as base64: those bytes, or the text
/// itself where it holds none.
pub open spec fn binary_text_body_spec(s: Seq<char>, decoded: Option<Seq<u8>>) -> BodyModel {
    match decoded {
        Some(bytes) => BodyModel::Present(bytes, None),
        None => BodyModel::Present(vstd::utf8::encode_utf8(s), None),
    }
}

/// Makes the body that a text without a text content type stands for, where
/// `decoded` is what the text holds as base64.
pub fn binary_text_body(s: &str, decoded: Option<Vec<u8>>) -> (r: OptionalBody)
    ensures
        r.deep_view() == binary_text_body_spec(
            s@,
            match decoded {
                Some(bytes) => Some(bytes@),
                None => None,
            },
        ),
{
    match decoded {
        Some(bytes) => OptionalBody::Present(bytes, None),
        None => OptionalBody::Present(s.as_bytes_vec(), None),
    }
}

/// The body that a non-empty text stands for. Its content type is the
/// declared one, else the one that its first bytes show, else unknown. With
/// a JSON content type the body is the text, in quotes unless it is itself a
/// JSON string or object; with another text content type it is the text;
/// otherwise it is the bytes that the text encodes in base64, or the text
/// where it encodes none.
pub open spec fn body_of_text(s: Seq<char>, declared: Option<ContentTypeModel>) -> BodyModel {
    let content_type = match declared {
        Some(c) => c,
        None => match detected_type(vstd::utf8::encode_utf8(s)) {
            Some(c) => c,
            None => unknown_type(),
        },
    };
    if json_type(content_type) {
        json_text_body_spec(s, content_type, parsed_text(s))
    } else if text_type(content_type) {
        BodyModel::Present(vstd::utf8::encode_utf8(s), Some(content_type))
    } else {
        binary_text_body_spec(s, base64_decoded(s))
    }
}

/// The body that a field of a JSON object stands for: missing where there
/// is no such field, null for `null`, empty for the empty string, the body
/// of the text for another string, and for any other value its JSON text.
pub open spec fn body_of_json(field: Option<JsonModel>, declared: Option<ContentTypeModel>) -> BodyModel {
    match field {
        None => BodyModel::Missing,
        Some(JsonModel::Null) => BodyModel::Null,
        Some(JsonModel::String(s)) => if s.len() == 0 {
            BodyModel::Empty
        } else {
            body_of_text(s, declared)
        },
        Some(other) => BodyModel::Present(vstd::utf8::encode_utf8(compact_text(other)), None),
    }
}

/// The JSON value by which a body is written, where `content_type` is the
/// content type of the part that holds it. Bytes with a JSON content type
/// are written as the JSON value that they hold; other bytes as a string
/// where they are UTF-8; and bytes that are neither in base64. An empty body
/// is the empty string, a null body `null`, and a missing body is not
/// written.
pub open spec fn body_json(body: BodyModel, content_type: ContentTypeModel) -> Option<JsonModel> {
    match body {
        BodyModel::Present(bytes, _) => if json_type(content_type) {
            match parsed_bytes(bytes) {
                Some(j) => Some(j),
                None => Some(JsonModel::String(base64_encoded(bytes))),
            }
        } else if vstd::utf8::valid_utf8(bytes) {
            Some(JsonModel::String(vstd::utf8::decode_utf8(bytes)))
        } else {
            Some(JsonModel::String(base64_encoded(bytes)))
        },
        BodyModel::Empty => Some(JsonModel::String(Seq::empty())),
        BodyModel::Missing => None,
        BodyModel::Null => Some(JsonModel::Null),
    }
}

impl Same for OptionalBody {
    fn same(&self, other: &OptionalBody) -> (b: bool) {
        match (self, other) {
            (OptionalBody::Missing, OptionalBody::Missing) => true,
            (OptionalBody::Empty, OptionalBody::Empty) => true,
            (OptionalBody::Null, OptionalBody::Null) => true,
            (OptionalBody::Present(a, s), OptionalBody::Present(b, t)) => {
                proof {
                    assert(a.deep_view() =~= a@);
                    assert(b.deep_view() =~= b@);
                }
                a.same(b) && s.same(t)
            },
            _ => false,
        }
    }
}

} // verus!
