//! JSON values as this library holds them, and the calls into `serde_json`
//! that read and write JSON text.

use vstd::prelude::*;
use crate::collections::{lookup, Duplicate, Entries, Same, SortedMap};

verus! {

/// A JSON value. A number is held as its JSON text, an object as its
/// members in the order of their names.
#[derive(Debug, PartialEq, Eq, Hash)]
pub enum Json {
    Null,
    Bool(bool),
    Number(String),
    String(String),
    Array(Vec<Json>),
    Object(SortedMap<Json>),
}

/// The mathematical value of a `Json`.
pub enum JsonModel {
    Null,
    Bool(bool),
    Number(Seq<char>),
    String(Seq<char>),
    Array(Seq<JsonModel>),
    Object(Entries<JsonModel>),
}

/// The mathematical value of a JSON value.
pub open spec fn json_model(j: Json) -> JsonModel
    decreases j,
{
    match j {
        Json::Null => JsonModel::Null,
        Json::Bool(b) => JsonModel::Bool(b),
        Json::Number(n) => JsonModel::Number(n@),
        Json::String(s) => JsonModel::String(s@),
        Json::Array(items) => JsonModel::Array(
            Seq::new(
                items@.len(),
                |i: int|
                    if 0 <= i < items@.len() {
                        json_model(items@[i])
                    } else {
                        JsonModel::Null
                    },
            ),
        ),
        Json::Object(members) => JsonModel::Object(
            Seq::new(
                members.entries@.len(),
                |i: int|
                    if 0 <= i < members.entries@.len() {
                        (members.entries@[i].0@, json_model(members.entries@[i].1))
                    } else {
                        (Seq::empty(), JsonModel::Null)
                    },
            ),
        ),
    }
}

impl DeepView for Json {
    type V = JsonModel;

    open spec fn deep_view(&self) -> JsonModel {
        json_model(*self)
    }
}

/// The value of an array is made of the values of its items, and the value
/// of an object of the values of its members.
pub proof fn lemma_json_model(j: Json)
    ensures
        j matches Json::Array(items) ==> j.deep_view() == JsonModel::Array(items.deep_view()),
        j matches Json::Object(members) ==> j.deep_view() == JsonModel::Object(
            members.deep_view(),
        ),
{
    match j {
        Json::Array(items) => {
            assert(j.deep_view()->Array_0 =~= items.deep_view());
        },
        Json::Object(members) => {
            assert forall|i: int| 0 <= i < members.entries@.len() implies (
                #[trigger] members.deep_view()[i]) == (
                members.entries@[i].0@,
                members.entries@[i].1.deep_view(),
            ) by {}
            assert(j.deep_view()->Object_0 =~= members.deep_view());
        },
        _ => {},
    }
}

/// The member `k` of an object; other values have no members.
pub open spec fn member(j: JsonModel, k: Seq<char>) -> Option<JsonModel> {
    match j {
        JsonModel::Object(members) => lookup(members, k),
        _ => None,
    }
}

/// The text that `serde_json` writes for a value, in its compact form.
pub uninterp spec fn compact_text(j: JsonModel) -> Seq<char>;

/// The value that `serde_json::from_str` reads from a text, where the text
/// is JSON.
pub uninterp spec fn parsed_text(s: Seq<char>) -> Option<JsonModel>;

/// The value that `serde_json::from_slice` reads from bytes, where the bytes
/// are JSON.
pub uninterp spec fn parsed_bytes(b: Seq<u8>) -> Option<JsonModel>;

/// The text of a value where it is a string, else the text that is written
/// for it.
pub open spec fn plain_text(j: JsonModel) -> Seq<char> {
    match j {
        JsonModel::String(s) => s,
        _ => compact_text(j),
    }
}

#[verifier::external_type_specification]
#[verifier::external_body]
pub struct ExValue(serde_json::Value);

/// Builds the `serde_json::Value` that stands for `j`, variant by variant.
/// Nothing is stated of the result, which verified code does not read.
#[verifier::external_body]
pub(crate) fn value_of(j: &Json) -> serde_json::Value {
    match j {
        Json::Null => serde_json::Value::Null,
        Json::Bool(b) => serde_json::Value::Bool(*b),
        Json::Number(n) => serde_json::from_str(n).unwrap_or(serde_json::Value::Null),
        Json::String(s) => serde_json::Value::String(s.clone()),
        Json::Array(a) => serde_json::Value::Array(a.iter().map(value_of).collect()),
        Json::Object(o) => serde_json::Value::Object(
            o.entries.iter().map(|(k, v)| (k.clone(), value_of(v))).collect(),
        ),
    }
}

/// Builds the `Json` that stands for a `serde_json::Value`, variant by
/// variant. Nothing is stated of the result.
#[verifier::external_body]
pub(crate) fn json_of(v: &serde_json::Value) -> Json {
    match v {
        serde_json::Value::Null => Json::Null,
        serde_json::Value::Bool(b) => Json::Bool(*b),
        serde_json::Value::Number(n) => Json::Number(n.to_string()),
        serde_json::Value::String(s) => Json::String(s.clone()),
        serde_json::Value::Array(a) => Json::Array(a.iter().map(json_of).collect()),
        serde_json::Value::Object(o) => Json::Object(
            SortedMap { entries: o.iter().map(|(k, v)| (k.clone(), json_of(v))).collect() },
        ),
    }
}

/// Calls `to_string` on the `serde_json::Value` that stands for `j`: the
/// compact JSON text of the value, which this library refers to as
/// `compact_text`.
#[verifier::external_body]
pub(crate) fn json_text(j: &Json) -> (r: String)
    ensures
        r@ == compact_text(j.deep_view()),
{
    value_of(j).to_string()
}

/// Calls `serde_json::from_str`: the value that the text holds, or nothing
/// where the text is not JSON, which this library refers to as `parsed_text`.
#[verifier::external_body]
pub(crate) fn json_from_text(s: &str) -> (r: Option<Json>)
    ensures
        r.deep_view() == parsed_text(s@),
{
    serde_json::from_str::<serde_json::Value>(s).ok().map(|v| json_of(&v))
}

/// Calls `serde_json::from_slice`: the value that the bytes hold, or nothing
/// where the bytes are not JSON, which this library refers to as
/// `parsed_bytes`.
#[verifier::external_body]
pub(crate) fn json_from_bytes(b: &[u8]) -> (r: Option<Json>)
    ensures
        r.deep_view() == parsed_bytes(b@),
{
    serde_json::from_slice::<serde_json::Value>(b).ok().map(|v| json_of(&v))
}

impl Json {
    /// The member `key` of an object; other values have no members.
    pub fn get(&self, key: &str) -> (r: Option<&Json>)
        ensures
            r.deep_view() == member(self.deep_view(), key@),
    {
        proof {
            lemma_json_model(*self);
        }
        match self {
            Json::Object(members) => members.get(key),
            _ => None,
        }
    }

    /// A string value with the text `s`.
    pub fn string(s: &str) -> (r: Json)
        ensures
            r.deep_view() == JsonModel::String(s@),
    {
        Json::String(s.to_owned())
    }

    /// The JSON text of the value, in compact form.
    pub fn to_text(&self) -> (r: String)
        ensures
            r@ == compact_text(self.deep_view()),
    {
        json_text(self)
    }

    /// The text of a string value; for other values their JSON text.
    pub fn to_plain_text(&self) -> (r: String)
        ensures
            r@ == plain_text(self.deep_view()),
    {
        match self {
            Json::String(s) => s.clone(),
            _ => json_text(self),
        }
    }

    /// Reads the value that a JSON text holds.
    pub fn parse(s: &str) -> (r: Option<Json>)
        ensures
            r.deep_view() == parsed_text(s@),
    {
        json_from_text(s)
    }
}

impl Duplicate for Json {
    fn duplicate(&self) -> (r: Json)
        decreases self,
    {
        proof {
            lemma_json_model(*self);
        }
        let r = match self {
            Json::Null => Json::Null,
            Json::Bool(b) => Json::Bool(*b),
            Json::Number(n) => Json::Number(n.clone()),
            Json::String(s) => Json::String(s.clone()),
            Json::Array(items) => {
                let mut copy: Vec<Json> = Vec::new();
                let mut i: usize = 0;
                while i < items.len()
                    invariant
                        i <= items.len(),
                        self is Array,
                        self->Array_0 == items,
                        copy.deep_view() == items.deep_view().take(i as int),
                    decreases items.len() - i,
                {
                    proof {
                        assert(decreases_to!(self => items));
                        assert(decreases_to!(items => items@));
                        assert(decreases_to!(items@ => items@[i as int]));
                        assert(decreases_to!(self => items@[i as int]));
                    }
                    let item = items[i].duplicate();
                    proof {
                        assert(items.deep_view().take(i + 1) =~= items.deep_view().take(
                            i as int,
                        ).push(items@[i as int].deep_view()));
                    }
                    let ghost before = copy.deep_view();
                    copy.push(item);
                    assert(copy.deep_view() =~= before.push(item.deep_view()));
                    i += 1;
                }
                assert(items.deep_view().take(items.len() as int) == items.deep_view());
                Json::Array(copy)
            },
            Json::Object(members) => {
                let mut entries: Vec<(String, Json)> = Vec::new();
                let mut i: usize = 0;
                while i < members.entries.len()
                    invariant
                        i <= members.entries.len(),
                        self is Object,
                        self->Object_0 == members,
                        entries.deep_view() == members.entries.deep_view().take(i as int),
                    decreases members.entries.len() - i,
                {
                    let key = members.entries[i].0.clone();
                    proof {
                        let entries = members.entries;
                        assert(decreases_to!(self => members));
                        assert(decreases_to!(members => entries));
                        assert(decreases_to!(entries => entries@));
                        assert(decreases_to!(entries@ => entries@[i as int]));
                        assert(decreases_to!(entries@[i as int] => entries@[i as int].1));
                        assert(decreases_to!(self => entries@[i as int].1));
                    }
                    let value = members.entries[i].1.duplicate();
                    proof {
                        assert(members.entries.deep_view().take(i + 1)
                            =~= members.entries.deep_view().take(i as int).push(
                            (key@, value.deep_view()),
                        ));
                    }
                    let ghost before = entries.deep_view();
                    entries.push((key, value));
                    assert(entries.deep_view() =~= before.push((key@, value.deep_view())));
                    i += 1;
                }
                assert(members.entries.deep_view().take(members.entries.len() as int)
                    == members.entries.deep_view());
                Json::Object(SortedMap { entries })
            },
        };
        proof {
            lemma_json_model(r);
        }
        r
    }
}

} // verus!

verus! {

/// The text of the member `k` of an object, where that member is a string.
pub open spec fn text_member(j: JsonModel, k: Seq<char>) -> Option<Seq<char>> {
    match member(j, k) {
        Some(JsonModel::String(s)) => Some(s),
        _ => None,
    }
}

/// The number that a JSON number writes, where it is written as decimal
/// digits alone and is at most `limit`.
pub open spec fn count_of(j: JsonModel, limit: nat) -> Option<nat> {
    match j {
        JsonModel::Number(text) => crate::text::digits_number(text, limit),
        _ => None,
    }
}

/// The JSON number that writes `n`.
pub open spec fn number_model(n: nat) -> JsonModel {
    JsonModel::Number(crate::text::decimal(n))
}

impl Json {
    /// The text of the member `key` of an object, where that member is a
    /// string.
    pub fn get_text(&self, key: &str) -> (r: Option<&String>)
        ensures
            r.deep_view() == text_member(self.deep_view(), key@),
    {
        match self.get(key) {
            Some(Json::String(s)) => Some(s),
            _ => None,
        }
    }

    /// The number that this value writes, where it is a JSON number written
    /// as decimal digits alone that fits a machine word.
    pub fn as_usize(&self) -> (r: Option<usize>)
        ensures
            match r {
                Some(n) => count_of(self.deep_view(), usize::MAX as nat) == Some(n as nat),
                None => count_of(self.deep_view(), usize::MAX as nat) is None,
            },
    {
        match self {
            Json::Number(text) => {
                let chars = crate::text::chars_of(text.as_str());
                assert(chars@.subrange(0, chars.len() as int) == chars@);
                match crate::text::parse_digits(&chars, 0, chars.len(), usize::MAX as u64) {
                    Some(n) => Some(n as usize),
                    None => None,
                }
            },
            _ => None,
        }
    }

    /// The number that this value writes, where it is a JSON number written
    /// as decimal digits alone that fits 64 bits.
    pub fn as_u64(&self) -> (r: Option<u64>)
        ensures
            match r {
                Some(n) => count_of(self.deep_view(), u64::MAX as nat) == Some(n as nat),
                None => count_of(self.deep_view(), u64::MAX as nat) is None,
            },
    {
        match self {
            Json::Number(text) => crate::text::parse_digits_u64(text.as_str()),
            _ => None,
        }
    }

    /// The JSON number that writes `n`.
    pub fn number(n: usize) -> (r: Json)
        ensures
            r.deep_view() == number_model(n as nat),
    {
        Json::Number(crate::text::decimal_string(n))
    }

    /// An object with the given members.
    pub fn object(members: SortedMap<Json>) -> (r: Json)
        ensures
            r.deep_view() == JsonModel::Object(members.deep_view()),
    {
        let r = Json::Object(members);
        proof {
            lemma_json_model(r);
        }
        r
    }

    /// An array with the given items.
    pub fn array(items: Vec<Json>) -> (r: Json)
        ensures
            r.deep_view() == JsonModel::Array(items.deep_view()),
    {
        let r = Json::Array(items);
        proof {
            lemma_json_model(r);
        }
        r
    }
}

impl Same for Json {
    fn same(&self, other: &Json) -> (b: bool)
        decreases self,
    {
        proof {
            lemma_json_model(*self);
            lemma_json_model(*other);
        }
        match (self, other) {
            (Json::Null, Json::Null) => true,
            (Json::Bool(a), Json::Bool(b)) => *a == *b,
            (Json::Number(a), Json::Number(b)) => *a == *b,
            (Json::String(a), Json::String(b)) => *a == *b,
            (Json::Array(a), Json::Array(b)) => {
                if a.len() != b.len() {
                    assert(a.deep_view().len() != b.deep_view().len());
                    return false;
                }
                let mut i: usize = 0;
                while i < a.len()
                    invariant
                        i <= a.len(),
                        a.len() == b.len(),
                        self is Array,
                        self->Array_0 == a,
                        self.deep_view() == JsonModel::Array(a.deep_view()),
                        other.deep_view() == JsonModel::Array(b.deep_view()),
                        forall|k: int| 0 <= k < i ==> a.deep_view()[k] == b.deep_view()[k],
                    decreases a.len() - i,
                {
                    proof {
                        assert(decreases_to!(self => a));
                        assert(decreases_to!(a => a@));
                        assert(decreases_to!(a@ => a@[i as int]));
                    }
                    if !a[i].same(&b[i]) {
                        assert(a.deep_view()[i as int] != b.deep_view()[i as int]);
                        return false;
                    }
                    i += 1;
                }
                assert(a.deep_view() =~= b.deep_view());
                true
            },
            (Json::Object(a), Json::Object(b)) => {
                if a.entries.len() != b.entries.len() {
                    assert(a.deep_view().len() != b.deep_view().len());
                    return false;
                }
                let mut i: usize = 0;
                while i < a.entries.len()
                    invariant
                        i <= a.entries.len(),
                        a.entries.len() == b.entries.len(),
                        self is Object,
                        self->Object_0 == a,
                        self.deep_view() == JsonModel::Object(a.deep_view()),
                        other.deep_view() == JsonModel::Object(b.deep_view()),
                        forall|k: int| 0 <= k < i ==> a.deep_view()[k] == b.deep_view()[k],
                    decreases a.entries.len() - i,
                {
                    proof {
                        let entries = a.entries;
                        assert(decreases_to!(self => a));
                        assert(decreases_to!(a => entries));
                        assert(decreases_to!(entries => entries@));
                        assert(decreases_to!(entries@ => entries@[i as int]));
                        assert(decreases_to!(entries@[i as int] => entries@[i as int].1));
                    }
                    let keys = a.entries[i].0 == b.entries[i].0;
                    if !keys || !a.entries[i].1.same(&b.entries[i].1) {
                        assert(a.deep_view()[i as int] != b.deep_view()[i as int]);
                        return false;
                    }
                    i += 1;
                }
                assert(a.deep_view() =~= b.deep_view());
                true
            },
            _ => false,
        }
    }
}

} // verus!
