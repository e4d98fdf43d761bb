//! Headers: how they are read from and written to JSON, how a header is
//! looked up, and how the content type of a part is found.

use vstd::prelude::*;
use crate::bodies::{body_of_json, body_type, BodyModel, OptionalBody};
use crate::collections::{put, Entries, SortedMap};
use crate::content_types::{
    detect_content_type_from_bytes, detected_type, parsed_content_type, ContentType,
    ContentTypeModel,
};
use crate::json::{compact_text, json_text, lemma_json_model, member, plain_text, Json, JsonModel};
use crate::query::{find_char, join, joined, text_of_utf8, MultiMap};
use crate::text::{ascii_text, chars_of, lowercase, str_eq, string_of_range, to_lowercase};

verus! {

/// What `str::trim` returns for the text `s`: the text without the white
/// space at its start and at its end.
pub uninterp spec fn unicode_trimmed(s: Seq<char>) -> Seq<char>;

/// A character of ASCII that is white space: a tab, a line feed, a
/// vertical tab, a form feed, a carriage return or a space.
pub open spec fn ascii_blank(c: char) -> bool {
    c == ' ' || ('\t' <= c <= '\r')
}

/// The number of characters of white space at the start of the text.
pub open spec fn blanks_before(s: Seq<char>) -> int
    decreases s.len(),
{
    if s.len() > 0 && ascii_blank(s[0]) {
        1 + blanks_before(s.drop_first())
    } else {
        0
    }
}

/// The number of characters of white space at the end of the text.
pub open spec fn blanks_after(s: Seq<char>) -> int
    decreases s.len(),
{
    if s.len() > 0 && ascii_blank(s.last()) {
        1 + blanks_after(s.drop_last())
    } else {
        0
    }
}

/// A text of ASCII without the white space at its start and at its end.
pub open spec fn ascii_trimmed(s: Seq<char>) -> Seq<char> {
    if blanks_before(s) >= s.len() {
        Seq::empty()
    } else {
        s.subrange(blanks_before(s), s.len() - blanks_after(s))
    }
}

/// The text without the white space at its start and at its end: for a
/// text of ASCII without its tabs, line feeds, vertical tabs, form feeds,
/// carriage returns and spaces there, for any other text as `str::trim`
/// gives it.
pub open spec fn trimmed(s: Seq<char>) -> Seq<char> {
    if ascii_text(s) {
        ascii_trimmed(s)
    } else {
        unicode_trimmed(s)
    }
}

/// Calls `str::trim`: the text without leading and trailing white space,
/// which this library refers to as `unicode_trimmed`. Of the characters of
/// ASCII the tab, the line feed, the vertical tab, the form feed, the
/// carriage return and the space are white space and no others, so that a
/// text of ASCII loses those at its start and at its end.
#[verifier::external_body]
pub(crate) fn unicode_trim(s: &str) -> (r: String)
    ensures
        r@ == unicode_trimmed(s@),
        ascii_text(s@) ==> r@ == ascii_trimmed(s@),
{
    s.trim().to_owned()
}

/// The text without the white space at its start and at its end.
pub fn trim(s: &str) -> (r: String)
    ensures
        r@ == trimmed(s@),
{
    unicode_trim(s)
}

/// The headers of a part, if it has any.
pub type Headers = Option<Entries<Seq<Seq<char>>>>;

/// The position of the first header from `from` on whose name is `name` in
/// lower case, or the number of headers where there is none.
pub open spec fn header_position(h: Entries<Seq<Seq<char>>>, name: Seq<char>, from: int) -> int
    decreases h.len() - from,
{
    if from >= h.len() {
        h.len() as int
    } else if lowercase(h[from].0) == name {
        from
    } else {
        header_position(h, name, from + 1)
    }
}

/// The value of the first header whose name is `name`, whatever the case of
/// the letters in either: its values with `, ` between them.
pub open spec fn header_value(headers: Headers, name: Seq<char>) -> Option<Seq<char>> {
    match headers {
        Some(h) => {
            let p = header_position(h, lowercase(name), 0);
            if 0 <= p < h.len() {
                Some(joined(h[p].1, ", "@))
            } else {
                None
            }
        },
        None => None,
    }
}

/// The content type that the headers declare: that of the first value of
/// the first `Content-Type` header, where that value is a content type.
pub open spec fn declared_type(headers: Headers) -> Option<ContentTypeModel> {
    match headers {
        Some(h) => {
            let p = header_position(h, "content-type"@, 0);
            if 0 <= p < h.len() && h[p].1.len() > 0 {
                parsed_content_type(h[p].1[0])
            } else {
                None
            }
        },
        None => None,
    }
}

/// The content type that the first bytes of a body show: those of its
/// bytes where they are UTF-8.
pub open spec fn sniffed_type(body: BodyModel) -> Option<ContentTypeModel> {
    match body {
        BodyModel::Present(bytes, _) => if vstd::utf8::valid_utf8(bytes) {
            detected_type(bytes)
        } else {
            detected_type(Seq::empty())
        },
        _ => None,
    }
}

/// The content type of a part: the one that its body records; else the one
/// that its `Content-Type` header gives, where that is a content type; else
/// the one that the first bytes of the body show.
pub open spec fn resolved_type(body: BodyModel, headers: Headers) -> Option<ContentTypeModel> {
    match body_type(body) {
        Some(c) => Some(c),
        None => match header_value(headers, "content-type"@) {
            Some(v) => match parsed_content_type(v) {
                Some(c) => Some(c),
                None => sniffed_type(body),
            },
            None => sniffed_type(body),
        },
    }
}

/// Whether a body is a text of ASCII characters: it holds bytes, at least
/// one, and all of them are ASCII.
pub open spec fn text_body(body: BodyModel) -> bool {
    body matches BodyModel::Present(bytes, _) && bytes.len() > 0 && forall|i: int|
        0 <= i < bytes.len() ==> #[trigger] bytes[i] < 128
}

/// The position of the first header whose name is `name` in lower case.
fn find_header(h: &MultiMap, name: &str) -> (r: Option<usize>)
    ensures
        match r {
            Some(p) => p < h.entries.len() && p == header_position(h.deep_view(), name@, 0),
            None => header_position(h.deep_view(), name@, 0) == h.deep_view().len(),
        },
{
    let ghost m = h.deep_view();
    let mut i: usize = 0;
    while i < h.entries.len()
        invariant
            i <= h.entries.len(),
            m == h.deep_view(),
            header_position(m, name@, 0) == header_position(m, name@, i as int),
        decreases h.entries.len() - i,
    {
        let key = to_lowercase(h.entries[i].0.as_str());
        if str_eq(key.as_str(), name) {
            return Some(i);
        }
        i += 1;
    }
    None
}

/// Looks up the value of the header `header_name`, whatever the case of its
/// letters: the values of the header with `, ` between them.
pub fn lookup_header_value(headers: &Option<MultiMap>, header_name: &str) -> (r: Option<String>)
    ensures
        r.deep_view() == header_value(headers.deep_view(), header_name@),
{
    match headers {
        Some(h) => {
            let name = to_lowercase(header_name);
            match find_header(h, name.as_str()) {
                Some(p) => {
                    assert(h.deep_view()[p as int].1 == h.entries@[p as int].1.deep_view());
                    Some(join(&h.entries[p].1, ", "))
                },
                None => None,
            }
        },
        None => None,
    }
}

/// Whether the headers hold the header `header_name`, whatever the case of
/// its letters.
pub fn has_header(headers: &Option<MultiMap>, header_name: &str) -> (b: bool)
    ensures
        b == (header_value(headers.deep_view(), header_name@) is Some),
{
    lookup_header_value(headers, header_name).is_some()
}

/// The content type that the headers declare.
pub fn declared_content_type(headers: &Option<MultiMap>) -> (r: Option<ContentType>)
    ensures
        r.deep_view() == declared_type(headers.deep_view()),
{
    match headers {
        Some(h) => match find_header(h, "content-type") {
            Some(p) => {
                assert(h.deep_view()[p as int].1 == h.entries@[p as int].1.deep_view());
                if h.entries[p].1.len() > 0 {
                    ContentType::parse(h.entries[p].1[0].as_str())
                } else {
                    None
                }
            },
            None => None,
        },
        None => None,
    }
}

/// Reads the field `fieldname` of `json` as the body of a part with the
/// given headers.
pub fn body_from_json(json: &Json, fieldname: &str, headers: &Option<MultiMap>) -> (r:
    OptionalBody)
    ensures
        r.deep_view() == body_of_json(
            member(json.deep_view(), fieldname@),
            declared_type(headers.deep_view()),
        ),
        r.deep_view() is Missing <==> member(json.deep_view(), fieldname@) is None,
        r.deep_view() is Null <==> member(json.deep_view(), fieldname@) == Some(JsonModel::Null),
        r.deep_view() is Empty <==> member(json.deep_view(), fieldname@) == Some(
            JsonModel::String(Seq::empty()),
        ),
        r.deep_view() is Present <==> (member(json.deep_view(), fieldname@) matches Some(v) && v
            != JsonModel::Null && v != JsonModel::String(Seq::empty())),
{
    let declared = declared_content_type(headers);
    OptionalBody::from_json(json, fieldname, declared)
}

/// Finds the content type of a body from its first bytes.
pub fn detect_content_type(body: &OptionalBody) -> (r: Option<ContentType>)
    ensures
        r.deep_view() == sniffed_type(body.deep_view()),
{
    match body {
        OptionalBody::Present(bytes, _) => match text_of_utf8(bytes) {
            Ok(_) => detect_content_type_from_bytes(bytes),
            Err(_) => {
                let nothing: Vec<u8> = Vec::new();
                assert(nothing@ =~= Seq::<u8>::empty());
                detect_content_type_from_bytes(&nothing)
            },
        },
        _ => None,
    }
}

/// Finds the content type of a part from its body and its headers.
pub fn content_type(body: &OptionalBody, headers: &Option<MultiMap>) -> (r: Option<ContentType>)
    ensures
        r.deep_view() == resolved_type(body.deep_view(), headers.deep_view()),
{
    if body.has_content_type() {
        body.content_type()
    } else {
        match lookup_header_value(headers, "content-type") {
            Some(h) => match ContentType::parse(h.as_str()) {
                Some(v) => Some(v),
                None => detect_content_type(body),
            },
            None => detect_content_type(body),
        }
    }
}

/// Whether a body is a text of ASCII characters.
pub fn has_text_body(body: &OptionalBody) -> (b: bool)
    ensures
        b == text_body(body.deep_view()),
{
    match body {
        OptionalBody::Present(bytes, _) => {
            if bytes.len() == 0 {
                return false;
            }
            let mut i: usize = 0;
            while i < bytes.len()
                invariant
                    i <= bytes.len(),
                    body.deep_view() is Present,
                    body.deep_view()->Present_0 == bytes@,
                    forall|k: int| 0 <= k < i ==> #[trigger] bytes@[k] < 128,
                decreases bytes.len() - i,
            {
                if bytes[i] >= 128 {
                    assert(!(bytes@[i as int] < 128));
                    return false;
                }
                i += 1;
            }
            true
        },
        _ => false,
    }
}

/// The pieces of `s` between commas from position `from` on, each without
/// the white space around it.
pub open spec fn split_values(s: Seq<char>, from: int) -> Seq<Seq<char>>
    decreases s.len() - from,
{
    if from < 0 || from > s.len() {
        seq![]
    } else {
        let end = find_char(s, ',', from);
        let rest = if end < s.len() {
            proof {
                crate::query::lemma_find_char_bounds(s, ',', from);
            }
            split_values(s, end + 1)
        } else {
            seq![]
        };
        seq![trimmed(s.subrange(from, end))] + rest
    }
}

/// The values that a JSON value gives a header: the pieces of a string
/// between commas; the items of an array, each as a text; and for any other
/// value its JSON text.
pub open spec fn header_values(v: JsonModel) -> Seq<Seq<char>> {
    match v {
        JsonModel::String(s) => split_values(s, 0),
        JsonModel::Array(items) => Seq::new(items.len(), |i: int| plain_text(items[i])),
        other => seq![compact_text(other)],
    }
}

/// The headers that the members of a JSON object give.
pub open spec fn headers_of(members: Entries<JsonModel>) -> Entries<Seq<Seq<char>>>
    decreases members.len(),
{
    if members.len() == 0 {
        seq![]
    } else {
        put(
            headers_of(members.drop_last()),
            members.last().0,
            header_values(members.last().1),
        )
    }
}

/// The headers that the field `headers` of a JSON object gives, where it is
/// an object.
pub open spec fn headers_from(json: JsonModel) -> Headers {
    match member(json, "headers"@) {
        Some(JsonModel::Object(members)) => Some(headers_of(members)),
        _ => None,
    }
}

/// Splits a text at its commas and trims each piece.
fn split_at_commas(s: &str) -> (r: Vec<String>)
    ensures
        r.deep_view() == split_values(s@, 0),
{
    let chars = chars_of(s);
    let mut r: Vec<String> = Vec::new();
    let mut from: usize = 0;
    let mut done = false;
    proof {
        assert(r.deep_view() =~= Seq::<Seq<char>>::empty());
        assert(r.deep_view() + split_values(chars@, 0) == split_values(chars@, 0));
    }
    while !done
        invariant
            from <= chars.len(),
            split_values(chars@, 0) == r.deep_view() + (if done {
                Seq::<Seq<char>>::empty()
            } else {
                split_values(chars@, from as int)
            }),
        decreases chars.len() - from + (if done { 0int } else { 1int }),
    {
        let mut end: usize = from;
        while end < chars.len() && chars[end] != ','
            invariant
                from <= end <= chars.len(),
                find_char(chars@, ',', from as int) == find_char(chars@, ',', end as int),
            decreases chars.len() - end,
        {
            end += 1;
        }
        let raw = string_of_range(&chars, from, end);
        let piece = trim(raw.as_str());
        let ghost before = r.deep_view();
        let ghost rest = if end < chars.len() {
            split_values(chars@, end + 1)
        } else {
            Seq::<Seq<char>>::empty()
        };
        r.push(piece);
        proof {
            assert(r.deep_view() =~= before.push(piece@));
            assert(before + (seq![piece@] + rest) == before.push(piece@) + rest);
        }
        if end < chars.len() {
            from = end + 1;
        } else {
            done = true;
        }
    }
    proof {
        assert(r.deep_view() + Seq::<Seq<char>>::empty() == r.deep_view());
    }
    r
}

/// The values that a JSON value gives a header.
fn header_values_of(v: &Json) -> (r: Vec<String>)
    ensures
        r.deep_view() == header_values(v.deep_view()),
{
    proof {
        lemma_json_model(*v);
    }
    match v {
        Json::String(s) => split_at_commas(s.as_str()),
        Json::Array(items) => {
            let mut r: Vec<String> = Vec::new();
            let ghost all = header_values(v.deep_view());
            let mut i: usize = 0;
            while i < items.len()
                invariant
                    i <= items.len(),
                    all.len() == items.len(),
                    forall|k: int| 0 <= k < items.len() ==> all[k] == plain_text(
                        #[trigger] items@[k].deep_view(),
                    ),
                    r.deep_view() == all.take(i as int),
                decreases items.len() - i,
            {
                let text = items[i].to_plain_text();
                let ghost before = r.deep_view();
                r.push(text);
                proof {
                    assert(r.deep_view() =~= before.push(text@));
                    assert(all.take(i + 1) == all.take(i as int).push(all[i as int]));
                }
                i += 1;
            }
            proof {
                assert(all.take(items.len() as int) == all);
            }
            r
        },
        _ => {
            let mut r: Vec<String> = Vec::new();
            let text = json_text(v);
            r.push(text);
            assert(r.deep_view() =~= seq![text@]);
            r
        },
    }
}

/// Reads the headers of a part from the field `headers` of its JSON form.
pub fn headers_from_json(request: &Json) -> (r: Option<MultiMap>)
    ensures
        r.deep_view() == headers_from(request.deep_view()),
        r matches Some(h) ==> h.wf(),
{
    match request.get("headers") {
        Some(v) => {
            proof {
                lemma_json_model(*v);
            }
            match v {
                Json::Object(members) => {
                    let mut map: MultiMap = SortedMap::new();
                    let ghost m = members.deep_view();
                    let mut i: usize = 0;
                    while i < members.entries.len()
                        invariant
                            i <= members.entries.len(),
                            m == members.deep_view(),
                            map.wf(),
                            map.deep_view() == headers_of(m.take(i as int)),
                        decreases members.entries.len() - i,
                    {
                        let key = members.entries[i].0.clone();
                        let values = header_values_of(&members.entries[i].1);
                        proof {
                            let next = m.take(i + 1);
                            assert(next.drop_last() == m.take(i as int));
                            assert(next.last() == m[i as int]);
                        }
                        map.insert(key, values);
                        i += 1;
                    }
                    proof {
                        assert(m.take(members.entries.len() as int) == m);
                    }
                    Some(map)
                },
                _ => None,
            }
        },
        None => None,
    }
}

/// The members by which headers are written: each name with its values as
/// one string, `, ` between them.
pub open spec fn header_members(h: Entries<Seq<Seq<char>>>) -> Entries<JsonModel>
    decreases h.len(),
{
    if h.len() == 0 {
        seq![]
    } else {
        put(
            header_members(h.drop_last()),
            h.last().0,
            JsonModel::String(joined(h.last().1, ", "@)),
        )
    }
}

/// Writes headers as a JSON object.
pub fn headers_to_json(headers: &MultiMap) -> (r: Json)
    ensures
        r.deep_view() == JsonModel::Object(header_members(headers.deep_view())),
{
    let mut members: SortedMap<Json> = SortedMap::new();
    let ghost h = headers.deep_view();
    let mut i: usize = 0;
    while i < headers.entries.len()
        invariant
            i <= headers.entries.len(),
            h == headers.deep_view(),
            members.deep_view() == header_members(h.take(i as int)),
        decreases headers.entries.len() - i,
    {
        let key = headers.entries[i].0.clone();
        let value = Json::String(join(&headers.entries[i].1, ", "));
        proof {
            let next = h.take(i + 1);
            assert(next.drop_last() == h.take(i as int));
            assert(next.last() == h[i as int]);
            assert(h[i as int].1 == headers.entries@[i as int].1.deep_view());
        }
        members.insert(key, value);
        i += 1;
    }
    proof {
        assert(h.take(headers.entries.len() as int) == h);
    }
    let r = Json::Object(members);
    proof {
        lemma_json_model(r);
    }
    r
}

/// The headers with the values `values` for the header `key`, in place of
/// those that it had.
pub open spec fn with_header(headers: Headers, key: Seq<char>, values: Seq<Seq<char>>) -> Headers {
    Some(
        put(
            match headers {
                Some(h) => h,
                None => seq![],
            },
            key,
            values,
        ),
    )
}

/// Gives the header `key` the values `val`, in place of those that it had.
pub fn add_header(headers: &mut Option<MultiMap>, key: &str, val: Vec<&str>)
    ensures
        final(headers).deep_view() == with_header(old(headers).deep_view(), key@, val.deep_view()),
{
    let mut values: Vec<String> = Vec::new();
    let ghost all = val.deep_view();
    let mut i: usize = 0;
    while i < val.len()
        invariant
            i <= val.len(),
            all == val.deep_view(),
            values.deep_view() == all.take(i as int),
        decreases val.len() - i,
    {
        let text = val[i].to_owned();
        let ghost before = values.deep_view();
        values.push(text);
        proof {
            assert(values.deep_view() =~= before.push(text@));
            assert(all[i as int] == val@[i as int]@);
            assert(all.take(i + 1) == all.take(i as int).push(all[i as int]));
        }
        i += 1;
    }
    proof {
        assert(all.take(val.len() as int) == all);
    }
    let mut map: MultiMap = match headers {
        Some(h) => crate::collections::Duplicate::duplicate(h),
        None => SortedMap::new(),
    };
    map.insert(key.to_owned(), values);
    *headers = Some(map);
}

} // verus!
