//! Content types: their parts, how they are read from a header value, and
//! how the content type of a body is found from its first bytes.

use vstd::prelude::*;
use crate::collections::{Duplicate, Same};
use crate::query::find_char;
use crate::text::{chars_of, push_char, str_eq, string_of_range};

verus! {

/// A content type such as `application/vnd.api+json;charset=utf-8`.
#[derive(Debug, PartialEq, Eq, Hash)]
pub struct ContentType {
    /// The part before the `/`, in lower case.
    pub main_type: String,
    /// The part after the `/`, without the suffix, in lower case.
    pub sub_type: String,
    /// What follows the last `+` of the part after the `/`, in lower case.
    pub suffix: Option<String>,
    /// What follows the first `;`, as it was written.
    pub parameters: String,
}

/// The mathematical value of a `ContentType`.
pub struct ContentTypeModel {
    pub main_type: Seq<char>,
    pub sub_type: Seq<char>,
    pub suffix: Option<Seq<char>>,
    pub parameters: Seq<char>,
}

impl DeepView for ContentType {
    type V = ContentTypeModel;

    open spec fn deep_view(&self) -> ContentTypeModel {
        ContentTypeModel {
            main_type: self.main_type@,
            sub_type: self.sub_type@,
            suffix: self.suffix.deep_view(),
            parameters: self.parameters@,
        }
    }
}

impl Duplicate for ContentType {
    fn duplicate(&self) -> (r: ContentType) {
        ContentType {
            main_type: self.main_type.clone(),
            sub_type: self.sub_type.clone(),
            suffix: self.suffix.duplicate(),
            parameters: self.parameters.clone(),
        }
    }
}

/// The lower-case form of an ASCII letter; other characters as they are.
pub open spec fn ascii_lower(c: char) -> char {
    if 'A' <= c <= 'Z' {
        ((c as u32 + 32) as u8) as char
    } else {
        c
    }
}

/// The text with its ASCII letters in lower case.
pub open spec fn ascii_lowercase(s: Seq<char>) -> Seq<char> {
    Seq::new(s.len(), |i: int| ascii_lower(s[i]))
}

/// A character that may stand in the name of a type.
pub open spec fn type_char(c: char) -> bool {
    ('a' <= c <= 'z') || ('A' <= c <= 'Z') || ('0' <= c <= '9') || c == '!' || c == '#' || c
        == '$' || c == '&' || c == '-' || c == '^' || c == '_' || c == '.' || c == '*' || c == '+'
}

/// Every character of `s` may stand in the name of a type.
pub open spec fn type_text(s: Seq<char>) -> bool {
    forall|i: int| 0 <= i < s.len() ==> type_char(#[trigger] s[i])
}

/// The position of the last `c` before position `end`, or -1 where there is
/// none.
pub open spec fn last_char(s: Seq<char>, c: char, end: int) -> int
    decreases end,
{
    if end <= 0 {
        -1
    } else if s[end - 1] == c {
        end - 1
    } else {
        last_char(s, c, end - 1)
    }
}

/// The content type that the text `s` writes: a type and a subtype with a
/// `/` between them, both non-empty and made of the characters of names,
/// then optionally `;` and parameters. A text of another form writes none.
pub open spec fn parsed_content_type(s: Seq<char>) -> Option<ContentTypeModel> {
    let semi = find_char(s, ';', 0);
    let essence = s.take(semi);
    let slash = find_char(essence, '/', 0);
    let main = essence.take(slash);
    let rest = essence.skip(slash + 1);
    let plus = last_char(rest, '+', rest.len() as int);
    if slash < essence.len() && main.len() > 0 && rest.len() > 0 && type_text(main) && type_text(
        rest,
    ) {
        Some(
            ContentTypeModel {
                main_type: ascii_lowercase(main),
                sub_type: if 0 < plus < rest.len() - 1 {
                    ascii_lowercase(rest.take(plus))
                } else {
                    ascii_lowercase(rest)
                },
                suffix: if 0 < plus < rest.len() - 1 {
                    Some(ascii_lowercase(rest.skip(plus + 1)))
                } else {
                    None
                },
                parameters: if semi < s.len() {
                    s.skip(semi + 1)
                } else {
                    Seq::empty()
                },
            },
        )
    } else {
        None
    }
}

/// The content type of JSON: `application` with a subtype that starts with
/// `json`, the suffix `json`, or the subtype `graphql`.
pub open spec fn json_type(c: ContentTypeModel) -> bool {
    c.main_type == "application"@ && ((c.sub_type.len() >= 4 && c.sub_type.take(4) == "json"@)
        || c.suffix == Some("json"@) || c.sub_type == "graphql"@)
}

/// The content type of XML: `application` or `text` with the subtype or the
/// suffix `xml`.
pub open spec fn xml_type(c: ContentTypeModel) -> bool {
    (c.main_type == "application"@ || c.main_type == "text"@) && (c.sub_type == "xml"@ || c.suffix
        == Some("xml"@))
}

/// The content type of a text: `text`, XML or JSON.
pub open spec fn text_type(c: ContentTypeModel) -> bool {
    c.main_type == "text"@ || xml_type(c) || json_type(c)
}

/// The content type of which nothing is known: `*/*`.
pub open spec fn unknown_type() -> ContentTypeModel {
    ContentTypeModel {
        main_type: "*"@,
        sub_type: "*"@,
        suffix: None,
        parameters: Seq::empty(),
    }
}

/// The content type with the given type and subtype, and nothing else.
pub open spec fn plain_type(main_type: Seq<char>, sub_type: Seq<char>) -> ContentTypeModel {
    ContentTypeModel { main_type, sub_type, suffix: None, parameters: Seq::empty() }
}

/// The text of a content type: `type/subtype`, then `+` and the suffix
/// where there is one, then `;` and the parameters where there are any.
pub open spec fn content_type_text(c: ContentTypeModel) -> Seq<char> {
    let essence = c.main_type + seq!['/'] + c.sub_type + (match c.suffix {
        Some(s) => seq!['+'] + s,
        None => Seq::empty(),
    });
    if c.parameters.len() > 0 {
        essence + seq![';'] + c.parameters
    } else {
        essence
    }
}

/// The string made of `chars[from..to]` with its ASCII letters in lower
/// case.
fn lowercase_range(chars: &Vec<char>, from: usize, to: usize) -> (s: String)
    requires
        from <= to <= chars.len(),
    ensures
        s@ == ascii_lowercase(chars@.subrange(from as int, to as int)),
{
    let mut s = String::new();
    let mut i: usize = from;
    let ghost all = ascii_lowercase(chars@.subrange(from as int, to as int));
    while i < to
        invariant
            from <= i <= to <= chars.len(),
            all == ascii_lowercase(chars@.subrange(from as int, to as int)),
            s@ == all.take(i - from),
        decreases to - i,
    {
        let c = chars[i];
        let lower: char = if c >= 'A' && c <= 'Z' {
            ((c as u32 + 32) as u8) as char
        } else {
            c
        };
        proof {
            assert(all[i - from] == lower);
            assert(all.take(i - from + 1) == all.take(i - from).push(lower));
        }
        push_char(&mut s, lower);
        i += 1;
    }
    proof {
        assert(all.take(to - from) == all);
    }
    s
}

/// Whether every character of `chars[from..to]` may stand in the name of a
/// type.
fn is_type_text(chars: &Vec<char>, from: usize, to: usize) -> (b: bool)
    requires
        from <= to <= chars.len(),
    ensures
        b == type_text(chars@.subrange(from as int, to as int)),
{
    let ghost s = chars@.subrange(from as int, to as int);
    let mut i: usize = from;
    while i < to
        invariant
            from <= i <= to <= chars.len(),
            s == chars@.subrange(from as int, to as int),
            forall|k: int| 0 <= k < i - from ==> type_char(#[trigger] s[k]),
        decreases to - i,
    {
        let c = chars[i];
        let ok = (c >= 'a' && c <= 'z') || (c >= 'A' && c <= 'Z') || (c >= '0' && c <= '9') || c
            == '!' || c == '#' || c == '$' || c == '&' || c == '-' || c == '^' || c == '_' || c
            == '.' || c == '*' || c == '+';
        if !ok {
            proof {
                assert(s[i - from] == c);
            }
            return false;
        }
        proof {
            assert(s[i - from] == c);
        }
        i += 1;
    }
    true
}

/// The position of the first `c` in `chars[from..to]`, or `to`.
pub fn position_of(chars: &Vec<char>, c: char, from: usize, to: usize) -> (p: usize)
    requires
        from <= to <= chars.len(),
    ensures
        from <= p <= to,
        p - from == find_char(chars@.subrange(from as int, to as int), c, 0),
{
    let ghost s = chars@.subrange(from as int, to as int);
    let mut p: usize = from;
    while p < to && chars[p] != c
        invariant
            from <= p <= to <= chars.len(),
            s == chars@.subrange(from as int, to as int),
            find_char(s, c, 0) == find_char(s, c, p - from),
        decreases to - p,
    {
        proof {
            assert(s[p - from] == chars@[p as int]);
        }
        p += 1;
    }
    proof {
        if p < to {
            assert(s[p - from] == chars@[p as int]);
        }
    }
    p
}

impl ContentType {
    /// Reads a content type from its text.
    pub fn parse(text: &str) -> (r: Option<ContentType>)
        ensures
            r.deep_view() == parsed_content_type(text@),
    {
        let chars = chars_of(text);
        let n = chars.len();
        proof {
            assert(chars@.subrange(0, n as int) == chars@);
        }
        let semi = position_of(&chars, ';', 0, n);
        let ghost essence = chars@.take(semi as int);
        proof {
            assert(chars@.subrange(0, semi as int) == essence);
        }
        let slash = position_of(&chars, '/', 0, semi);
        if slash >= semi || slash == 0 || slash + 1 >= semi {
            proof {
                if slash < semi {
                    assert(essence.take(slash as int).len() == slash);
                    assert(essence.skip(slash + 1).len() == semi - slash - 1);
                }
            }
            return None;
        }
        let ghost main = essence.take(slash as int);
        let ghost rest = essence.skip(slash + 1);
        proof {
            assert(chars@.subrange(0, slash as int) == main);
            assert(chars@.subrange(slash + 1, semi as int) == rest);
        }
        if !is_type_text(&chars, 0, slash) || !is_type_text(&chars, slash + 1, semi) {
            return None;
        }
        let mut plus: usize = semi;
        let mut found = false;
        while plus > slash + 1 && !found
            invariant
                slash + 1 <= plus <= semi <= chars.len(),
                rest == chars@.subrange(slash + 1, semi as int),
                !found ==> last_char(rest, '+', rest.len() as int) == last_char(
                    rest,
                    '+',
                    plus - slash - 1,
                ),
                found ==> plus < semi && last_char(rest, '+', rest.len() as int) == plus - slash
                    - 1,
            decreases plus - slash + (if found { 0int } else { 1int }),
        {
            proof {
                assert(rest[plus - slash - 2] == chars@[plus - 1]);
            }
            if chars[plus - 1] == '+' {
                found = true;
            }
            plus -= 1;
        }
        let has_suffix = found && plus > slash + 1 && plus + 1 < semi;
        let sub_type = if has_suffix {
            proof {
                assert(rest.take(plus - slash - 1) == chars@.subrange(slash + 1, plus as int));
            }
            lowercase_range(&chars, slash + 1, plus)
        } else {
            lowercase_range(&chars, slash + 1, semi)
        };
        let suffix = if has_suffix {
            proof {
                assert(rest.skip(plus - slash) == chars@.subrange(plus + 1, semi as int));
            }
            Some(lowercase_range(&chars, plus + 1, semi))
        } else {
            None
        };
        let parameters = if semi < n {
            proof {
                assert(chars@.skip(semi + 1) == chars@.subrange(semi + 1, n as int));
            }
            string_of_range(&chars, semi + 1, n)
        } else {
            String::new()
        };
        Some(ContentType { main_type: lowercase_range(&chars, 0, slash), sub_type, suffix, parameters })
    }

    /// The content type of which nothing is known: `*/*`.
    pub fn unknown() -> (r: ContentType)
        ensures
            r.deep_view() == unknown_type(),
    {
        ContentType {
            main_type: "*".to_owned(),
            sub_type: "*".to_owned(),
            suffix: None,
            parameters: String::new(),
        }
    }

    /// The content type with the given type and subtype, and nothing else.
    pub fn of(main_type: &str, sub_type: &str) -> (r: ContentType)
        ensures
            r.deep_view() == plain_type(main_type@, sub_type@),
    {
        ContentType {
            main_type: main_type.to_owned(),
            sub_type: sub_type.to_owned(),
            suffix: None,
            parameters: String::new(),
        }
    }

    /// Whether this is the content type of JSON.
    pub fn is_json(&self) -> (b: bool)
        ensures
            b == json_type(self.deep_view()),
    {
        if !str_eq(self.main_type.as_str(), "application") {
            return false;
        }
        let sub = chars_of(self.sub_type.as_str());
        proof {
            reveal_strlit("json");
            assert("json"@ =~= seq!['j', 's', 'o', 'n']);
            if sub.len() >= 4 {
                assert(sub@.take(4) =~= seq![sub@[0], sub@[1], sub@[2], sub@[3]]);
            }
        }
        let starts = sub.len() >= 4 && sub[0] == 'j' && sub[1] == 's' && sub[2] == 'o' && sub[3]
            == 'n';
        let by_suffix = match &self.suffix {
            Some(s) => str_eq(s.as_str(), "json"),
            None => false,
        };
        starts || by_suffix || str_eq(self.sub_type.as_str(), "graphql")
    }

    /// Whether this is the content type of XML.
    pub fn is_xml(&self) -> (b: bool)
        ensures
            b == xml_type(self.deep_view()),
    {
        let main = str_eq(self.main_type.as_str(), "application") || str_eq(
            self.main_type.as_str(),
            "text",
        );
        let by_suffix = match &self.suffix {
            Some(s) => str_eq(s.as_str(), "xml"),
            None => false,
        };
        main && (str_eq(self.sub_type.as_str(), "xml") || by_suffix)
    }

    /// Whether this is the content type of a text.
    pub fn is_text(&self) -> (b: bool)
        ensures
            b == text_type(self.deep_view()),
    {
        str_eq(self.main_type.as_str(), "text") || self.is_xml() || self.is_json()
    }

    /// Whether nothing is known of the content: the type or the subtype is
    /// `*`.
    pub fn is_unknown(&self) -> (b: bool)
        ensures
            b == (self.main_type@ == "*"@ || self.sub_type@ == "*"@),
    {
        str_eq(self.main_type.as_str(), "*") || str_eq(self.sub_type.as_str(), "*")
    }

    /// Writes the content type as a text.
    pub fn to_text(&self) -> (r: String)
        ensures
            r@ == content_type_text(self.deep_view()),
    {
        let mut r = self.main_type.clone();
        push_char(&mut r, '/');
        r.append(self.sub_type.as_str());
        let ghost head = r@;
        match &self.suffix {
            Some(s) => {
                push_char(&mut r, '+');
                r.append(s.as_str());
                assert(r@ == head + (seq!['+'] + s@));
            },
            None => {
                assert(r@ == head + Seq::<char>::empty());
            },
        }
        if self.parameters.as_str().unicode_len() > 0 {
            push_char(&mut r, ';');
            r.append(self.parameters.as_str());
        }
        r
    }
}

/// A byte of white space: space, tab, line feed or carriage return.
pub open spec fn blank(b: u8) -> bool {
    b == 32 || b == 9 || b == 10 || b == 13
}

/// The number of bytes of a body that are looked at to find its type.
pub const SNIFF_LENGTH: usize = 32;

/// The first bytes of a body: at most `SNIFF_LENGTH` of them.
pub open spec fn sniffed(bytes: Seq<u8>) -> Seq<u8> {
    if bytes.len() > SNIFF_LENGTH {
        bytes.take(SNIFF_LENGTH as int)
    } else {
        bytes
    }
}

/// The number of bytes of white space at the start of `bytes`.
pub open spec fn leading_blanks(bytes: Seq<u8>) -> int
    decreases bytes.len(),
{
    if bytes.len() > 0 && blank(bytes[0]) {
        1 + leading_blanks(bytes.drop_first())
    } else {
        0
    }
}

/// Whether the bytes `mark` stand in `bytes` at position `at`.
pub open spec fn stands_at(bytes: Seq<u8>, at: int, mark: Seq<u8>) -> bool {
    at + mark.len() <= bytes.len() && bytes.subrange(at, at + mark.len()) == mark
}

/// A byte of plain text: white space or a printable ASCII character.
pub open spec fn plain_byte(b: u8) -> bool {
    blank(b) || (32 <= b < 127)
}

/// The bytes `<?xml`.
pub open spec fn xml_mark() -> Seq<u8> {
    seq![60u8, 63u8, 120u8, 109u8, 108u8]
}

/// The kind of content that the first bytes of a body show.
pub enum Sniffed {
    Json,
    Xml,
    Text,
    Unclassified,
}

/// What the first bytes of a body show. After white space, `{` or `[` opens
/// JSON and `<?xml` opens XML; else bytes that are all plain text are text,
/// and anything else, or no bytes at all, is not classified.
pub open spec fn sniff_spec(bytes: Seq<u8>) -> Sniffed {
    let head = sniffed(bytes);
    let start = leading_blanks(head);
    if start < head.len() && (head[start] == 123 || head[start] == 91) {
        Sniffed::Json
    } else if stands_at(head, start, xml_mark()) {
        Sniffed::Xml
    } else if head.len() > 0 && (forall|i: int| 0 <= i < head.len() ==> plain_byte(#[trigger] head[i])) {
        Sniffed::Text
    } else {
        Sniffed::Unclassified
    }
}

/// The content type that the first bytes of a body show, if any.
pub open spec fn detected_type(bytes: Seq<u8>) -> Option<ContentTypeModel> {
    match sniff_spec(bytes) {
        Sniffed::Json => Some(plain_type("application"@, "json"@)),
        Sniffed::Xml => Some(plain_type("application"@, "xml"@)),
        Sniffed::Text => Some(plain_type("text"@, "plain"@)),
        Sniffed::Unclassified => None,
    }
}

/// Among the first `n` bytes, the white space at the start ends where it
/// ends in the whole, if it ends before `n`.
proof fn lemma_leading_blanks(bytes: Seq<u8>, k: int)
    requires
        0 <= k <= bytes.len(),
        forall|i: int| 0 <= i < k ==> blank(#[trigger] bytes[i]),
    ensures
        leading_blanks(bytes) == k + leading_blanks(bytes.skip(k)),
    decreases k,
{
    if k == 0 {
        assert(bytes.skip(0) == bytes);
    } else {
        assert(blank(bytes[0]));
        let rest = bytes.drop_first();
        assert forall|i: int| 0 <= i < k - 1 implies blank(#[trigger] rest[i]) by {
            assert(rest[i] == bytes[i + 1]);
        }
        lemma_leading_blanks(rest, k - 1);
        assert(rest.skip(k - 1) == bytes.skip(k));
    }
}

/// Finds the kind of content that the first bytes of a body show.
pub fn sniff(bytes: &Vec<u8>) -> (r: Sniffed)
    ensures
        r == sniff_spec(bytes@),
{
    let n: usize = if bytes.len() > SNIFF_LENGTH {
        SNIFF_LENGTH
    } else {
        bytes.len()
    };
    let ghost head = sniffed(bytes@);
    proof {
        assert(head.len() == n);
        assert(forall|i: int| 0 <= i < n ==> head[i] == bytes@[i]);
    }
    let mut start: usize = 0;
    while start < n && (bytes[start] == 32 || bytes[start] == 9 || bytes[start] == 10
        || bytes[start] == 13)
        invariant
            start <= n <= bytes.len(),
            head.len() == n,
            forall|i: int| 0 <= i < n ==> head[i] == bytes@[i],
            forall|i: int| 0 <= i < start ==> blank(#[trigger] head[i]),
        decreases n - start,
    {
        start += 1;
    }
    proof {
        lemma_leading_blanks(head, start as int);
        if start < n {
            assert(head.skip(start as int)[0] == head[start as int]);
        }
    }
    if start < n && (bytes[start] == 123 || bytes[start] == 91) {
        return Sniffed::Json;
    }
    if n - start >= 5 && bytes[start] == 60 && bytes[start + 1] == 63 && bytes[start + 2] == 120
        && bytes[start + 3] == 109 && bytes[start + 4] == 108 {
        proof {
            assert(head.subrange(start as int, start + 5) =~= xml_mark());
        }
        return Sniffed::Xml;
    }
    proof {
        if stands_at(head, start as int, xml_mark()) {
            let part = head.subrange(start as int, start + 5);
            assert(part[0] == 60 && part[1] == 63 && part[2] == 120 && part[3] == 109 && part[4]
                == 108);
        }
    }
    if n == 0 {
        return Sniffed::Unclassified;
    }
    let mut i: usize = 0;
    while i < n
        invariant
            i <= n <= bytes.len(),
            n > 0,
            head == sniffed(bytes@),
            head.len() == n,
            !(leading_blanks(head) < head.len() && (head[leading_blanks(head)] == 123
                || head[leading_blanks(head)] == 91)),
            !stands_at(head, leading_blanks(head), xml_mark()),
            forall|k: int| 0 <= k < n ==> head[k] == bytes@[k],
            forall|k: int| 0 <= k < i ==> plain_byte(#[trigger] head[k]),
        decreases n - i,
    {
        let b = bytes[i];
        let plain = b == 32 || b == 9 || b == 10 || b == 13 || (b >= 32 && b < 127);
        if !plain {
            proof {
                assert(!plain_byte(head[i as int]));
            }
            return Sniffed::Unclassified;
        }
        i += 1;
    }
    Sniffed::Text
}

/// Finds the content type of a body from its first bytes, if they show one.
pub fn detect_content_type_from_bytes(bytes: &Vec<u8>) -> (r: Option<ContentType>)
    ensures
        r.deep_view() == detected_type(bytes@),
{
    match sniff(bytes) {
        Sniffed::Json => Some(ContentType::of("application", "json")),
        Sniffed::Xml => Some(ContentType::of("application", "xml")),
        Sniffed::Text => Some(ContentType::of("text", "plain")),
        Sniffed::Unclassified => None,
    }
}

/// Finds the content type of a text from the first bytes of its UTF-8 form.
pub fn detect_content_type_from_string(s: &str) -> (r: Option<ContentType>)
    ensures
        r.deep_view() == detected_type(vstd::utf8::encode_utf8(s@)),
{
    let bytes = s.as_bytes_vec();
    detect_content_type_from_bytes(&bytes)
}

impl Same for ContentType {
    fn same(&self, other: &ContentType) -> (b: bool) {
        self.main_type == other.main_type && self.sub_type == other.sub_type && self.suffix.same(
            &other.suffix,
        ) && self.parameters == other.parameters
    }
}

/// The content type of bytes that are no text: audio, a font, an image or
/// video.
pub open spec fn binary_type(c: ContentTypeModel) -> bool {
    c.main_type == "audio"@ || c.main_type == "font"@ || c.main_type == "image"@ || c.main_type
        == "video"@
}

impl ContentType {
    /// Whether this is the content type of bytes that are no text.
    pub fn is_binary(&self) -> (b: bool)
        ensures
            b == binary_type(self.deep_view()),
    {
        str_eq(self.main_type.as_str(), "audio") || str_eq(self.main_type.as_str(), "font")
            || str_eq(self.main_type.as_str(), "image") || str_eq(self.main_type.as_str(), "video")
    }
}

/// Writes a text with its ASCII letters in lower case.
pub fn to_ascii_lowercase(s: &str) -> (r: String)
    ensures
        r@ == ascii_lowercase(s@),
{
    let chars = chars_of(s);
    assert(chars@.subrange(0, chars.len() as int) == chars@);
    lowercase_range(&chars, 0, chars.len())
}

} // verus!
