//! Query strings: percent-decoding and -encoding, and the map of a query's
//! parameters.

use vstd::prelude::*;
use crate::collections::{lookup, put, Duplicate, Entries, SortedMap};
use crate::text::{chars_of, push_char, string_of_range};

verus! {

/// The value of a hexadecimal digit; other characters have none.
pub open spec fn hex_value(c: char) -> Option<u8> {
    if '0' <= c <= '9' {
        Some((c as u32 - '0' as u32) as u8)
    } else if 'a' <= c <= 'f' {
        Some((c as u32 - 'a' as u32 + 10) as u8)
    } else if 'A' <= c <= 'F' {
        Some((c as u32 - 'A' as u32 + 10) as u8)
    } else {
        None
    }
}

/// The byte that two hexadecimal digits write; `None` unless both
/// characters are hexadecimal digits.
pub open spec fn hex_byte(hi: char, lo: char) -> Option<u8> {
    match (hex_value(hi), hex_value(lo)) {
        (Some(h), Some(l)) => Some((h * 16 + l) as u8),
        _ => None,
    }
}

/// The lowest eight bits of the code of a character.
pub open spec fn low_byte(c: char) -> u8 {
    ((c as u32) % 256) as u8
}

/// The bytes that a percent-encoded text stands for. `%` and two
/// hexadecimal digits stand for one byte, `+` for a space; a `%` that no two
/// hexadecimal digits follow stands for itself, as does every other
/// character, each by the lowest eight bits of its code.
pub open spec fn decoded_bytes(s: Seq<char>) -> Seq<u8>
    decreases s.len(),
{
    if s.len() == 0 {
        seq![]
    } else if s[0] == '%' {
        if s.len() >= 3 {
            match hex_byte(s[1], s[2]) {
                Some(b) => seq![b] + decoded_bytes(s.skip(3)),
                None => seq![37u8, low_byte(s[1]), low_byte(s[2])] + decoded_bytes(s.skip(3)),
            }
        } else if s.len() == 2 {
            seq![37u8, low_byte(s[1])]
        } else {
            seq![37u8]
        }
    } else if s[0] == '+' {
        seq![32u8] + decoded_bytes(s.drop_first())
    } else {
        seq![low_byte(s[0])] + decoded_bytes(s.drop_first())
    }
}

/// The words in which `std::str::Utf8Error` reports why bytes are not UTF-8.
pub uninterp spec fn utf8_fault(bytes: Seq<u8>) -> Seq<char>;

/// What a percent-encoded text decodes to: the text that its bytes are in
/// UTF-8, or a message where they are none.
pub open spec fn decoded_text(s: Seq<char>) -> Result<Seq<char>, Seq<char>> {
    let bytes = decoded_bytes(s);
    if vstd::utf8::valid_utf8(bytes) {
        Ok(vstd::utf8::decode_utf8(bytes))
    } else {
        Err("Failed to decode '"@ + s + "' to UTF-8 - "@ + utf8_fault(bytes))
    }
}

/// Calls `hex::FromHex::from_hex` for `Vec<u8>` on the text made of the two
/// characters. The crate decodes pairs of hexadecimal digits, upper or
/// lower case, into one byte each, and fails on anything else; so two
/// hexadecimal digits give one byte, and any other two characters fail.
#[verifier::external_body]
pub(crate) fn hex_pair(hi: char, lo: char) -> (r: Option<Vec<u8>>)
    ensures
        match r {
            Some(bytes) => hex_byte(hi, lo) is Some && bytes@ == seq![hex_byte(hi, lo)->0],
            None => hex_byte(hi, lo) is None,
        },
{
    let mut s = String::new();
    s.push(hi);
    s.push(lo);
    let decoded: Result<Vec<u8>, hex::FromHexError> = hex::FromHex::from_hex(s.into_bytes());
    decoded.ok()
}

/// Calls `std::str::from_utf8`: the text that the bytes are in UTF-8, or,
/// where they are not UTF-8, the words of the error, which this library
/// refers to as `utf8_fault`.
#[verifier::external_body]
pub(crate) fn text_of_utf8(bytes: &Vec<u8>) -> (r: Result<String, String>)
    ensures
        match r {
            Ok(s) => vstd::utf8::valid_utf8(bytes@) && s@ == vstd::utf8::decode_utf8(bytes@),
            Err(e) => !vstd::utf8::valid_utf8(bytes@) && e@ == utf8_fault(bytes@),
        },
{
    match std::str::from_utf8(bytes) {
        Ok(s) => Ok(s.to_owned()),
        Err(e) => Err(e.to_string()),
    }
}

/// The lowest eight bits of the code of `c`.
fn low_byte_of(c: char) -> (b: u8)
    ensures
        b == low_byte(c),
{
    ((c as u32) % 256) as u8
}

/// Decodes a percent-encoded text.
pub fn decode_query(query: &str) -> (r: Result<String, String>)
    ensures
        match r {
            Ok(s) => decoded_text(query@) == Ok::<Seq<char>, Seq<char>>(s@),
            Err(e) => decoded_text(query@) == Err::<Seq<char>, Seq<char>>(e@),
        },
{
    let chars = chars_of(query);
    let mut buffer: Vec<u8> = Vec::new();
    let mut i: usize = 0;
    proof {
        assert(chars@.skip(0) == chars@);
        assert(buffer@ + decoded_bytes(chars@) == decoded_bytes(chars@));
    }
    while i < chars.len()
        invariant
            i <= chars.len(),
            decoded_bytes(chars@) == buffer@ + decoded_bytes(chars@.skip(i as int)),
        decreases chars.len() - i,
    {
        let ghost rest = chars@.skip(i as int);
        let ghost before = buffer@;
        let c = chars[i];
        proof {
            assert(rest[0] == c);
        }
        if c == '%' {
            if chars.len() - i >= 3 {
                let v1 = chars[i + 1];
                let v2 = chars[i + 2];
                proof {
                    assert(rest[1] == v1 && rest[2] == v2);
                    assert(rest.skip(3) == chars@.skip(i + 3));
                }
                match hex_pair(v1, v2) {
                    Some(n) => {
                        buffer.push(n[0]);
                        proof {
                            assert(buffer@ + decoded_bytes(chars@.skip(i + 3)) == before + (seq![
                                n@[0],
                            ] + decoded_bytes(rest.skip(3))));
                        }
                    },
                    None => {
                        buffer.push(37u8);
                        buffer.push(low_byte_of(v1));
                        buffer.push(low_byte_of(v2));
                        proof {
                            assert(buffer@ + decoded_bytes(chars@.skip(i + 3)) == before + (seq![
                                37u8,
                                low_byte(v1),
                                low_byte(v2),
                            ] + decoded_bytes(rest.skip(3))));
                        }
                    },
                }
                i += 3;
            } else if chars.len() - i == 2 {
                let v1 = chars[i + 1];
                buffer.push(37u8);
                buffer.push(low_byte_of(v1));
                proof {
                    assert(rest[1] == v1);
                    assert(chars@.skip(i + 2).len() == 0);
                    assert(buffer@ + decoded_bytes(chars@.skip(i + 2)) == before + seq![
                        37u8,
                        low_byte(v1),
                    ]);
                }
                i += 2;
            } else {
                buffer.push(37u8);
                proof {
                    assert(chars@.skip(i + 1).len() == 0);
                    assert(buffer@ + decoded_bytes(chars@.skip(i + 1)) == before + seq![37u8]);
                }
                i += 1;
            }
        } else {
            let b: u8 = if c == '+' {
                32u8
            } else {
                low_byte_of(c)
            };
            buffer.push(b);
            proof {
                assert(rest.drop_first() == chars@.skip(i + 1));
                assert(buffer@ + decoded_bytes(chars@.skip(i + 1)) == before + (seq![b]
                    + decoded_bytes(rest.drop_first())));
            }
            i += 1;
        }
    }
    proof {
        assert(chars@.skip(chars.len() as int).len() == 0);
        assert(buffer@ + Seq::<u8>::empty() == buffer@);
    }
    match text_of_utf8(&buffer) {
        Ok(s) => Ok(s),
        Err(e) => {
            let mut message = "Failed to decode '".to_owned();
            message.append(query);
            message.append("' to UTF-8 - ");
            message.append(e.as_str());
            Err(message)
        },
    }
}

/// The character that writes the hexadecimal digit `d` in lower case.
pub open spec fn hex_char(d: nat) -> char {
    if d < 10 {
        (d + 48) as u8 as char
    } else {
        (d + 87) as u8 as char
    }
}

/// The hexadecimal notation of `n` in lower case, without leading zeros.
pub open spec fn hex_digits(n: nat) -> Seq<char>
    decreases n,
{
    if n < 16 {
        seq![hex_char(n)]
    } else {
        hex_digits(n / 16).push(hex_char(n % 16))
    }
}

/// The digits with a leading zero where their number is odd.
pub open spec fn even_digits(digits: Seq<char>) -> Seq<char> {
    if digits.len() % 2 == 1 {
        seq!['0'] + digits
    } else {
        digits
    }
}

/// A `%` in front of every pair of digits.
pub open spec fn percent_pairs(digits: Seq<char>) -> Seq<char>
    decreases digits.len(),
{
    if digits.len() < 2 {
        seq![]
    } else {
        seq!['%', digits[0], digits[1]] + percent_pairs(digits.skip(2))
    }
}

/// A character that is written as it is in a query string.
pub open spec fn plain_in_query(c: char) -> bool {
    c == '-' || 'a' <= c <= 'z' || 'A' <= c <= 'Z' || '0' <= c <= '9'
}

/// How one character is written in a query string: a space as `+`, a
/// letter, digit or `-` as itself, any other character as the hexadecimal
/// digits of its code, in pairs with a `%` in front of each.
pub open spec fn encoded_char(c: char) -> Seq<char> {
    if c == ' ' {
        seq!['+']
    } else if plain_in_query(c) {
        seq![c]
    } else {
        percent_pairs(even_digits(hex_digits(c as u32 as nat)))
    }
}

/// How a text is written in a query string.
pub open spec fn encoded_text(s: Seq<char>) -> Seq<char>
    decreases s.len(),
{
    if s.len() == 0 {
        seq![]
    } else {
        encoded_text(s.drop_last()) + encoded_char(s.last())
    }
}

/// The hexadecimal digits of `n`, most significant first.
fn hex_digits_of(n: u32) -> (digits: Vec<char>)
    ensures
        digits@ == hex_digits(n as nat),
{
    let mut reversed: Vec<char> = Vec::new();
    let mut rest: u32 = n;
    while rest >= 16
        invariant
            hex_digits(n as nat) == hex_digits(rest as nat) + reversed@.reverse(),
        decreases rest,
    {
        let d: u8 = (rest % 16) as u8;
        let c: char = if d < 10 {
            (d + 48u8) as char
        } else {
            (d + 87u8) as char
        };
        proof {
            let older = reversed@;
            assert(c == hex_char((rest % 16) as nat));
            assert(hex_digits(rest as nat) == hex_digits((rest / 16) as nat).push(c));
            assert(older.push(c).reverse() == seq![c] + older.reverse());
            assert(hex_digits((rest / 16) as nat).push(c) + older.reverse() == hex_digits(
                (rest / 16) as nat,
            ) + (seq![c] + older.reverse()));
        }
        reversed.push(c);
        rest = rest / 16;
    }
    let d: u8 = rest as u8;
    let c: char = if d < 10 {
        (d + 48u8) as char
    } else {
        (d + 87u8) as char
    };
    let mut digits: Vec<char> = Vec::new();
    digits.push(c);
    proof {
        assert(c == hex_char(rest as nat));
        assert(hex_digits(rest as nat) == seq![c]);
    }
    let mut i: usize = reversed.len();
    while i > 0
        invariant
            i <= reversed.len(),
            digits@ == seq![c] + reversed@.reverse().take(reversed.len() - i),
        decreases i,
    {
        i -= 1;
        proof {
            let r = reversed@.reverse();
            let before = r.take(reversed.len() - i - 1);
            assert(r[reversed.len() - i - 1] == reversed@[i as int]);
            assert(r.take(reversed.len() - i) == before.push(reversed@[i as int]));
            assert((seq![c] + before).push(reversed@[i as int]) == seq![c] + before.push(
                reversed@[i as int],
            ));
        }
        digits.push(reversed[i]);
    }
    proof {
        assert(reversed@.reverse().take(reversed.len() as int) == reversed@.reverse());
    }
    digits
}

/// Appends to `out` how the character `c` is written in a query string.
fn encode_char(out: &mut String, c: char)
    ensures
        final(out)@ == old(out)@ + encoded_char(c),
{
    if c == ' ' {
        push_char(out, '+');
        assert(out@ == old(out)@ + seq!['+']);
    } else if c == '-' || (c >= 'a' && c <= 'z') || (c >= 'A' && c <= 'Z') || (c >= '0' && c <= '9') {
        push_char(out, c);
        assert(out@ == old(out)@ + seq![c]);
    } else {
        let digits = hex_digits_of(c as u32);
        let mut padded: Vec<char> = Vec::new();
        if digits.len() % 2 == 1 {
            padded.push('0');
        }
        let mut k: usize = 0;
        while k < digits.len()
            invariant
                k <= digits.len(),
                padded@ == (if digits.len() % 2 == 1 {
                    seq!['0']
                } else {
                    Seq::<char>::empty()
                }) + digits@.take(k as int),
            decreases digits.len() - k,
        {
            proof {
                assert(digits@.take(k + 1) == digits@.take(k as int).push(digits@[k as int]));
            }
            padded.push(digits[k]);
            k += 1;
        }
        proof {
            assert(digits@.take(digits.len() as int) == digits@);
            assert(padded@ == even_digits(digits@));
        }
        let mut j: usize = 0;
        proof {
            assert(padded@.skip(0) == padded@);
        }
        while j < padded.len()
            invariant
                j <= padded.len(),
                j % 2 == 0,
                padded.len() % 2 == 0,
                out@ + percent_pairs(padded@.skip(j as int)) == old(out)@ + percent_pairs(padded@),
            decreases padded.len() - j,
        {
            let ghost before = out@;
            let ghost rest = padded@.skip(j as int);
            push_char(out, '%');
            push_char(out, padded[j]);
            push_char(out, padded[j + 1]);
            proof {
                assert(rest[0] == padded@[j as int] && rest[1] == padded@[j + 1]);
                assert(rest.skip(2) == padded@.skip(j + 2));
                assert(out@ == before + seq!['%', rest[0], rest[1]]);
                assert(out@ + percent_pairs(rest.skip(2)) == before + (seq!['%', rest[0], rest[1]]
                    + percent_pairs(rest.skip(2))));
            }
            j += 2;
        }
        proof {
            assert(percent_pairs(padded@.skip(padded.len() as int)) == Seq::<char>::empty());
            assert(out@ + Seq::<char>::empty() == out@);
        }
    }
}

/// Writes a text as it stands in a query string.
pub fn encode_query(query: &str) -> (r: String)
    ensures
        r@ == encoded_text(query@),
{
    let chars = chars_of(query);
    let mut out = String::new();
    let mut i: usize = 0;
    while i < chars.len()
        invariant
            i <= chars.len(),
            out@ == encoded_text(chars@.take(i as int)),
        decreases chars.len() - i,
    {
        proof {
            let next = chars@.take(i + 1);
            assert(next.drop_last() == chars@.take(i as int));
            assert(next.last() == chars@[i as int]);
        }
        encode_char(&mut out, chars[i]);
        i += 1;
    }
    proof {
        assert(chars@.take(chars.len() as int) == chars@);
    }
    out
}

/// The position of the first `c` at or after `from`, or the length of the
/// text where there is none.
pub open spec fn find_char(s: Seq<char>, c: char, from: int) -> int
    decreases s.len() - from,
{
    if from >= s.len() {
        s.len() as int
    } else if s[from] == c {
        from
    } else {
        find_char(s, c, from + 1)
    }
}

/// The first `c` at or after `from` stands at or after `from`, within the
/// text or at its end.
pub proof fn lemma_find_char_bounds(s: Seq<char>, c: char, from: int)
    requires
        0 <= from <= s.len(),
    ensures
        from <= find_char(s, c, from) <= s.len(),
    decreases s.len() - from,
{
    if from < s.len() && s[from] != c {
        lemma_find_char_bounds(s, c, from + 1);
    }
}

/// The name and the value that one parameter of a query string holds: what
/// stands before and after its first `=`, or all of it and nothing.
pub open spec fn split_pair(piece: Seq<char>) -> (Seq<char>, Seq<char>) {
    let e = find_char(piece, '=', 0);
    if e < piece.len() {
        (piece.take(e), piece.skip(e + 1))
    } else {
        (piece, Seq::empty())
    }
}

/// The parameters of a query string from position `from` on, as written:
/// the pieces between `&`, without the empty ones, each as name and value.
pub open spec fn query_items(s: Seq<char>, from: int) -> Seq<(Seq<char>, Seq<char>)>
    decreases s.len() - from,
{
    if from < 0 || from > s.len() {
        seq![]
    } else {
        let end = find_char(s, '&', from);
        let piece = s.subrange(from, end);
        let rest = if end < s.len() {
            proof {
                lemma_find_char_bounds(s, '&', from);
            }
            query_items(s, end + 1)
        } else {
            seq![]
        };
        if piece.len() == 0 {
            rest
        } else {
            seq![split_pair(piece)] + rest
        }
    }
}

/// The decoded text where the text decodes, else the text itself.
pub open spec fn decoded_or_same(s: Seq<char>) -> Seq<char> {
    match decoded_text(s) {
        Ok(t) => t,
        Err(_) => s,
    }
}

/// The map with `v` added to the values under `k`.
pub open spec fn add_value(m: Entries<Seq<Seq<char>>>, k: Seq<char>, v: Seq<char>) -> Entries<
    Seq<Seq<char>>,
> {
    put(
        m,
        k,
        match lookup(m, k) {
            Some(values) => values.push(v),
            None => seq![v],
        },
    )
}

/// The map of the parameters `items`: each name decoded, with its decoded
/// values in the order of the parameters.
pub open spec fn collected(items: Seq<(Seq<char>, Seq<char>)>) -> Entries<Seq<Seq<char>>>
    decreases items.len(),
{
    if items.len() == 0 {
        seq![]
    } else {
        add_value(
            collected(items.drop_last()),
            decoded_or_same(items.last().0),
            decoded_or_same(items.last().1),
        )
    }
}

/// The map of the parameters of a query string; the empty text has none.
pub open spec fn parsed_query(s: Seq<char>) -> Option<Entries<Seq<Seq<char>>>> {
    if s.len() == 0 {
        None
    } else {
        Some(collected(query_items(s, 0)))
    }
}

/// A map from names to lists of values, as queries and headers hold them.
pub type MultiMap = SortedMap<Vec<String>>;

/// Decodes a text, and keeps the text itself where it does not decode.
fn decode_or_same(s: &str) -> (r: String)
    ensures
        r@ == decoded_or_same(s@),
{
    match decode_query(s) {
        Ok(t) => t,
        Err(_) => s.to_owned(),
    }
}

/// Adds `value` to the values under `name`.
pub fn add_to_multimap(map: &mut MultiMap, name: String, value: String)
    ensures
        final(map).deep_view() == add_value(old(map).deep_view(), name@, value@),
        old(map).wf() ==> final(map).wf(),
{
    let mut values: Vec<String> = match map.get(name.as_str()) {
        Some(found) => found.duplicate(),
        None => Vec::new(),
    };
    let ghost before = values.deep_view();
    values.push(value);
    proof {
        assert(values.deep_view() =~= before.push(value@));
        if lookup(old(map).deep_view(), name@) is None {
            assert(before =~= Seq::<Seq<char>>::empty());
            assert(values.deep_view() =~= seq![value@]);
        }
    }
    map.insert(name, values);
}

/// Parses a query string into the map of its parameters. Each name is
/// mapped to the list of its values, in the order in which they occur.
pub fn parse_query_string(query: &str) -> (r: Option<MultiMap>)
    ensures
        r.deep_view() == parsed_query(query@),
        r matches Some(m) ==> m.wf(),
{
    let chars = chars_of(query);
    if chars.len() == 0 {
        return None;
    }
    let mut map: MultiMap = SortedMap::new();
    let mut from: usize = 0;
    let mut done = false;
    let ghost mut items: Seq<(Seq<char>, Seq<char>)> = seq![];
    while !done
        invariant
            from <= chars.len(),
            map.wf(),
            map.deep_view() == collected(items),
            query_items(chars@, 0) == items + (if done {
                Seq::<(Seq<char>, Seq<char>)>::empty()
            } else {
                query_items(chars@, from as int)
            }),
        decreases chars.len() - from + (if done { 0int } else { 1int }),
    {
        let mut end: usize = from;
        while end < chars.len() && chars[end] != '&'
            invariant
                from <= end <= chars.len(),
                find_char(chars@, '&', from as int) == find_char(chars@, '&', end as int),
            decreases chars.len() - end,
        {
            end += 1;
        }
        let ghost piece = chars@.subrange(from as int, end as int);
        let ghost rest = if end < chars.len() {
            query_items(chars@, end + 1)
        } else {
            Seq::<(Seq<char>, Seq<char>)>::empty()
        };
        if end > from {
            let mut eq: usize = from;
            while eq < end && chars[eq] != '='
                invariant
                    from <= eq <= end <= chars.len(),
                    piece == chars@.subrange(from as int, end as int),
                    find_char(piece, '=', 0) == find_char(piece, '=', eq - from),
                decreases end - eq,
            {
                proof {
                    assert(piece[eq - from] == chars@[eq as int]);
                }
                eq += 1;
            }
            proof {
                if eq < end {
                    assert(piece[eq - from] == chars@[eq as int]);
                }
            }
            let raw_name = string_of_range(&chars, from, eq);
            let raw_value = if eq < end {
                string_of_range(&chars, eq + 1, end)
            } else {
                String::new()
            };
            proof {
                assert(piece.take(eq - from) == chars@.subrange(from as int, eq as int));
                if eq < end {
                    assert(piece.skip(eq - from + 1) == chars@.subrange(eq + 1, end as int));
                }
                assert(split_pair(piece) == (raw_name@, raw_value@));
            }
            let name = decode_or_same(raw_name.as_str());
            let value = decode_or_same(raw_value.as_str());
            proof {
                let longer = items.push((raw_name@, raw_value@));
                assert(longer.drop_last() == items);
                assert(items + (seq![split_pair(piece)] + rest) == longer + rest);
                items = longer;
            }
            add_to_multimap(&mut map, name, value);
        }
        if end < chars.len() {
            from = end + 1;
        } else {
            done = true;
        }
    }
    proof {
        assert(items + Seq::<(Seq<char>, Seq<char>)>::empty() == items);
    }
    Some(map)
}

/// The text made of the texts `parts` with `sep` between them.
pub open spec fn joined(parts: Seq<Seq<char>>, sep: Seq<char>) -> Seq<char>
    decreases parts.len(),
{
    if parts.len() == 0 {
        seq![]
    } else if parts.len() == 1 {
        parts[0]
    } else {
        joined(parts.drop_last(), sep) + sep + parts.last()
    }
}

/// Calls `Itertools::join` on the items of `parts`: all of them in one
/// string, with `sep` between each two.
#[verifier::external_body]
pub(crate) fn join(parts: &Vec<String>, sep: &str) -> (r: String)
    ensures
        r@ == joined(parts.deep_view(), sep@),
{
    itertools::Itertools::join(&mut parts.iter(), sep)
}

/// The parameters of one name as they are written in a query string:
/// `name=value` for each value, the value encoded.
pub open spec fn written_values(name: Seq<char>, values: Seq<Seq<char>>) -> Seq<Seq<char>> {
    Seq::new(values.len(), |i: int| name + seq!['='] + encoded_text(values[i]))
}

/// The parameters of all the entries of a map as they are written in a
/// query string, in the order of the entries.
pub open spec fn written_parameters(m: Entries<Seq<Seq<char>>>) -> Seq<Seq<char>>
    decreases m.len(),
{
    if m.len() == 0 {
        seq![]
    } else {
        written_parameters(m.drop_last()) + written_values(m.last().0, m.last().1)
    }
}

/// Writes the query string of a map of parameters: every value of every
/// name as `name=value`, with `&` between them, in the order of the names.
pub fn build_query_string(query: &MultiMap) -> (r: String)
    ensures
        r@ == joined(written_parameters(query.deep_view()), seq!['&']),
{
    let mut parts: Vec<String> = Vec::new();
    let ghost m = query.deep_view();
    let mut i: usize = 0;
    while i < query.entries.len()
        invariant
            i <= query.entries.len(),
            m == query.deep_view(),
            parts.deep_view() == written_parameters(m.take(i as int)),
        decreases query.entries.len() - i,
    {
        let name = &query.entries[i].0;
        let values = &query.entries[i].1;
        let ghost done = parts.deep_view();
        let ghost all = written_values(name@, values.deep_view());
        let mut j: usize = 0;
        while j < values.len()
            invariant
                j <= values.len(),
                all == written_values(name@, values.deep_view()),
                parts.deep_view() == done + all.take(j as int),
            decreases values.len() - j,
        {
            let mut part = name.clone();
            push_char(&mut part, '=');
            let encoded = encode_query(values[j].as_str());
            part.append(encoded.as_str());
            proof {
                assert(values.deep_view()[j as int] == values@[j as int]@);
                assert(part@ == all[j as int]);
                assert(all.take(j + 1) == all.take(j as int).push(all[j as int]));
            }
            let ghost before = parts.deep_view();
            parts.push(part);
            proof {
                assert(parts.deep_view() =~= before.push(part@));
                assert(done + all.take(j as int).push(all[j as int]) == (done + all.take(
                    j as int,
                )).push(all[j as int]));
            }
            j += 1;
        }
        proof {
            assert(all.take(values.len() as int) == all);
            let next = m.take(i + 1);
            assert(next.drop_last() == m.take(i as int));
            assert(next.last() == m[i as int]);
            assert(m[i as int] == (name@, values.deep_view()));
        }
        i += 1;
    }
    proof {
        assert(m.take(query.entries.len() as int) == m);
        reveal_strlit("&");
        assert("&"@ =~= seq!['&']);
    }
    join(&parts, "&")
}

} // verus!
