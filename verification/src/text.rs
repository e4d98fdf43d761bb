//! Character-level helpers for strings: conversion between strings and
//! character vectors, decimal numbers, ordering, and the Unicode
//! classifications that the standard library provides.

use vstd::prelude::*;
use crate::content_types::ascii_lowercase;

verus! {

/// Whether `char::is_alphabetic` holds of `c`.
pub uninterp spec fn alphabetic(c: char) -> bool;

/// Whether `char::is_numeric` holds of `c`.
pub uninterp spec fn numeric(c: char) -> bool;

/// What `str::to_uppercase` returns for the text `s`.
pub uninterp spec fn unicode_uppercase(s: Seq<char>) -> Seq<char>;

/// What `str::to_lowercase` returns for the text `s`.
pub uninterp spec fn unicode_lowercase(s: Seq<char>) -> Seq<char>;

/// A letter of ASCII.
pub open spec fn ascii_letter(c: char) -> bool {
    ('a' <= c <= 'z') || ('A' <= c <= 'Z')
}

/// A digit of ASCII.
pub open spec fn is_digit(c: char) -> bool {
    '0' <= c <= '9'
}

/// Whether `c` counts as a letter: among the characters of ASCII the
/// letters, among the others those that `char::is_alphabetic` holds of.
pub open spec fn letter(c: char) -> bool {
    if (c as u32) < 128 {
        ascii_letter(c)
    } else {
        alphabetic(c)
    }
}

/// Whether `c` counts as a numeral: among the characters of ASCII the
/// digits, among the others those that `char::is_numeric` holds of.
pub open spec fn numeral(c: char) -> bool {
    if (c as u32) < 128 {
        is_digit(c)
    } else {
        numeric(c)
    }
}

/// Calls `char::is_alphabetic`: the Unicode `Alphabetic` property of `c`,
/// which this library refers to as `alphabetic(c)`. Of the characters of
/// ASCII the letters `a` to `z` and `A` to `Z` have that property and no
/// others.
#[verifier::external_body]
pub(crate) fn is_alphabetic(c: char) -> (b: bool)
    ensures
        b == alphabetic(c),
        (c as u32) < 128 ==> b == ascii_letter(c),
{
    c.is_alphabetic()
}

/// Calls `char::is_numeric`: whether `c` is in one of the Unicode number
/// categories, which this library refers to as `numeric(c)`. Of the
/// characters of ASCII the digits `0` to `9` are in one and no others.
#[verifier::external_body]
pub(crate) fn is_numeric(c: char) -> (b: bool)
    ensures
        b == numeric(c),
        (c as u32) < 128 ==> b == is_digit(c),
{
    c.is_numeric()
}

/// Whether `c` counts as a letter.
pub fn is_letter(c: char) -> (b: bool)
    ensures
        b == letter(c),
{
    is_alphabetic(c)
}

/// Whether `c` counts as a numeral.
pub fn is_numeral(c: char) -> (b: bool)
    ensures
        b == numeral(c),
{
    is_numeric(c)
}

/// Every character of the text is one of ASCII.
pub open spec fn ascii_text(s: Seq<char>) -> bool {
    forall|i: int| 0 <= i < s.len() ==> (#[trigger] s[i] as u32) < 128
}

/// The upper-case form of a letter of ASCII; other characters as they are.
pub open spec fn ascii_upper(c: char) -> char {
    if 'a' <= c <= 'z' {
        ((c as u32 - 32) as u8) as char
    } else {
        c
    }
}

/// The text with its letters of ASCII in upper case.
pub open spec fn ascii_uppercase(s: Seq<char>) -> Seq<char> {
    Seq::new(s.len(), |i: int| ascii_upper(s[i]))
}

/// The text in upper case: a text of ASCII with its letters in upper case,
/// any other text as `str::to_uppercase` maps it.
pub open spec fn uppercase(s: Seq<char>) -> Seq<char> {
    if ascii_text(s) {
        ascii_uppercase(s)
    } else {
        unicode_uppercase(s)
    }
}

/// The text in lower case: a text of ASCII with its letters in lower case,
/// any other text as `str::to_lowercase` maps it.
pub open spec fn lowercase(s: Seq<char>) -> Seq<char> {
    if ascii_text(s) {
        ascii_lowercase(s)
    } else {
        unicode_lowercase(s)
    }
}

/// Calls `str::to_uppercase`: the Unicode upper-case mapping of the text,
/// which this library refers to as `unicode_uppercase(s@)`. In a text of
/// ASCII that mapping puts the letters `a` to `z` in upper case and leaves
/// every other character as it is.
#[verifier::external_body]
pub(crate) fn unicode_upper(s: &str) -> (r: String)
    ensures
        r@ == unicode_uppercase(s@),
        ascii_text(s@) ==> r@ == ascii_uppercase(s@),
{
    s.to_uppercase()
}

/// Calls `str::to_lowercase`: the Unicode lower-case mapping of the text,
/// which this library refers to as `unicode_lowercase(s@)`. In a text of
/// ASCII that mapping puts the letters `A` to `Z` in lower case and leaves
/// every other character as it is.
#[verifier::external_body]
pub(crate) fn unicode_lower(s: &str) -> (r: String)
    ensures
        r@ == unicode_lowercase(s@),
        ascii_text(s@) ==> r@ == ascii_lowercase(s@),
{
    s.to_lowercase()
}

/// The text in upper case.
pub fn to_uppercase(s: &str) -> (r: String)
    ensures
        r@ == uppercase(s@),
{
    unicode_upper(s)
}

/// The text in lower case.
pub fn to_lowercase(s: &str) -> (r: String)
    ensures
        r@ == lowercase(s@),
{
    unicode_lower(s)
}

/// A text of ASCII in upper case is a text of ASCII, and putting it in
/// upper case once more changes nothing.
pub proof fn lemma_uppercase_twice(s: Seq<char>)
    requires
        ascii_text(s),
    ensures
        ascii_text(uppercase(s)),
        uppercase(uppercase(s)) == uppercase(s),
{
    let u = ascii_uppercase(s);
    assert forall|i: int| 0 <= i < u.len() implies (#[trigger] u[i] as u32) < 128 && ascii_upper(
        u[i],
    ) == u[i] by {
        lemma_ascii_upper(s[i]);
    }
    assert(ascii_uppercase(u) =~= u);
}

/// The upper-case form of a character of ASCII is one of ASCII and its own
/// upper-case form.
proof fn lemma_ascii_upper(c: char)
    requires
        (c as u32) < 128,
    ensures
        (ascii_upper(c) as u32) < 128,
        ascii_upper(ascii_upper(c)) == ascii_upper(c),
{
}

/// Calls `String::push`, which appends the character to the end of the string.
#[verifier::external_body]
pub(crate) fn push_char(s: &mut String, c: char)
    ensures
        final(s)@ == old(s)@.push(c),
{
    s.push(c)
}

/// The characters of `s`, in order.
pub fn chars_of(s: &str) -> (v: Vec<char>)
    ensures
        v@ == s@,
{
    let mut v: Vec<char> = Vec::new();
    for c in it: s.chars()
        invariant
            it.seq() == s@,
            v@ == s@.take(it.index() as int),
    {
        v.push(c);
    }
    v
}

/// The string made of the characters `chars[from..to]`.
pub fn string_of_range(chars: &Vec<char>, from: usize, to: usize) -> (s: String)
    requires
        from <= to <= chars.len(),
    ensures
        s@ == chars@.subrange(from as int, to as int),
{
    let mut s = String::new();
    let mut i: usize = from;
    while i < to
        invariant
            from <= i <= to <= chars.len(),
            s@ == chars@.subrange(from as int, i as int),
        decreases to - i,
    {
        push_char(&mut s, chars[i]);
        i += 1;
    }
    s
}

/// The string made of all the characters of `chars`.
pub fn string_of(chars: &Vec<char>) -> (s: String)
    ensures
        s@ == chars@,
{
    let s = string_of_range(chars, 0, chars.len());
    assert(chars@.subrange(0, chars.len() as int) == chars@);
    s
}

/// Whether two string slices hold the same text.
pub fn str_eq(a: &str, b: &str) -> (r: bool)
    ensures
        r == (a@ == b@),
{
    let x = a.to_owned();
    let y = b.to_owned();
    x == y
}

/// The number that one ASCII decimal digit stands for.
pub open spec fn digit_value(c: char) -> nat {
    (c as u32 - '0' as u32) as nat
}

/// The number that a run of decimal digits stands for, most significant first.
pub open spec fn digits_value(s: Seq<char>) -> nat
    decreases s.len(),
{
    if s.len() == 0 {
        0
    } else {
        digits_value(s.drop_last()) * 10 + digit_value(s.last())
    }
}

/// Every character of `s` is an ASCII decimal digit.
pub open spec fn all_digits(s: Seq<char>) -> bool {
    forall|i: int| 0 <= i < s.len() ==> is_digit(#[trigger] s[i])
}

/// The number written as the digits `body`, where it is at most `limit`:
/// one or more decimal digits. Anything else is no number.
pub open spec fn digits_number(body: Seq<char>, limit: nat) -> Option<nat> {
    if body.len() > 0 && all_digits(body) && digits_value(body) <= limit {
        Some(digits_value(body))
    } else {
        None
    }
}

/// The unsigned machine word written as `s`: an optional `+`, then one or
/// more decimal digits, with a value that fits the machine word. Anything
/// else is no number.
pub open spec fn unsigned_of(s: Seq<char>) -> Option<usize> {
    let body = if s.len() > 0 && s[0] == '+' {
        s.drop_first()
    } else {
        s
    };
    match digits_number(body, usize::MAX as nat) {
        Some(n) => Some(n as usize),
        None => None,
    }
}

/// A run of digits is worth at least as much as any of its prefixes.
pub proof fn lemma_digits_value_prefix(s: Seq<char>, k: int)
    requires
        0 <= k <= s.len(),
    ensures
        digits_value(s.take(k)) <= digits_value(s),
    decreases s.len(),
{
    if k == s.len() {
        assert(s.take(k) == s);
    } else {
        assert(s.drop_last().take(k) == s.take(k));
        lemma_digits_value_prefix(s.drop_last(), k);
    }
}

/// Reads the number written as the digits `chars[from..to]`, where it is at
/// most `limit`.
pub fn parse_digits(chars: &Vec<char>, from: usize, to: usize, limit: u64) -> (r: Option<u64>)
    requires
        from <= to <= chars.len(),
    ensures
        match r {
            Some(n) => digits_number(chars@.subrange(from as int, to as int), limit as nat) == Some(
                n as nat,
            ),
            None => digits_number(chars@.subrange(from as int, to as int), limit as nat) is None,
        },
{
    let ghost body = chars@.subrange(from as int, to as int);
    if from == to {
        return None;
    }
    let mut acc: u64 = 0;
    let mut i: usize = from;
    while i < to
        invariant
            from <= i <= to <= chars.len(),
            from < to,
            body == chars@.subrange(from as int, to as int),
            all_digits(body.take(i - from)),
            acc == digits_value(body.take(i - from)),
            acc <= limit,
        decreases to - i,
    {
        let c = chars[i];
        let ghost prefix = body.take(i - from);
        let ghost next = body.take(i - from + 1);
        proof {
            assert(next.drop_last() == prefix);
            assert(next.last() == c);
        }
        if !(c >= '0' && c <= '9') {
            proof {
                assert(body[i - from] == c);
                assert(!all_digits(body));
            }
            return None;
        }
        let d: u64 = (c as u32 - '0' as u32) as u64;
        let stepped = match acc.checked_mul(10) {
            Some(m) => m.checked_add(d),
            None => None,
        };
        proof {
            lemma_digits_value_prefix(body, i - from + 1);
        }
        match stepped {
            Some(v) => {
                if v > limit {
                    return None;
                }
                acc = v;
            },
            None => {
                return None;
            },
        }
        proof {
            assert forall|j: int| 0 <= j < next.len() implies is_digit(#[trigger] next[j]) by {
                if j < prefix.len() {
                    assert(next[j] == prefix[j]);
                }
            }
        }
        i += 1;
    }
    proof {
        assert(body.take(to - from) == body);
    }
    Some(acc)
}

/// Reads the unsigned machine word written in `chars[from..to]`.
pub fn parse_unsigned_range(chars: &Vec<char>, from: usize, to: usize) -> (r: Option<usize>)
    requires
        from <= to <= chars.len(),
    ensures
        r == unsigned_of(chars@.subrange(from as int, to as int)),
{
    let ghost s = chars@.subrange(from as int, to as int);
    let start: usize = if from < to && chars[from] == '+' {
        from + 1
    } else {
        from
    };
    proof {
        let body = chars@.subrange(start as int, to as int);
        if from < to && s[0] == '+' {
            assert(s.drop_first() == body);
        } else {
            assert(s == body);
        }
    }
    match parse_digits(chars, start, to, usize::MAX as u64) {
        Some(n) => Some(n as usize),
        None => None,
    }
}

/// Reads the unsigned machine word written as `s`, as `str::parse::<usize>`
/// does.
pub fn parse_unsigned(s: &str) -> (r: Option<usize>)
    ensures
        r == unsigned_of(s@),
{
    let chars = chars_of(s);
    let r = parse_unsigned_range(&chars, 0, chars.len());
    assert(chars@.subrange(0, chars.len() as int) == chars@);
    r
}

/// Reads the number written as the digits `s`, where it fits 64 bits.
pub fn parse_digits_u64(s: &str) -> (r: Option<u64>)
    ensures
        match r {
            Some(n) => digits_number(s@, u64::MAX as nat) == Some(n as nat),
            None => digits_number(s@, u64::MAX as nat) is None,
        },
{
    let chars = chars_of(s);
    assert(chars@.subrange(0, chars.len() as int) == chars@);
    parse_digits(&chars, 0, chars.len(), u64::MAX)
}

/// The character that writes the digit `d`.
pub open spec fn digit_char(d: nat) -> char {
    (d + '0' as u32) as u8 as char
}

/// The decimal notation of `n`, without leading zeros.
pub open spec fn decimal(n: nat) -> Seq<char>
    decreases n,
{
    if n < 10 {
        seq![digit_char(n)]
    } else {
        decimal(n / 10).push(digit_char(n % 10))
    }
}

/// Writes `n` in decimal notation.
pub fn decimal_string(n: usize) -> (s: String)
    ensures
        s@ == decimal(n as nat),
{
    let mut digits: Vec<char> = Vec::new();
    let mut rest: usize = n;
    // The digits are produced least significant first.
    while rest >= 10
        invariant
            decimal(n as nat) == decimal(rest as nat) + digits@.reverse(),
        decreases rest,
    {
        let d: u8 = (rest % 10) as u8;
        let c: char = (d + 48u8) as char;
        proof {
            assert(c == digit_char((rest % 10) as nat));
            let older = digits@;
            assert(decimal(rest as nat) == decimal((rest / 10) as nat).push(c));
            assert(older.push(c).reverse() == seq![c] + older.reverse());
            assert(decimal((rest / 10) as nat).push(c) + older.reverse() == decimal(
                (rest / 10) as nat,
            ) + (seq![c] + older.reverse()));
        }
        digits.push(c);
        rest = rest / 10;
    }
    let d: u8 = rest as u8;
    let c: char = (d + 48u8) as char;
    let mut s = String::new();
    push_char(&mut s, c);
    proof {
        assert(c == digit_char(rest as nat));
        assert(decimal(rest as nat) == seq![c]);
    }
    let mut i: usize = digits.len();
    while i > 0
        invariant
            i <= digits.len(),
            s@ == seq![c] + digits@.reverse().take(digits.len() - i),
        decreases i,
    {
        i -= 1;
        let ghost before = digits@.reverse().take(digits.len() - i - 1);
        proof {
            let r = digits@.reverse();
            assert(r[digits.len() - i - 1] == digits@[i as int]);
            assert(r.take(digits.len() - i) == before.push(digits@[i as int]));
            assert((seq![c] + before).push(digits@[i as int]) == seq![c] + before.push(
                digits@[i as int],
            ));
        }
        push_char(&mut s, digits[i]);
    }
    proof {
        assert(digits@.reverse().take(digits.len() as int) == digits@.reverse());
    }
    s
}

/// How two texts compare, character by character: negative where `a` comes
/// first, zero where they are the same text, positive where `b` comes first.
/// A text comes before every text that it is a proper prefix of.
pub open spec fn text_order(a: Seq<char>, b: Seq<char>) -> int
    decreases a.len(),
{
    if a.len() == 0 {
        if b.len() == 0 {
            0
        } else {
            -1
        }
    } else if b.len() == 0 {
        1
    } else if a[0] < b[0] {
        -1
    } else if a[0] > b[0] {
        1
    } else {
        text_order(a.drop_first(), b.drop_first())
    }
}

/// Two texts compare as equal exactly when they are the same text.
pub proof fn lemma_text_order_equal(a: Seq<char>, b: Seq<char>)
    ensures
        text_order(a, b) == 0 <==> a == b,
    decreases a.len(),
{
    if a.len() > 0 && b.len() > 0 {
        lemma_text_order_equal(a.drop_first(), b.drop_first());
        if a[0] == b[0] && a.drop_first() == b.drop_first() {
            assert(a =~= seq![a[0]] + a.drop_first());
            assert(b =~= seq![b[0]] + b.drop_first());
        }
    } else if a.len() == 0 && b.len() == 0 {
        assert(a =~= b);
    }
}

/// Swapping the two texts flips the sign of their comparison.
pub proof fn lemma_text_order_flip(a: Seq<char>, b: Seq<char>)
    ensures
        text_order(a, b) < 0 <==> text_order(b, a) > 0,
        text_order(a, b) == 0 <==> text_order(b, a) == 0,
    decreases a.len(),
{
    if a.len() > 0 && b.len() > 0 {
        lemma_text_order_flip(a.drop_first(), b.drop_first());
    }
}

/// Coming first is transitive.
pub proof fn lemma_text_order_transitive(a: Seq<char>, b: Seq<char>, c: Seq<char>)
    requires
        text_order(a, b) <= 0,
        text_order(b, c) <= 0,
    ensures
        text_order(a, c) <= 0,
        text_order(a, b) < 0 || text_order(b, c) < 0 ==> text_order(a, c) < 0,
    decreases a.len(),
{
    if a.len() > 0 && b.len() > 0 && c.len() > 0 {
        if a[0] == b[0] && b[0] == c[0] {
            lemma_text_order_transitive(a.drop_first(), b.drop_first(), c.drop_first());
        }
    }
}

/// Texts that agree on their first `k` characters compare as what follows
/// those characters compares.
pub proof fn lemma_text_order_skip(a: Seq<char>, b: Seq<char>, k: int)
    requires
        0 <= k <= a.len(),
        k <= b.len(),
        a.take(k) == b.take(k),
    ensures
        text_order(a, b) == text_order(a.skip(k), b.skip(k)),
    decreases k,
{
    if k == 0 {
        assert(a.skip(0) == a);
        assert(b.skip(0) == b);
    } else {
        assert(a[0] == a.take(k)[0]);
        assert(b[0] == b.take(k)[0]);
        assert(a.drop_first().take(k - 1) == a.take(k).drop_first());
        assert(b.drop_first().take(k - 1) == b.take(k).drop_first());
        lemma_text_order_skip(a.drop_first(), b.drop_first(), k - 1);
        assert(a.drop_first().skip(k - 1) == a.skip(k));
        assert(b.drop_first().skip(k - 1) == b.skip(k));
    }
}

/// Compares two texts character by character: -1, 0 or 1 as `a` comes
/// before, is the same as, or comes after `b`.
pub fn compare_chars(a: &Vec<char>, b: &Vec<char>) -> (r: i8)
    ensures
        -1 <= r <= 1,
        r == text_order(a@, b@),
{
    let mut i: usize = 0;
    while i < a.len() && i < b.len()
        invariant
            i <= a.len(),
            i <= b.len(),
            a@.take(i as int) == b@.take(i as int),
        decreases a.len() - i,
    {
        proof {
            lemma_text_order_skip(a@, b@, i as int);
        }
        if a[i] < b[i] {
            return -1;
        }
        if a[i] > b[i] {
            return 1;
        }
        proof {
            assert(a@.take(i + 1) == a@.take(i as int).push(a@[i as int]));
            assert(b@.take(i + 1) == b@.take(i as int).push(b@[i as int]));
        }
        i += 1;
    }
    proof {
        lemma_text_order_skip(a@, b@, i as int);
    }
    if i < b.len() {
        -1
    } else if i < a.len() {
        1
    } else {
        0
    }
}

/// Compares two strings as `compare_chars` compares their characters.
pub fn compare_text(a: &str, b: &str) -> (r: i8)
    ensures
        -1 <= r <= 1,
        r == text_order(a@, b@),
{
    let x = chars_of(a);
    let y = chars_of(b);
    compare_chars(&x, &y)
}

/// The decimal notation of a number is made of digits, and they stand for
/// the number.
pub proof fn lemma_decimal_reads_back(n: nat)
    ensures
        decimal(n).len() > 0,
        all_digits(decimal(n)),
        digits_value(decimal(n)) == n,
    decreases n,
{
    if n < 10 {
        let s = decimal(n);
        assert(s.len() == 1);
        assert(s[0] == digit_char(n));
        assert(s.drop_last().len() == 0);
        assert(digits_value(s.drop_last()) == 0);
        assert(digit_value(digit_char(n)) == n);
    } else {
        lemma_decimal_reads_back(n / 10);
        let init = decimal(n / 10);
        let s = decimal(n);
        assert(s == init.push(digit_char(n % 10)));
        assert(s.drop_last() == init);
        assert(s.last() == digit_char(n % 10));
        assert(digit_value(digit_char(n % 10)) == n % 10);
        assert forall|i: int| 0 <= i < s.len() implies is_digit(#[trigger] s[i]) by {
            if i < init.len() {
                assert(s[i] == init[i]);
            }
        }
    }
}

} // verus!
