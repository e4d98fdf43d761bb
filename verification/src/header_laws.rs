//! What holds of headers that are written and read again: values that
//! are plain texts are read back as they were written.

use vstd::prelude::*;
use crate::collections::{keys_increasing, lemma_put_last, Entries};
use crate::headers::{
    ascii_blank, ascii_trimmed, blanks_after, blanks_before, header_members, header_values,
    headers_of, split_values, trimmed,
};
use crate::json::JsonModel;
use crate::query::{find_char, joined, lemma_find_char_bounds};
use crate::text::{ascii_text, text_order};

verus! {

/// A value of a header that is read back as it was written: a text of
/// ASCII without a comma and without white space at its start or at its
/// end.
pub open spec fn plain_value(v: Seq<char>) -> bool {
    &&& ascii_text(v)
    &&& forall|i: int| 0 <= i < v.len() ==> #[trigger] v[i] != ','
    &&& v.len() > 0 ==> !ascii_blank(v[0]) && !ascii_blank(v.last())
}

/// A plain value stays as it is when it is trimmed, also with a space in
/// front of it.
pub proof fn lemma_plain_value_trimmed(v: Seq<char>)
    requires
        plain_value(v),
    ensures
        trimmed(v) == v,
        trimmed(seq![' '] + v) == v,
{
    let s = seq![' '] + v;
    assert(ascii_text(s)) by {
        assert forall|i: int| 0 <= i < s.len() implies (#[trigger] s[i] as u32) < 128 by {
            if i > 0 {
                assert(s[i] == v[i - 1]);
            }
        }
    }
    assert(s.drop_first() =~= v);
    if v.len() == 0 {
        assert(blanks_before(v) == 0);
        assert(trimmed(v) =~= v);
        assert(blanks_before(s) == 1);
        assert(trimmed(s) =~= v);
    } else {
        assert(blanks_before(v) == 0);
        assert(blanks_after(v) == 0);
        assert(v.subrange(0, v.len() as int) =~= v);
        assert(s.last() == v.last());
        assert(blanks_before(s) == 1);
        assert(blanks_after(s) == 0);
        assert(s.subrange(1, s.len() as int) =~= v);
    }
}

/// In a text that has no `c` from `from` on, the first one is found at the
/// end.
proof fn lemma_find_char_none(s: Seq<char>, c: char, from: int)
    requires
        0 <= from <= s.len(),
        forall|i: int| from <= i < s.len() ==> #[trigger] s[i] != c,
    ensures
        find_char(s, c, from) == s.len(),
    decreases s.len() - from,
{
    if from < s.len() {
        lemma_find_char_none(s, c, from + 1);
    }
}

/// The first `c` that is found within a text is found there too when
/// the text goes on.
proof fn lemma_find_char_within(a: Seq<char>, more: Seq<char>, c: char, from: int)
    requires
        0 <= from <= a.len(),
        find_char(a, c, from) < a.len(),
    ensures
        find_char(a + more, c, from) == find_char(a, c, from),
    decreases a.len() - from,
{
    if from < a.len() {
        assert((a + more)[from] == a[from]);
        if a[from] != c {
            lemma_find_char_within(a, more, c, from + 1);
        }
    }
}

/// Where a text has no `c` from `from` on and goes on with one, that one
/// is the first.
proof fn lemma_find_char_next(a: Seq<char>, more: Seq<char>, c: char, from: int)
    requires
        0 <= from <= a.len(),
        find_char(a, c, from) == a.len(),
        more.len() > 0,
        more[0] == c,
    ensures
        find_char(a + more, c, from) == a.len(),
    decreases a.len() - from,
{
    if from < a.len() {
        assert((a + more)[from] == a[from]);
        lemma_find_char_next(a, more, c, from + 1);
    } else {
        assert((a + more)[from] == more[0]);
    }
}

/// The pieces of a text that goes on with a comma, a space and a plain
/// value are the pieces of the text and that value.
proof fn lemma_split_values_more(a: Seq<char>, v: Seq<char>, from: int)
    requires
        0 <= from <= a.len(),
        plain_value(v),
    ensures
        split_values(a + (seq![',', ' '] + v), from) == split_values(a, from).push(v),
    decreases a.len() - from,
{
    let more = seq![',', ' '] + v;
    let s = a + more;
    lemma_find_char_bounds(a, ',', from);
    let end = find_char(a, ',', from);
    if end < a.len() {
        lemma_find_char_within(a, more, ',', from);
        assert(s.subrange(from, end) =~= a.subrange(from, end));
        lemma_split_values_more(a, v, end + 1);
        assert(split_values(s, from) =~= split_values(a, from).push(v));
    } else {
        lemma_find_char_next(a, more, ',', from);
        assert(s.subrange(from, end) =~= a.subrange(from, end));
        let next = (a.len() + 1) as int;
        assert forall|i: int| next <= i < s.len() implies #[trigger] s[i] != ',' by {
            if i == next {
                assert(s[i] == more[1]);
            } else {
                assert(s[i] == v[i - next - 1]);
            }
        }
        lemma_find_char_none(s, ',', next);
        assert(s.subrange(next, s.len() as int) =~= seq![' '] + v);
        lemma_plain_value_trimmed(v);
        assert(split_values(s, next) =~= seq![v]);
        assert(split_values(s, from) =~= split_values(a, from).push(v));
    }
}

/// One or more plain values that are written as one text, with a comma
/// and a space between them, are read back from it one for one.
pub proof fn lemma_values_round_trip(values: Seq<Seq<char>>)
    requires
        values.len() > 0,
        forall|i: int| 0 <= i < values.len() ==> plain_value(#[trigger] values[i]),
    ensures
        split_values(joined(values, ", "@), 0) == values,
    decreases values.len(),
{
    reveal_strlit(", ");
    assert(", "@ =~= seq![',', ' ']);
    if values.len() == 1 {
        let v = values[0];
        lemma_find_char_none(v, ',', 0);
        assert(v.subrange(0, v.len() as int) =~= v);
        lemma_plain_value_trimmed(v);
        assert(split_values(v, 0) =~= values);
    } else {
        let init = values.drop_last();
        assert forall|i: int| 0 <= i < init.len() implies plain_value(#[trigger] init[i]) by {
            assert(init[i] == values[i]);
        }
        lemma_values_round_trip(init);
        let a = joined(init, ", "@);
        assert(plain_value(values[values.len() - 1]));
        lemma_split_values_more(a, values.last(), 0);
        assert(joined(values, ", "@) =~= a + (seq![',', ' '] + values.last()));
        assert(init.push(values.last()) =~= values);
    }
}

/// Whether headers are read back as they were written: their names are
/// increasing, and each has one or more values, all of them plain.
pub open spec fn headers_form(h: Entries<Seq<Seq<char>>>) -> bool {
    &&& keys_increasing(h)
    &&& forall|i: int|
        0 <= i < h.len() ==> (#[trigger] h[i]).1.len() > 0 && forall|k: int|
            0 <= k < h[i].1.len() ==> plain_value(#[trigger] h[i].1[k])
}

/// Headers in such a form are written name by name, in their order, and
/// are read back as they were.
pub proof fn lemma_headers_round_trip(h: Entries<Seq<Seq<char>>>)
    requires
        headers_form(h),
    ensures
        header_members(h) == Seq::new(
            h.len(),
            |i: int| (h[i].0, JsonModel::String(joined(h[i].1, ", "@))),
        ),
        headers_of(header_members(h)) == h,
    decreases h.len(),
{
    let written = Seq::new(h.len(), |i: int| (h[i].0, JsonModel::String(joined(h[i].1, ", "@))));
    if h.len() == 0 {
        assert(header_members(h) =~= written);
        assert(h =~= Seq::<(Seq<char>, Seq<Seq<char>>)>::empty());
    } else {
        let init = h.drop_last();
        let last = h.last();
        assert forall|i: int, j: int| 0 <= i < j < init.len() implies text_order(
            #[trigger] init[i].0,
            #[trigger] init[j].0,
        ) < 0 by {
            assert(init[i] == h[i] && init[j] == h[j]);
        }
        assert forall|i: int| 0 <= i < init.len() implies (#[trigger] init[i]).1.len() > 0
            && forall|k: int| 0 <= k < init[i].1.len() ==> plain_value(#[trigger] init[i].1[k]) by {
            assert(init[i] == h[i]);
        }
        lemma_headers_round_trip(init);
        let before = header_members(init);
        let v = JsonModel::String(joined(last.1, ", "@));
        assert forall|i: int| 0 <= i < before.len() implies text_order(
            #[trigger] before[i].0,
            last.0,
        ) < 0 by {
            assert(init[i] == h[i]);
            assert(text_order(h[i].0, h[h.len() - 1].0) < 0);
        }
        lemma_put_last(before, last.0, v);
        assert(header_members(h) =~= written);
        assert(written.drop_last() =~= before);
        assert(written.last() == (last.0, v));
        assert(h[h.len() - 1].1.len() > 0);
        lemma_values_round_trip(last.1);
        assert(header_values(v) == last.1);
        assert forall|i: int| 0 <= i < init.len() implies text_order(
            #[trigger] init[i].0,
            last.0,
        ) < 0 by {
            assert(init[i] == h[i]);
            assert(text_order(h[i].0, h[h.len() - 1].0) < 0);
        }
        lemma_put_last(init, last.0, last.1);
        assert(init.push((last.0, last.1)) =~= h);
    }
}

} // verus!
