//! Maps from text keys to values, held as a list of entries in the order of
//! their keys, so that two maps with the same entries are the same value.

use vstd::prelude::*;
use crate::text::{
    compare_text, lemma_text_order_equal, lemma_text_order_flip, lemma_text_order_transitive,
    text_order,
};

verus! {

/// The entries of a map: pairs of a key and a value.
pub type Entries<T> = Seq<(Seq<char>, T)>;

/// Every key comes before all the keys after it, so that no key occurs twice.
pub open spec fn keys_increasing<T>(m: Entries<T>) -> bool {
    forall|i: int, j: int| 0 <= i < j < m.len() ==> text_order(#[trigger] m[i].0, #[trigger] m[j].0) < 0
}

/// The number of leading entries whose keys come before `k`: the place at
/// which `k` belongs.
pub open spec fn position<T>(m: Entries<T>, k: Seq<char>) -> int
    decreases m.len(),
{
    if m.len() > 0 && text_order(m[0].0, k) < 0 {
        1 + position(m.drop_first(), k)
    } else {
        0
    }
}

/// The value of the first entry with the key `k`.
pub open spec fn lookup<T>(m: Entries<T>, k: Seq<char>) -> Option<T>
    decreases m.len(),
{
    if m.len() == 0 {
        None
    } else if m[0].0 == k {
        Some(m[0].1)
    } else {
        lookup(m.drop_first(), k)
    }
}

/// Whether some entry has the key `k`.
pub open spec fn has_key<T>(m: Entries<T>, k: Seq<char>) -> bool {
    lookup(m, k) is Some
}

/// The entries with `v` under the key `k`: in place of the entry at the
/// place of `k` where that entry has the key `k`, else as a new entry there.
pub open spec fn put<T>(m: Entries<T>, k: Seq<char>, v: T) -> Entries<T> {
    let p = position(m, k);
    if p < m.len() && m[p].0 == k {
        m.update(p, (k, v))
    } else {
        m.insert(p, (k, v))
    }
}

/// The keys of the entries, in their order.
pub open spec fn keys_of<T>(m: Entries<T>) -> Seq<Seq<char>> {
    Seq::new(m.len(), |i: int| m[i].0)
}

/// The place of `k` lies within the entries; every key before it comes
/// before `k`, and the key at it does not.
pub proof fn lemma_position<T>(m: Entries<T>, k: Seq<char>)
    ensures
        0 <= position(m, k) <= m.len(),
        forall|i: int| 0 <= i < position(m, k) ==> text_order(#[trigger] m[i].0, k) < 0,
        position(m, k) < m.len() ==> text_order(m[position(m, k)].0, k) >= 0,
    decreases m.len(),
{
    if m.len() > 0 && text_order(m[0].0, k) < 0 {
        let rest = m.drop_first();
        lemma_position(rest, k);
        assert forall|i: int| 0 <= i < position(m, k) implies text_order(#[trigger] m[i].0, k)
            < 0 by {
            if i > 0 {
                assert(m[i] == rest[i - 1]);
            }
        }
        if position(m, k) < m.len() {
            assert(m[position(m, k)] == rest[position(rest, k)]);
        }
    }
}

/// The place of `k` among the entries from `i` on, counted from the start.
pub proof fn lemma_position_skip<T>(m: Entries<T>, k: Seq<char>, i: int)
    requires
        0 <= i <= m.len(),
        forall|j: int| 0 <= j < i ==> text_order(#[trigger] m[j].0, k) < 0,
    ensures
        position(m, k) == i + position(m.skip(i), k),
    decreases i,
{
    if i == 0 {
        assert(m.skip(0) == m);
    } else {
        assert(text_order(m[0].0, k) < 0);
        let rest = m.drop_first();
        assert forall|j: int| 0 <= j < i - 1 implies text_order(#[trigger] rest[j].0, k) < 0 by {
            assert(rest[j] == m[j + 1]);
        }
        lemma_position_skip(rest, k, i - 1);
        assert(rest.skip(i - 1) == m.skip(i));
    }
}

/// Looking up `k` finds nothing among leading entries with other keys.
pub proof fn lemma_lookup_skip<T>(m: Entries<T>, k: Seq<char>, i: int)
    requires
        0 <= i <= m.len(),
        forall|j: int| 0 <= j < i ==> #[trigger] m[j].0 != k,
    ensures
        lookup(m, k) == lookup(m.skip(i), k),
    decreases i,
{
    if i == 0 {
        assert(m.skip(0) == m);
    } else {
        assert(m[0].0 != k);
        let rest = m.drop_first();
        assert forall|j: int| 0 <= j < i - 1 implies #[trigger] rest[j].0 != k by {
            assert(rest[j] == m[j + 1]);
        }
        lemma_lookup_skip(rest, k, i - 1);
        assert(rest.skip(i - 1) == m.skip(i));
    }
}

/// Putting a value into entries with increasing keys leaves the keys
/// increasing.
pub proof fn lemma_put_increasing<T>(m: Entries<T>, k: Seq<char>, v: T)
    requires
        keys_increasing(m),
    ensures
        keys_increasing(put(m, k, v)),
{
    let p = position(m, k);
    let r = put(m, k, v);
    lemma_position(m, k);
    if p < m.len() && m[p].0 == k {
        assert forall|i: int, j: int| 0 <= i < j < r.len() implies text_order(
            #[trigger] r[i].0,
            #[trigger] r[j].0,
        ) < 0 by {
            assert(r[i].0 == m[i].0);
            assert(r[j].0 == m[j].0);
        }
    } else {
        assert forall|i: int, j: int| 0 <= i < j < r.len() implies text_order(
            #[trigger] r[i].0,
            #[trigger] r[j].0,
        ) < 0 by {
            if j < p {
                assert(r[i] == m[i] && r[j] == m[j]);
            } else if j == p {
                assert(r[i] == m[i]);
            } else if i == p {
                // the entry after the new one is the old entry at `p` or later
                assert(r[j] == m[j - 1]);
                lemma_text_order_flip(m[p].0, k);
                lemma_text_order_equal(m[p].0, k);
                if j - 1 > p {
                    assert(text_order(m[p].0, m[j - 1].0) < 0);
                    lemma_text_order_transitive(k, m[p].0, m[j - 1].0);
                }
            } else if i < p {
                assert(r[i] == m[i] && r[j] == m[j - 1]);
            } else {
                assert(r[i] == m[i - 1] && r[j] == m[j - 1]);
            }
        }
    }
}

/// In entries with increasing keys, the entry at position `i` is the one
/// that looking up its key finds.
pub proof fn lemma_lookup_at<T>(m: Entries<T>, i: int)
    requires
        keys_increasing(m),
        0 <= i < m.len(),
    ensures
        lookup(m, m[i].0) == Some(m[i].1),
    decreases i,
{
    if i > 0 {
        lemma_text_order_equal(m[0].0, m[i].0);
        let rest = m.drop_first();
        assert forall|a: int, b: int| 0 <= a < b < rest.len() implies text_order(
            #[trigger] rest[a].0,
            #[trigger] rest[b].0,
        ) < 0 by {
            assert(rest[a] == m[a + 1] && rest[b] == m[b + 1]);
        }
        assert(rest[i - 1] == m[i]);
        lemma_lookup_at(rest, i - 1);
    }
}

/// A map from text keys to values of type `V`, held as entries in the order
/// in which `insert` places them.
#[derive(Debug, PartialEq, Eq, Hash)]
pub struct SortedMap<V> {
    pub entries: Vec<(String, V)>,
}

impl<V: DeepView> DeepView for SortedMap<V> {
    type V = Entries<V::V>;

    open spec fn deep_view(&self) -> Entries<V::V> {
        self.entries.deep_view()
    }
}

impl<V: DeepView> SortedMap<V> {
    /// The keys of the entries are increasing.
    pub open spec fn wf(&self) -> bool {
        keys_increasing(self.deep_view())
    }

    /// A map without entries.
    pub fn new() -> (m: Self)
        ensures
            m.deep_view() == Seq::<(Seq<char>, V::V)>::empty(),
            m.wf(),
    {
        let m = SortedMap { entries: Vec::new() };
        assert(m.deep_view() =~= Seq::<(Seq<char>, V::V)>::empty());
        m
    }

    /// The number of entries.
    pub fn len(&self) -> (n: usize)
        ensures
            n == self.deep_view().len(),
    {
        self.entries.len()
    }

    /// Whether the map has no entries.
    pub fn is_empty(&self) -> (b: bool)
        ensures
            b == (self.deep_view().len() == 0),
    {
        self.entries.len() == 0
    }

    /// The position of the first entry with the key `key`.
    pub fn find(&self, key: &str) -> (r: Option<usize>)
        ensures
            match r {
                Some(i) => i < self.entries.len() && self.deep_view()[i as int].0 == key@ && lookup(
                    self.deep_view(),
                    key@,
                ) == Some(self.deep_view()[i as int].1),
                None => lookup(self.deep_view(), key@) is None,
            },
    {
        let ghost m = self.deep_view();
        let mut i: usize = 0;
        while i < self.entries.len()
            invariant
                i <= self.entries.len(),
                m == self.deep_view(),
                forall|j: int| 0 <= j < i ==> #[trigger] m[j].0 != key@,
            decreases self.entries.len() - i,
        {
            let c = compare_text(self.entries[i].0.as_str(), key);
            proof {
                lemma_text_order_equal(m[i as int].0, key@);
                lemma_lookup_skip(m, key@, i as int);
            }
            if c == 0 {
                return Some(i);
            }
            i += 1;
        }
        proof {
            lemma_lookup_skip(m, key@, i as int);
        }
        None
    }

    /// The value under the key `key`.
    pub fn get(&self, key: &str) -> (r: Option<&V>)
        ensures
            r.deep_view() == lookup(self.deep_view(), key@),
    {
        match self.find(key) {
            Some(i) => Some(&self.entries[i].1),
            None => None,
        }
    }

    /// Whether the map has an entry with the key `key`.
    pub fn contains_key(&self, key: &str) -> (b: bool)
        ensures
            b == has_key(self.deep_view(), key@),
    {
        self.find(key).is_some()
    }

    /// Puts `value` under `key`, in place of the value that was there if
    /// there was one.
    pub fn insert(&mut self, key: String, value: V)
        ensures
            final(self).deep_view() == put(old(self).deep_view(), key@, value.deep_view()),
            old(self).wf() ==> final(self).wf(),
    {
        let ghost m = self.deep_view();
        let mut p: usize = 0;
        while p < self.entries.len() && compare_text(self.entries[p].0.as_str(), key.as_str()) < 0
            invariant
                p <= self.entries.len(),
                m == self.deep_view(),
                *self == *old(self),
                forall|j: int| 0 <= j < p ==> text_order(#[trigger] m[j].0, key@) < 0,
            decreases self.entries.len() - p,
        {
            p += 1;
        }
        proof {
            lemma_position_skip(m, key@, p as int);
            if p < m.len() {
                assert(m.skip(p as int)[0] == m[p as int]);
            }
            if keys_increasing(m) {
                lemma_put_increasing(m, key@, value.deep_view());
            }
        }
        if p < self.entries.len() && compare_text(self.entries[p].0.as_str(), key.as_str()) == 0 {
            proof {
                lemma_text_order_equal(m[p as int].0, key@);
            }
            self.entries.set(p, (key, value));
            assert(self.deep_view() =~= m.update(p as int, (key@, value.deep_view())));
        } else {
            proof {
                if p < m.len() {
                    lemma_text_order_equal(m[p as int].0, key@);
                }
            }
            self.entries.insert(p, (key, value));
            assert(self.deep_view() =~= m.insert(p as int, (key@, value.deep_view())));
        }
    }
}

/// Values that can be copied: the copy has the same mathematical value.
pub trait Duplicate: DeepView + Sized {
    /// A copy of this value.
    fn duplicate(&self) -> (r: Self)
        ensures
            r.deep_view() == self.deep_view(),
    ;
}

impl Duplicate for String {
    fn duplicate(&self) -> (r: String) {
        self.clone()
    }
}

impl<T: Duplicate> Duplicate for Vec<T> {
    fn duplicate(&self) -> (r: Vec<T>) {
        let mut r: Vec<T> = Vec::new();
        let mut i: usize = 0;
        while i < self.len()
            invariant
                i <= self.len(),
                r.deep_view() == self.deep_view().take(i as int),
            decreases self.len() - i,
        {
            let item = self[i].duplicate();
            proof {
                assert(self.deep_view().take(i + 1) =~= self.deep_view().take(i as int).push(
                    self@[i as int].deep_view(),
                ));
            }
            let ghost before = r.deep_view();
            r.push(item);
            assert(r.deep_view() =~= before.push(item.deep_view()));
            i += 1;
        }
        assert(self.deep_view().take(self.len() as int) == self.deep_view());
        r
    }
}

impl<T: Duplicate> Duplicate for Option<T> {
    fn duplicate(&self) -> (r: Option<T>) {
        match self {
            Some(t) => Some(t.duplicate()),
            None => None,
        }
    }
}

impl<V: Duplicate> Duplicate for SortedMap<V> {
    fn duplicate(&self) -> (r: SortedMap<V>) {
        let mut entries: Vec<(String, V)> = Vec::new();
        let mut i: usize = 0;
        while i < self.entries.len()
            invariant
                i <= self.entries.len(),
                entries.deep_view() == self.entries.deep_view().take(i as int),
            decreases self.entries.len() - i,
        {
            let key = self.entries[i].0.clone();
            let value = self.entries[i].1.duplicate();
            proof {
                assert(self.entries.deep_view().take(i + 1) =~= self.entries.deep_view().take(
                    i as int,
                ).push((key@, value.deep_view())));
            }
            let ghost before = entries.deep_view();
            entries.push((key, value));
            assert(entries.deep_view() =~= before.push((key@, value.deep_view())));
            i += 1;
        }
        assert(self.entries.deep_view().take(self.entries.len() as int)
            == self.entries.deep_view());
        SortedMap { entries }
    }
}

/// Values that can be compared: two values are the same where their
/// mathematical values are equal.
pub trait Same: DeepView + Sized {
    /// Whether this value and `other` are the same.
    fn same(&self, other: &Self) -> (b: bool)
        ensures
            b == (self.deep_view() == other.deep_view()),
    ;
}

impl Same for String {
    fn same(&self, other: &String) -> (b: bool) {
        *self == *other
    }
}

impl Same for u8 {
    fn same(&self, other: &u8) -> (b: bool) {
        *self == *other
    }
}

impl Same for usize {
    fn same(&self, other: &usize) -> (b: bool) {
        *self == *other
    }
}

impl<T: Same> Same for Vec<T> {
    fn same(&self, other: &Vec<T>) -> (b: bool) {
        if self.len() != other.len() {
            assert(self.deep_view().len() != other.deep_view().len());
            return false;
        }
        let mut i: usize = 0;
        while i < self.len()
            invariant
                i <= self.len(),
                self.len() == other.len(),
                forall|k: int| 0 <= k < i ==> self.deep_view()[k] == other.deep_view()[k],
            decreases self.len() - i,
        {
            if !self[i].same(&other[i]) {
                assert(self.deep_view()[i as int] != other.deep_view()[i as int]);
                return false;
            }
            i += 1;
        }
        assert(self.deep_view() =~= other.deep_view());
        true
    }
}

impl<T: Same> Same for Option<T> {
    fn same(&self, other: &Option<T>) -> (b: bool) {
        match (self, other) {
            (Some(a), Some(b)) => a.same(b),
            (None, None) => true,
            _ => false,
        }
    }
}

impl<V: Same> Same for SortedMap<V> {
    fn same(&self, other: &SortedMap<V>) -> (b: bool) {
        if self.entries.len() != other.entries.len() {
            assert(self.deep_view().len() != other.deep_view().len());
            return false;
        }
        let mut i: usize = 0;
        while i < self.entries.len()
            invariant
                i <= self.entries.len(),
                self.entries.len() == other.entries.len(),
                forall|k: int| 0 <= k < i ==> self.deep_view()[k] == other.deep_view()[k],
            decreases self.entries.len() - i,
        {
            let keys = self.entries[i].0 == other.entries[i].0;
            if !keys || !self.entries[i].1.same(&other.entries[i].1) {
                assert(self.deep_view()[i as int] != other.deep_view()[i as int]);
                return false;
            }
            i += 1;
        }
        assert(self.deep_view() =~= other.deep_view());
        true
    }
}

/// Looking up a key finds a value only where an entry has the key.
pub proof fn lemma_lookup_found<T>(m: Entries<T>, k: Seq<char>)
    requires
        lookup(m, k) is Some,
    ensures
        exists|i: int| 0 <= i < m.len() && (#[trigger] m[i]).0 == k,
    decreases m.len(),
{
    if m.len() > 0 && m[0].0 != k {
        let rest = m.drop_first();
        lemma_lookup_found(rest, k);
        let i = choose|i: int| 0 <= i < rest.len() && (#[trigger] rest[i]).0 == k;
        assert(m[i + 1] == rest[i]);
    }
}

/// After a value is put under a key into entries with increasing keys,
/// looking up that key finds the value, and looking up any other key finds
/// what it found before.
pub proof fn lemma_lookup_put<T>(m: Entries<T>, k: Seq<char>, v: T, other: Seq<char>)
    requires
        keys_increasing(m),
    ensures
        lookup(put(m, k, v), other) == if other == k {
            Some(v)
        } else {
            lookup(m, other)
        },
{
    let p = position(m, k);
    let r = put(m, k, v);
    lemma_position(m, k);
    lemma_put_increasing(m, k, v);
    let replaced = p < m.len() && m[p].0 == k;
    assert(r[p] == (k, v));
    if other == k {
        lemma_lookup_at(r, p);
    } else if lookup(m, other) is Some {
        lemma_lookup_found(m, other);
        let i = choose|i: int| 0 <= i < m.len() && (#[trigger] m[i]).0 == other;
        lemma_lookup_at(m, i);
        let at = if replaced || i < p {
            i
        } else {
            i + 1
        };
        assert(r[at] == m[i]);
        lemma_lookup_at(r, at);
    } else {
        if lookup(r, other) is Some {
            lemma_lookup_found(r, other);
            let i = choose|i: int| 0 <= i < r.len() && (#[trigger] r[i]).0 == other;
            let back = if replaced || i < p {
                i
            } else {
                i - 1
            };
            assert(m[back] == r[i]);
            lemma_lookup_at(m, back);
        }
    }
}

/// A value that is put under a key that comes after every key of the
/// entries is put at their end.
pub proof fn lemma_put_last<T>(m: Entries<T>, k: Seq<char>, v: T)
    requires
        forall|i: int| 0 <= i < m.len() ==> text_order(#[trigger] m[i].0, k) < 0,
    ensures
        put(m, k, v) == m.push((k, v)),
{
    lemma_position(m, k);
    let p = position(m, k);
    if p < m.len() {
        assert(text_order(m[p].0, k) < 0);
    }
    assert(m.insert(m.len() as int, (k, v)) =~= m.push((k, v)));
}

/// Putting a value under a key into entries with increasing keys leaves the
/// keys increasing; every lookup of that key then finds the value, and
/// every lookup of another key what it found before.
pub proof fn lemma_put<T>(m: Entries<T>, k: Seq<char>, v: T)
    requires
        keys_increasing(m),
    ensures
        keys_increasing(put(m, k, v)),
        forall|other: Seq<char>|
            #[trigger] lookup(put(m, k, v), other) == if other == k {
                Some(v)
            } else {
                lookup(m, other)
            },
{
    lemma_put_increasing(m, k, v);
    assert forall|other: Seq<char>|
        #[trigger] lookup(put(m, k, v), other) == if other == k {
            Some(v)
        } else {
            lookup(m, other)
        } by {
        lemma_lookup_put(m, k, v, other);
    }
}

} // verus!
