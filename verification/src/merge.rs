//! Merging pacts: the order of interactions, the detection of conflicts,
//! and the join of the interactions of two pacts.

use std::cmp::Ordering;
use vstd::prelude::*;
use crate::collections::Duplicate;
use crate::interactions::{
    as_request_response_spec, as_v4_spec, conflicts_spec, description_spec, kind_name, states_spec,
    v4_key, ConflictModel, Interaction, InteractionModel, PactConflict, RequestResponseInteraction,
    RequestResponseModel, V4Interaction, V4Model,
};
use crate::interactions::http_as_request_response;
use crate::models::{Consumer, Provider};
use crate::pacts::{
    pact_consumer, pact_interactions, pact_provider, Pact, PactModel, RequestResponsePact,
    RequestResponsePactModel, V4Pact, V4PactModel,
};
use crate::provider_states::{names_of, state_names};
use crate::query::{join, joined as joined_text};
use crate::text::{decimal, decimal_string};
use crate::text::{compare_text, text_order};

verus! {

/// What the place of an interaction in a pact is decided by.
#[derive(Debug, PartialEq, Eq, Hash)]
pub struct MergeKey {
    /// The key of the interaction, where it has one.
    pub key: Option<String>,
    /// The name of the kind of the interaction.
    pub kind: String,
    /// The names of its provider states.
    pub names: Vec<String>,
    /// Its description.
    pub description: String,
}

/// The mathematical value of a `MergeKey`.
pub struct KeyModel {
    pub key: Option<Seq<char>>,
    pub kind: Seq<char>,
    pub names: Seq<Seq<char>>,
    pub description: Seq<char>,
}

impl DeepView for MergeKey {
    type V = KeyModel;

    open spec fn deep_view(&self) -> KeyModel {
        KeyModel {
            key: self.key.deep_view(),
            kind: self.kind@,
            names: self.names.deep_view(),
            description: self.description@,
        }
    }
}

/// What the place of an interaction is decided by.
pub open spec fn merge_key(i: InteractionModel) -> KeyModel {
    KeyModel {
        key: match i {
            InteractionModel::V4(v) => v4_key(v),
            _ => None,
        },
        kind: kind_name(i),
        names: state_names(states_spec(i)),
        description: description_spec(i),
    }
}

/// How two lists of names compare: by their first names that differ, and a
/// list before every list that it is a proper start of.
pub open spec fn names_order(a: Seq<Seq<char>>, b: Seq<Seq<char>>) -> int
    decreases a.len(),
{
    if a.len() == 0 {
        if b.len() == 0 {
            0
        } else {
            -1
        }
    } else if b.len() == 0 {
        1
    } else if text_order(a[0], b[0]) != 0 {
        text_order(a[0], b[0])
    } else {
        names_order(a.drop_first(), b.drop_first())
    }
}

/// How two interactions compare by the names of their provider states, and
/// by their descriptions where those names are the same.
pub open spec fn plain_order(a: KeyModel, b: KeyModel) -> int {
    if names_order(a.names, b.names) != 0 {
        names_order(a.names, b.names)
    } else {
        text_order(a.description, b.description)
    }
}

/// How two interactions compare. In a pact of version 4, where `keyed`
/// holds, two interactions that both have keys compare by their keys, and
/// any other two by their kinds and then as in earlier pacts. In earlier
/// pacts they compare by the names of their provider states, and by their
/// descriptions where those names are the same.
pub open spec fn key_order(a: KeyModel, b: KeyModel, keyed: bool) -> int {
    if keyed {
        if a.key is Some && b.key is Some {
            text_order(a.key->0, b.key->0)
        } else if text_order(a.kind, b.kind) != 0 {
            text_order(a.kind, b.kind)
        } else {
            plain_order(a, b)
        }
    } else {
        plain_order(a, b)
    }
}

/// Lists of names that agree on their first `k` names compare as what
/// follows those names compares.
proof fn lemma_names_order_skip(a: Seq<Seq<char>>, b: Seq<Seq<char>>, k: int)
    requires
        0 <= k <= a.len(),
        k <= b.len(),
        forall|i: int| 0 <= i < k ==> text_order(#[trigger] a[i], b[i]) == 0,
    ensures
        names_order(a, b) == names_order(a.skip(k), b.skip(k)),
    decreases k,
{
    if k == 0 {
        assert(a.skip(0) == a);
        assert(b.skip(0) == b);
    } else {
        let x = a.drop_first();
        let y = b.drop_first();
        assert forall|i: int| 0 <= i < k - 1 implies text_order(#[trigger] x[i], y[i]) == 0 by {
            assert(x[i] == a[i + 1] && y[i] == b[i + 1]);
            assert(text_order(a[i + 1], b[i + 1]) == 0);
        }
        lemma_names_order_skip(x, y, k - 1);
        assert(x.skip(k - 1) == a.skip(k));
        assert(y.skip(k - 1) == b.skip(k));
    }
}

/// Compares two lists of names: -1, 0 or 1.
pub fn compare_names(a: &Vec<String>, b: &Vec<String>) -> (r: i8)
    ensures
        r == names_order(a.deep_view(), b.deep_view()),
{
    let ghost x = a.deep_view();
    let ghost y = b.deep_view();
    let mut i: usize = 0;
    while i < a.len() && i < b.len()
        invariant
            i <= a.len(),
            i <= b.len(),
            x == a.deep_view(),
            y == b.deep_view(),
            forall|k: int| 0 <= k < i ==> text_order(#[trigger] x[k], y[k]) == 0,
        decreases a.len() - i,
    {
        let c = compare_text(a[i].as_str(), b[i].as_str());
        proof {
            lemma_names_order_skip(x, y, i as int);
            assert(x.skip(i as int)[0] == x[i as int]);
            assert(y.skip(i as int)[0] == y[i as int]);
        }
        if c != 0 {
            return c;
        }
        i += 1;
    }
    proof {
        lemma_names_order_skip(x, y, i as int);
    }
    if i < b.len() {
        -1
    } else if i < a.len() {
        1
    } else {
        0
    }
}

/// Compares two interactions by what decides their places: -1, 0 or 1.
pub fn compare_keys(a: &MergeKey, b: &MergeKey, keyed: bool) -> (r: i8)
    ensures
        r == key_order(a.deep_view(), b.deep_view(), keyed),
{
    if keyed {
        match (&a.key, &b.key) {
            (Some(x), Some(y)) => {
                return compare_text(x.as_str(), y.as_str());
            },
            _ => {},
        }
        let by_kind = compare_text(a.kind.as_str(), b.kind.as_str());
        if by_kind != 0 {
            return by_kind;
        }
    }
    let by_names = compare_names(&a.names, &b.names);
    if by_names != 0 {
        by_names
    } else {
        compare_text(a.description.as_str(), b.description.as_str())
    }
}

/// Compares two interactions by what decides their places, as the standard
/// library names the outcome.
pub fn key_ordering(a: &MergeKey, b: &MergeKey, keyed: bool) -> (r: Ordering)
    ensures
        r is Less <==> key_order(a.deep_view(), b.deep_view(), keyed) < 0,
        r is Equal <==> key_order(a.deep_view(), b.deep_view(), keyed) == 0,
        r is Greater <==> key_order(a.deep_view(), b.deep_view(), keyed) > 0,
{
    let c = compare_keys(a, b, keyed);
    if c < 0 {
        Ordering::Less
    } else if c == 0 {
        Ordering::Equal
    } else {
        Ordering::Greater
    }
}

impl Interaction {
    /// What the place of the interaction in a pact is decided by.
    pub fn merge_key(&self) -> (r: MergeKey)
        ensures
            r.deep_view() == merge_key(self.deep_view()),
    {
        let key = match self {
            Interaction::V4(v) => v.key(),
            _ => None,
        };
        MergeKey {
            key,
            kind: self.type_of(),
            names: names_of(self.provider_states()),
            description: self.description(),
        }
    }
}

/// The keys of interactions, in their order.
pub open spec fn keys_of_all(items: Seq<InteractionModel>) -> Seq<KeyModel> {
    Seq::new(items.len(), |i: int| merge_key(items[i]))
}

/// The number of leading interactions that do not come after `x`: the place
/// at which `x` is put among interactions in their order.
pub open spec fn place_of(sorted: Seq<InteractionModel>, x: InteractionModel, keyed: bool) -> int
    decreases sorted.len(),
{
    if sorted.len() > 0 && key_order(merge_key(sorted[0]), merge_key(x), keyed) <= 0 {
        1 + place_of(sorted.drop_first(), x, keyed)
    } else {
        0
    }
}

/// The interactions in their order: each one put, in turn, behind those
/// that do not come after it.
pub open spec fn in_order(items: Seq<InteractionModel>, keyed: bool) -> Seq<InteractionModel>
    decreases items.len(),
{
    if items.len() == 0 {
        seq![]
    } else {
        let before = in_order(items.drop_last(), keyed);
        before.insert(place_of(before, items.last(), keyed), items.last())
    }
}

/// The place of `x` lies within the interactions.
pub proof fn lemma_place_of(sorted: Seq<InteractionModel>, x: InteractionModel, keyed: bool)
    ensures
        0 <= place_of(sorted, x, keyed) <= sorted.len(),
    decreases sorted.len(),
{
    if sorted.len() > 0 && key_order(merge_key(sorted[0]), merge_key(x), keyed) <= 0 {
        lemma_place_of(sorted.drop_first(), x, keyed);
    }
}

/// The place of `x` among the interactions from `i` on, counted from the
/// start, where none of those before `i` comes after `x`.
proof fn lemma_place_skip(sorted: Seq<InteractionModel>, x: InteractionModel, keyed: bool, i: int)
    requires
        0 <= i <= sorted.len(),
        forall|k: int|
            0 <= k < i ==> key_order(merge_key(#[trigger] sorted[k]), merge_key(x), keyed) <= 0,
    ensures
        place_of(sorted, x, keyed) == i + place_of(sorted.skip(i), x, keyed),
    decreases i,
{
    if i == 0 {
        assert(sorted.skip(0) == sorted);
    } else {
        assert(key_order(merge_key(sorted[0]), merge_key(x), keyed) <= 0);
        let rest = sorted.drop_first();
        assert forall|k: int| 0 <= k < i - 1 implies key_order(
            merge_key(#[trigger] rest[k]),
            merge_key(x),
            keyed,
        ) <= 0 by {
            assert(rest[k] == sorted[k + 1]);
        }
        lemma_place_skip(rest, x, keyed, i - 1);
        assert(rest.skip(i - 1) == sorted.skip(i));
    }
}

/// Puts the interactions of a pact in their order.
pub fn sort_interactions(items: &Vec<Interaction>, keyed: bool) -> (r: Vec<Interaction>)
    ensures
        r.deep_view() == in_order(items.deep_view(), keyed),
{
    let mut sorted: Vec<Interaction> = Vec::new();
    assert(sorted.deep_view() =~= Seq::<InteractionModel>::empty());
    let ghost all = items.deep_view();
    let mut n: usize = 0;
    while n < items.len()
        invariant
            n <= items.len(),
            all == items.deep_view(),
            sorted.len() == n,
            sorted.deep_view() == in_order(all.take(n as int), keyed),
        decreases items.len() - n,
    {
        let item = items[n].duplicate();
        let key = item.merge_key();
        let ghost before = sorted.deep_view();
        let mut p: usize = 0;
        while p < sorted.len() && compare_keys(&sorted[p].merge_key(), &key, keyed) <= 0
            invariant
                p <= sorted.len(),
                before == sorted.deep_view(),
                key.deep_view() == merge_key(item.deep_view()),
                forall|k: int|
                    0 <= k < p ==> key_order(
                        merge_key(#[trigger] before[k]),
                        merge_key(item.deep_view()),
                        keyed,
                    ) <= 0,
            decreases sorted.len() - p,
        {
            proof {
                assert(before[p as int] == sorted@[p as int].deep_view());
            }
            p += 1;
        }
        proof {
            lemma_place_skip(before, item.deep_view(), keyed, p as int);
            if p < before.len() {
                assert(before.skip(p as int)[0] == before[p as int]);
                assert(before[p as int] == sorted@[p as int].deep_view());
            }
            let next = all.take(n + 1);
            assert(next.drop_last() == all.take(n as int));
            assert(next.last() == items@[n as int].deep_view());
        }
        sorted.insert(p, item);
        proof {
            assert(sorted.deep_view() =~= before.insert(p as int, item.deep_view()));
        }
        n += 1;
    }
    proof {
        assert(all.take(items.len() as int) == all);
    }
    sorted
}

/// One step of the join of two lists: an item of the left list alone, an
/// item of the right list alone, or an item of each; each by its position.
#[derive(Debug, Clone, Copy, PartialEq, Eq)]
pub enum Joined {
    Left(usize),
    Right(usize),
    Both(usize, usize),
}

/// The join of the keys `left` from position `i` on with the keys `right`
/// from position `j` on. At each step the first keys of both are compared:
/// the one that comes first is taken alone, and two that compare as equal
/// are taken together. Once one list has ended, the keys of the other are
/// taken alone.
pub open spec fn joined(left: Seq<KeyModel>, right: Seq<KeyModel>, keyed: bool, i: int, j: int) -> Seq<
    Joined,
>
    decreases (if i < left.len() { left.len() - i } else { 0 }) + (if j < right.len() {
        right.len() - j
    } else {
        0
    }),
{
    if i < 0 || j < 0 || (i >= left.len() && j >= right.len()) {
        seq![]
    } else if i >= left.len() {
        seq![Joined::Right(j as usize)] + joined(left, right, keyed, i, j + 1)
    } else if j >= right.len() {
        seq![Joined::Left(i as usize)] + joined(left, right, keyed, i + 1, j)
    } else if key_order(left[i], right[j], keyed) < 0 {
        seq![Joined::Left(i as usize)] + joined(left, right, keyed, i + 1, j)
    } else if key_order(left[i], right[j], keyed) > 0 {
        seq![Joined::Right(j as usize)] + joined(left, right, keyed, i, j + 1)
    } else {
        seq![Joined::Both(i as usize, j as usize)] + joined(left, right, keyed, i + 1, j + 1)
    }
}

/// Calls `Itertools::merge_join_by` on the keys of two lists, each with its
/// position, and has them compared by `key_ordering`. The crate compares the
/// first items of both lists at each step, gives the smaller one alone or
/// two equal ones together, and gives what is left of one list once the
/// other has ended; each step is handed back by its positions.
#[verifier::external_body]
pub(crate) fn merge_join(left: &Vec<MergeKey>, right: &Vec<MergeKey>, keyed: bool) -> (r: Vec<
    Joined,
>)
    ensures
        r@ == joined(left.deep_view(), right.deep_view(), keyed, 0, 0),
{
    let steps = itertools::Itertools::merge_join_by(
        left.iter().enumerate(),
        right.iter().enumerate(),
        |a, b| key_ordering(a.1, b.1, keyed),
    );
    steps.map(|step| match step {
        itertools::EitherOrBoth::Left(a) => Joined::Left(a.0),
        itertools::EitherOrBoth::Right(b) => Joined::Right(b.0),
        itertools::EitherOrBoth::Both(a, b) => Joined::Both(a.0, b.0),
    }).collect()
}

/// Every step of a join names positions within the two lists.
pub open spec fn steps_within(steps: Seq<Joined>, left: int, right: int) -> bool {
    forall|k: int|
        0 <= k < steps.len() ==> match #[trigger] steps[k] {
            Joined::Left(i) => i < left,
            Joined::Right(j) => j < right,
            Joined::Both(i, j) => i < left && j < right,
        }
}

/// The steps of a join name positions within the two lists.
pub proof fn lemma_joined_within(left: Seq<KeyModel>, right: Seq<KeyModel>, keyed: bool, i: int, j: int)
    requires
        0 <= i,
        0 <= j,
        left.len() <= usize::MAX,
        right.len() <= usize::MAX,
    ensures
        steps_within(joined(left, right, keyed, i, j), left.len() as int, right.len() as int),
    decreases (if i < left.len() { left.len() - i } else { 0 }) + (if j < right.len() {
        right.len() - j
    } else {
        0
    }),
{
    let steps = joined(left, right, keyed, i, j);
    if i >= left.len() && j >= right.len() {
    } else {
        let (ni, nj) = if i >= left.len() {
            (i, j + 1)
        } else if j >= right.len() {
            (i + 1, j)
        } else if key_order(left[i], right[j], keyed) < 0 {
            (i + 1, j)
        } else if key_order(left[i], right[j], keyed) > 0 {
            (i, j + 1)
        } else {
            (i + 1, j + 1)
        };
        lemma_joined_within(left, right, keyed, ni, nj);
        let rest = joined(left, right, keyed, ni, nj);
        assert forall|k: int| 0 <= k < steps.len() implies match #[trigger] steps[k] {
            Joined::Left(a) => a < left.len(),
            Joined::Right(b) => b < right.len(),
            Joined::Both(a, b) => a < left.len() && b < right.len(),
        } by {
            if k > 0 {
                assert(steps[k] == rest[k - 1]);
            }
        }
    }
}

/// The interaction that one step of a join gives: the one of the left list
/// where the step has one, else the one of the right list.
pub open spec fn step_item(
    step: Joined,
    left: Seq<InteractionModel>,
    right: Seq<InteractionModel>,
) -> InteractionModel {
    match step {
        Joined::Left(i) => left[i as int],
        Joined::Right(j) => right[j as int],
        Joined::Both(i, _) => left[i as int],
    }
}

/// The interactions that the steps of a join give: what is in one list
/// alone is kept, and of what is in both the one of the left list.
pub open spec fn join_items(
    steps: Seq<Joined>,
    left: Seq<InteractionModel>,
    right: Seq<InteractionModel>,
) -> Seq<InteractionModel> {
    Seq::new(steps.len(), |k: int| step_item(steps[k], left, right))
}

/// The interactions of two pacts merged: both lists in their order, joined,
/// with the left one of any two that compare as equal.
pub open spec fn merged(left: Seq<InteractionModel>, right: Seq<InteractionModel>, keyed: bool) -> Seq<
    InteractionModel,
> {
    let a = in_order(left, keyed);
    let b = in_order(right, keyed);
    join_items(joined(keys_of_all(a), keys_of_all(b), keyed, 0, 0), a, b)
}

/// The keys of interactions, in their order.
fn keys_of_interactions(items: &Vec<Interaction>) -> (r: Vec<MergeKey>)
    ensures
        r.deep_view() == keys_of_all(items.deep_view()),
{
    let mut r: Vec<MergeKey> = Vec::new();
    let ghost all = keys_of_all(items.deep_view());
    let mut i: usize = 0;
    while i < items.len()
        invariant
            i <= items.len(),
            all == keys_of_all(items.deep_view()),
            r.deep_view() == all.take(i as int),
        decreases items.len() - i,
    {
        let key = items[i].merge_key();
        let ghost before = r.deep_view();
        r.push(key);
        proof {
            assert(r.deep_view() =~= before.push(key.deep_view()));
            assert(all.take(i + 1) == all.take(i as int).push(all[i as int]));
        }
        i += 1;
    }
    proof {
        assert(all.take(items.len() as int) == all);
    }
    r
}

/// Merges the interactions of two pacts: puts both lists in their order and
/// joins them, keeping what is in one alone and, of what is in both, the
/// one of the left list.
pub fn merge_interactions(left: &Vec<Interaction>, right: &Vec<Interaction>, keyed: bool) -> (r:
    Vec<Interaction>)
    ensures
        r.deep_view() == merged(left.deep_view(), right.deep_view(), keyed),
{
    let a = sort_interactions(left, keyed);
    let b = sort_interactions(right, keyed);
    let left_keys = keys_of_interactions(&a);
    let right_keys = keys_of_interactions(&b);
    let steps = merge_join(&left_keys, &right_keys, keyed);
    proof {
        assert(left_keys.deep_view().len() == left_keys.len());
        assert(right_keys.deep_view().len() == right_keys.len());
        assert(left_keys.len() == a.len() && right_keys.len() == b.len());
        lemma_joined_within(left_keys.deep_view(), right_keys.deep_view(), keyed, 0, 0);
    }
    let ghost all = join_items(steps@, a.deep_view(), b.deep_view());
    let mut r: Vec<Interaction> = Vec::new();
    let mut k: usize = 0;
    while k < steps.len()
        invariant
            k <= steps.len(),
            steps_within(steps@, a.len() as int, b.len() as int),
            all == join_items(steps@, a.deep_view(), b.deep_view()),
            r.deep_view() == all.take(k as int),
        decreases steps.len() - k,
    {
        let item = match steps[k] {
            Joined::Left(i) => a[i].duplicate(),
            Joined::Right(j) => b[j].duplicate(),
            Joined::Both(i, _) => a[i].duplicate(),
        };
        let ghost before = r.deep_view();
        r.push(item);
        proof {
            assert(r.deep_view() =~= before.push(item.deep_view()));
            assert(all.take(k + 1) == all.take(k as int).push(all[k as int]));
        }
        k += 1;
    }
    proof {
        assert(all.take(steps.len() as int) == all);
    }
    r
}

/// Why two pacts cannot be merged.
#[derive(Debug, PartialEq, Eq)]
pub enum MergeError {
    /// The pacts are not between the same consumer and provider.
    DifferentEndpoints,
    /// Interactions of the two pacts conflict: for each pair that does, its
    /// conflicts.
    Conflicts(Vec<Vec<PactConflict>>),
    /// Interactions of the other pact are of a kind that this pact cannot
    /// hold: for each of them, why.
    TypeMismatch(Vec<String>),
}

/// The mathematical value of a `MergeError`.
pub enum MergeFault {
    DifferentEndpoints,
    Conflicts(Seq<Seq<ConflictModel>>),
    TypeMismatch(Seq<Seq<char>>),
}

impl DeepView for MergeError {
    type V = MergeFault;

    open spec fn deep_view(&self) -> MergeFault {
        match self {
            MergeError::DifferentEndpoints => MergeFault::DifferentEndpoints,
            MergeError::Conflicts(c) => MergeFault::Conflicts(c.deep_view()),
            MergeError::TypeMismatch(m) => MergeFault::TypeMismatch(m.deep_view()),
        }
    }
}

/// The words in which a failed merge is reported.
pub open spec fn fault_text(fault: MergeFault) -> Seq<char> {
    match fault {
        MergeFault::DifferentEndpoints =>
            "Unable to merge pacts, as they have different consumers or providers"@,
        MergeFault::Conflicts(c) => "Unable to merge pacts, as there were "@ + decimal(c.len())
            + " conflict(s) between the interactions. Please clean out your pact directory before running the tests."@,
        MergeFault::TypeMismatch(m) => "Unable to merge pacts: "@ + joined_text(m, ", "@),
    }
}

impl MergeError {
    /// Reports the failed merge in words.
    pub fn message(&self) -> (r: String)
        ensures
            r@ == fault_text(self.deep_view()),
    {
        match self {
            MergeError::DifferentEndpoints =>
                "Unable to merge pacts, as they have different consumers or providers".to_owned(),
            MergeError::Conflicts(c) => {
                let mut r = "Unable to merge pacts, as there were ".to_owned();
                r.append(decimal_string(c.len()).as_str());
                r.append(
                    " conflict(s) between the interactions. Please clean out your pact directory before running the tests.",
                );
                r
            },
            MergeError::TypeMismatch(m) => {
                let mut r = "Unable to merge pacts: ".to_owned();
                r.append(join(m, ", ").as_str());
                r
            },
        }
    }
}

/// The conflicts of the interaction `x` with the first `n` of the
/// interactions `right`: for each one that it conflicts with, the
/// conflicts.
pub open spec fn row_conflicts(x: RequestResponseModel, right: Seq<InteractionModel>, n: nat) -> Seq<
    Seq<ConflictModel>,
>
    decreases n,
{
    if n == 0 {
        seq![]
    } else if conflicts_spec(x, right[n - 1]).len() > 0 {
        row_conflicts(x, right, (n - 1) as nat).push(conflicts_spec(x, right[n - 1]))
    } else {
        row_conflicts(x, right, (n - 1) as nat)
    }
}

/// The conflicts of the first `m` of the interactions `left` with the
/// interactions `right`: every one of the former is compared with every one
/// of the latter.
pub open spec fn all_conflicts(
    left: Seq<RequestResponseModel>,
    right: Seq<InteractionModel>,
    m: nat,
) -> Seq<Seq<ConflictModel>>
    decreases m,
{
    if m == 0 {
        seq![]
    } else {
        all_conflicts(left, right, (m - 1) as nat) + row_conflicts(
            left[m - 1],
            right,
            right.len(),
        )
    }
}

/// The message for an interaction that a pact of requests and responses
/// cannot hold.
pub open spec fn mismatch_text(i: InteractionModel) -> Seq<char> {
    "Can't convert interaction of type "@ + kind_name(i) + " to V3 Synchronous/HTTP"@
}

/// The messages for those of the interactions that a pact of requests and
/// responses cannot hold.
pub open spec fn type_mismatches(items: Seq<InteractionModel>) -> Seq<Seq<char>>
    decreases items.len(),
{
    if items.len() == 0 {
        seq![]
    } else if as_request_response_spec(items.last()) is None {
        type_mismatches(items.drop_last()).push(mismatch_text(items.last()))
    } else {
        type_mismatches(items.drop_last())
    }
}

/// Those of the interactions that are of a request and a response, as
/// versions 1 to 3 hold them.
pub open spec fn request_responses(items: Seq<InteractionModel>) -> Seq<RequestResponseModel>
    decreases items.len(),
{
    if items.len() == 0 {
        seq![]
    } else {
        match as_request_response_spec(items.last()) {
            Some(r) => request_responses(items.drop_last()).push(r),
            None => request_responses(items.drop_last()),
        }
    }
}

/// Interactions of requests and responses as interactions of any kind.
pub open spec fn wrapped(items: Seq<RequestResponseModel>) -> Seq<InteractionModel> {
    Seq::new(items.len(), |i: int| InteractionModel::RequestResponse(items[i]))
}

/// The pact that merging the pact `a` with the pact `b` gives. The two must
/// be between the same consumer and provider, and no interaction of `a` may
/// conflict with one of `b`. The interactions of both are then put in their
/// order and joined: what is in one pact alone is kept, and of two
/// interactions with the same provider states and description the one of
/// `a`. An interaction of `b` that is not of a request and a response makes
/// the merge fail.
pub open spec fn request_response_merge(a: RequestResponsePactModel, b: PactModel) -> Result<
    RequestResponsePactModel,
    MergeFault,
> {
    let others = pact_interactions(b);
    let conflicts = all_conflicts(a.interactions, others, a.interactions.len());
    let all = merged(wrapped(a.interactions), others, false);
    if a.consumer != pact_consumer(b) || a.provider != pact_provider(b) {
        Err(MergeFault::DifferentEndpoints)
    } else if conflicts.len() > 0 {
        Err(MergeFault::Conflicts(conflicts))
    } else if type_mismatches(all).len() > 0 {
        Err(MergeFault::TypeMismatch(type_mismatches(all)))
    } else {
        Ok(RequestResponsePactModel { interactions: request_responses(all), ..a })
    }
}

/// Interactions of version 4 as interactions of any kind.
pub open spec fn wrapped_v4(items: Seq<V4Model>) -> Seq<InteractionModel> {
    Seq::new(items.len(), |i: int| InteractionModel::V4(items[i]))
}

/// The interactions as version 4 holds them, each as an interaction of any
/// kind.
pub open spec fn all_as_v4(items: Seq<InteractionModel>) -> Seq<InteractionModel> {
    Seq::new(
        items.len(),
        |i: int|
            match as_v4_spec(items[i]) {
                Some(v) => InteractionModel::V4(v),
                None => items[i],
            },
    )
}

/// The interactions of version 4 among interactions of any kind.
pub open spec fn v4_of(items: Seq<InteractionModel>) -> Seq<V4Model>
    decreases items.len(),
{
    if items.len() == 0 {
        seq![]
    } else {
        match items.last() {
            InteractionModel::V4(v) => v4_of(items.drop_last()).push(v),
            _ => v4_of(items.drop_last()),
        }
    }
}

/// Those of the interactions of version 4 that are of a request and a
/// response, as versions 1 to 3 hold them.
pub open spec fn http_of(items: Seq<V4Model>) -> Seq<RequestResponseModel>
    decreases items.len(),
{
    if items.len() == 0 {
        seq![]
    } else {
        match items.last() {
            V4Model::SynchronousHttp(h) => http_of(items.drop_last()).push(
                http_as_request_response(h),
            ),
            _ => http_of(items.drop_last()),
        }
    }
}

/// Those of the interactions that are of a request and a response of
/// version 4, each as an interaction of any kind.
pub open spec fn http_only(items: Seq<InteractionModel>) -> Seq<InteractionModel>
    decreases items.len(),
{
    if items.len() == 0 {
        seq![]
    } else {
        match items.last() {
            InteractionModel::V4(V4Model::SynchronousHttp(_)) => http_only(items.drop_last()).push(
                items.last(),
            ),
            _ => http_only(items.drop_last()),
        }
    }
}

/// The pact that merging the pact `a` of version 4 with the pact `b` gives.
/// The two must be between the same consumer and provider, and no
/// interaction of a request and a response of `a` may conflict with one of
/// `b`. The interactions of both, as version 4 holds them, are then put in
/// their order and joined: what is in one pact alone is kept, and of two
/// interactions that compare as equal the one of `a`.
pub open spec fn v4_merge(a: V4PactModel, b: PactModel) -> Result<V4PactModel, MergeFault> {
    let others = all_as_v4(pact_interactions(b));
    let conflicts = all_conflicts(http_of(a.interactions), http_only(others), http_of(
        a.interactions,
    ).len());
    if a.consumer != pact_consumer(b) || a.provider != pact_provider(b) {
        Err(MergeFault::DifferentEndpoints)
    } else if conflicts.len() > 0 {
        Err(MergeFault::Conflicts(conflicts))
    } else {
        Ok(
            V4PactModel {
                interactions: v4_of(merged(wrapped_v4(a.interactions), others, true)),
                ..a
            },
        )
    }
}

/// Finds the conflicts of every one of the interactions `left` with every
/// one of the interactions `right`.
pub fn find_conflicts(left: &Vec<RequestResponseInteraction>, right: &Vec<Interaction>) -> (r: Vec<
    Vec<PactConflict>,
>)
    ensures
        r.deep_view() == all_conflicts(left.deep_view(), right.deep_view(), left.deep_view().len()),
{
    let mut conflicts: Vec<Vec<PactConflict>> = Vec::new();
    assert(conflicts.deep_view() =~= Seq::<Seq<ConflictModel>>::empty());
    let ghost a = left.deep_view();
    let ghost b = right.deep_view();
    let mut i: usize = 0;
    while i < left.len()
        invariant
            i <= left.len(),
            a == left.deep_view(),
            b == right.deep_view(),
            conflicts.deep_view() == all_conflicts(a, b, i as nat),
        decreases left.len() - i,
    {
        let ghost done = conflicts.deep_view();
        let mut j: usize = 0;
        proof {
            assert(done + row_conflicts(a[i as int], b, 0) == done);
        }
        while j < right.len()
            invariant
                i < left.len(),
                j <= right.len(),
                a == left.deep_view(),
                b == right.deep_view(),
                conflicts.deep_view() == done + row_conflicts(a[i as int], b, j as nat),
            decreases right.len() - j,
        {
            let found = left[i].conflicts_with(&right[j]);
            proof {
                assert(a[i as int] == left@[i as int].deep_view());
                assert(b[j as int] == right@[j as int].deep_view());
            }
            if found.len() > 0 {
                let ghost before = conflicts.deep_view();
                conflicts.push(found);
                proof {
                    assert(conflicts.deep_view() =~= before.push(found.deep_view()));
                    assert(done + row_conflicts(a[i as int], b, j as nat).push(found.deep_view())
                        == (done + row_conflicts(a[i as int], b, j as nat)).push(
                        found.deep_view(),
                    ));
                }
            }
            j += 1;
        }
        proof {
            assert(b.len() == right.len());
        }
        i += 1;
    }
    conflicts
}

/// Interactions of requests and responses as interactions of any kind.
fn wrap_all(items: &Vec<RequestResponseInteraction>) -> (r: Vec<Interaction>)
    ensures
        r.deep_view() == wrapped(items.deep_view()),
{
    let mut r: Vec<Interaction> = Vec::new();
    let ghost all = wrapped(items.deep_view());
    let mut i: usize = 0;
    while i < items.len()
        invariant
            i <= items.len(),
            all == wrapped(items.deep_view()),
            r.deep_view() == all.take(i as int),
        decreases items.len() - i,
    {
        let item = Interaction::RequestResponse(items[i].duplicate());
        let ghost before = r.deep_view();
        r.push(item);
        proof {
            assert(r.deep_view() =~= before.push(item.deep_view()));
            assert(all.take(i + 1) == all.take(i as int).push(all[i as int]));
        }
        i += 1;
    }
    proof {
        assert(all.take(items.len() as int) == all);
    }
    r
}

/// Interactions of version 4 as interactions of any kind.
fn wrap_all_v4(items: &Vec<V4Interaction>) -> (r: Vec<Interaction>)
    ensures
        r.deep_view() == wrapped_v4(items.deep_view()),
{
    let mut r: Vec<Interaction> = Vec::new();
    let ghost all = wrapped_v4(items.deep_view());
    let mut i: usize = 0;
    while i < items.len()
        invariant
            i <= items.len(),
            all == wrapped_v4(items.deep_view()),
            r.deep_view() == all.take(i as int),
        decreases items.len() - i,
    {
        let item = Interaction::V4(items[i].duplicate());
        let ghost before = r.deep_view();
        r.push(item);
        proof {
            assert(r.deep_view() =~= before.push(item.deep_view()));
            assert(all.take(i + 1) == all.take(i as int).push(all[i as int]));
        }
        i += 1;
    }
    proof {
        assert(all.take(items.len() as int) == all);
    }
    r
}

/// Gives from interactions of any kind those of a request and a response,
/// and for every other one the message that says so.
fn split_request_responses(items: &Vec<Interaction>) -> (r: (
    Vec<RequestResponseInteraction>,
    Vec<String>,
))
    ensures
        r.0.deep_view() == request_responses(items.deep_view()),
        r.1.deep_view() == type_mismatches(items.deep_view()),
{
    let mut kept: Vec<RequestResponseInteraction> = Vec::new();
    let mut errors: Vec<String> = Vec::new();
    assert(kept.deep_view() =~= Seq::<RequestResponseModel>::empty());
    assert(errors.deep_view() =~= Seq::<Seq<char>>::empty());
    let ghost all = items.deep_view();
    let mut i: usize = 0;
    while i < items.len()
        invariant
            i <= items.len(),
            all == items.deep_view(),
            kept.deep_view() == request_responses(all.take(i as int)),
            errors.deep_view() == type_mismatches(all.take(i as int)),
        decreases items.len() - i,
    {
        proof {
            let next = all.take(i + 1);
            assert(next.drop_last() == all.take(i as int));
            assert(next.last() == items@[i as int].deep_view());
        }
        match items[i].as_request_response() {
            Some(found) => {
                let ghost before = kept.deep_view();
                kept.push(found);
                assert(kept.deep_view() =~= before.push(found.deep_view()));
            },
            None => {
                let mut message = "Can't convert interaction of type ".to_owned();
                message.append(items[i].type_of().as_str());
                message.append(" to V3 Synchronous/HTTP");
                let ghost before = errors.deep_view();
                errors.push(message);
                assert(errors.deep_view() =~= before.push(message@));
            },
        }
        i += 1;
    }
    proof {
        assert(all.take(items.len() as int) == all);
    }
    (kept, errors)
}

impl RequestResponsePact {
    /// Merges this pact with another one into a new pact, whose
    /// interactions are in their order.
    pub fn merge(&self, pact: &Pact) -> (r: Result<RequestResponsePact, MergeError>)
        ensures
            match r {
                Ok(merged) => request_response_merge(self.deep_view(), pact.deep_view()) == Ok::<
                    RequestResponsePactModel,
                    MergeFault,
                >(merged.deep_view()),
                Err(e) => request_response_merge(self.deep_view(), pact.deep_view()) == Err::<
                    RequestResponsePactModel,
                    MergeFault,
                >(e.deep_view()),
            },
    {
        if !(self.consumer.name == pact.consumer().name && self.provider.name
            == pact.provider().name) {
            return Err(MergeError::DifferentEndpoints);
        }
        let others = pact.interactions();
        let conflicts = find_conflicts(&self.interactions, &others);
        if conflicts.len() > 0 {
            return Err(MergeError::Conflicts(conflicts));
        }
        let all = merge_interactions(&wrap_all(&self.interactions), &others, false);
        let (interactions, errors) = split_request_responses(&all);
        if errors.len() > 0 {
            return Err(MergeError::TypeMismatch(errors));
        }
        Ok(
            RequestResponsePact {
                consumer: Consumer { name: self.consumer.name.clone() },
                provider: Provider { name: self.provider.name.clone() },
                interactions,
                metadata: self.metadata.duplicate(),
                specification_version: self.specification_version,
            },
        )
    }
}

/// Gives from interactions of version 4 those of a request and a response,
/// as versions 1 to 3 hold them.
fn http_of_all(items: &Vec<V4Interaction>) -> (r: Vec<RequestResponseInteraction>)
    ensures
        r.deep_view() == http_of(items.deep_view()),
{
    let mut r: Vec<RequestResponseInteraction> = Vec::new();
    assert(r.deep_view() =~= Seq::<RequestResponseModel>::empty());
    let ghost all = items.deep_view();
    let mut i: usize = 0;
    while i < items.len()
        invariant
            i <= items.len(),
            all == items.deep_view(),
            r.deep_view() == http_of(all.take(i as int)),
        decreases items.len() - i,
    {
        proof {
            let next = all.take(i + 1);
            assert(next.drop_last() == all.take(i as int));
            assert(next.last() == items@[i as int].deep_view());
        }
        match &items[i] {
            V4Interaction::SynchronousHttp(h) => {
                let found = h.as_request_response();
                let ghost before = r.deep_view();
                r.push(found);
                assert(r.deep_view() =~= before.push(found.deep_view()));
            },
            _ => {},
        }
        i += 1;
    }
    proof {
        assert(all.take(items.len() as int) == all);
    }
    r
}

/// Gives from interactions of any kind those of a request and a response
/// of version 4.
fn http_only_of(items: &Vec<Interaction>) -> (r: Vec<Interaction>)
    ensures
        r.deep_view() == http_only(items.deep_view()),
{
    let mut r: Vec<Interaction> = Vec::new();
    assert(r.deep_view() =~= Seq::<InteractionModel>::empty());
    let ghost all = items.deep_view();
    let mut i: usize = 0;
    while i < items.len()
        invariant
            i <= items.len(),
            all == items.deep_view(),
            r.deep_view() == http_only(all.take(i as int)),
        decreases items.len() - i,
    {
        proof {
            let next = all.take(i + 1);
            assert(next.drop_last() == all.take(i as int));
            assert(next.last() == items@[i as int].deep_view());
        }
        match &items[i] {
            Interaction::V4(V4Interaction::SynchronousHttp(_)) => {
                let found = items[i].duplicate();
                let ghost before = r.deep_view();
                r.push(found);
                assert(r.deep_view() =~= before.push(found.deep_view()));
            },
            _ => {},
        }
        i += 1;
    }
    proof {
        assert(all.take(items.len() as int) == all);
    }
    r
}

/// Gives interactions of any kind as version 4 holds them.
fn as_v4_all(items: &Vec<Interaction>) -> (r: Vec<Interaction>)
    ensures
        r.deep_view() == all_as_v4(items.deep_view()),
{
    let mut r: Vec<Interaction> = Vec::new();
    let ghost all = all_as_v4(items.deep_view());
    let mut i: usize = 0;
    while i < items.len()
        invariant
            i <= items.len(),
            all == all_as_v4(items.deep_view()),
            r.deep_view() == all.take(i as int),
        decreases items.len() - i,
    {
        let item = match items[i].as_v4() {
            Some(v) => Interaction::V4(v),
            None => items[i].duplicate(),
        };
        let ghost before = r.deep_view();
        r.push(item);
        proof {
            assert(r.deep_view() =~= before.push(item.deep_view()));
            assert(all.take(i + 1) == all.take(i as int).push(all[i as int]));
        }
        i += 1;
    }
    proof {
        assert(all.take(items.len() as int) == all);
    }
    r
}

/// Gives from interactions of any kind those of version 4.
fn v4_of_all(items: &Vec<Interaction>) -> (r: Vec<V4Interaction>)
    ensures
        r.deep_view() == v4_of(items.deep_view()),
{
    let mut r: Vec<V4Interaction> = Vec::new();
    assert(r.deep_view() =~= Seq::<V4Model>::empty());
    let ghost all = items.deep_view();
    let mut i: usize = 0;
    while i < items.len()
        invariant
            i <= items.len(),
            all == items.deep_view(),
            r.deep_view() == v4_of(all.take(i as int)),
        decreases items.len() - i,
    {
        proof {
            let next = all.take(i + 1);
            assert(next.drop_last() == all.take(i as int));
            assert(next.last() == items@[i as int].deep_view());
        }
        match &items[i] {
            Interaction::V4(v) => {
                let found = v.duplicate();
                let ghost before = r.deep_view();
                r.push(found);
                assert(r.deep_view() =~= before.push(found.deep_view()));
            },
            _ => {},
        }
        i += 1;
    }
    proof {
        assert(all.take(items.len() as int) == all);
    }
    r
}

impl V4Pact {
    /// Merges this pact with another one into a new pact, whose
    /// interactions are in their order.
    pub fn merge(&self, other: &Pact) -> (r: Result<V4Pact, MergeError>)
        ensures
            match r {
                Ok(merged) => v4_merge(self.deep_view(), other.deep_view()) == Ok::<
                    V4PactModel,
                    MergeFault,
                >(merged.deep_view()),
                Err(e) => v4_merge(self.deep_view(), other.deep_view()) == Err::<
                    V4PactModel,
                    MergeFault,
                >(e.deep_view()),
            },
    {
        if !(self.consumer.name == other.consumer().name && self.provider.name
            == other.provider().name) {
            return Err(MergeError::DifferentEndpoints);
        }
        let others = as_v4_all(&other.interactions());
        let conflicts = find_conflicts(&http_of_all(&self.interactions), &http_only_of(&others));
        if conflicts.len() > 0 {
            return Err(MergeError::Conflicts(conflicts));
        }
        let all = merge_interactions(&wrap_all_v4(&self.interactions), &others, true);
        Ok(
            V4Pact {
                consumer: Consumer { name: self.consumer.name.clone() },
                provider: Provider { name: self.provider.name.clone() },
                interactions: v4_of_all(&all),
                metadata: self.metadata.duplicate(),
            },
        )
    }
}

/// The pact that merging the pact `a` with the pact `b` gives, each of any
/// kind. A pact of messages can be merged as a pact of version 4 only.
pub open spec fn pact_merge(a: PactModel, b: PactModel) -> Result<PactModel, MergeFault> {
    match a {
        PactModel::RequestResponse(p) => match request_response_merge(p, b) {
            Ok(m) => Ok(PactModel::RequestResponse(m)),
            Err(e) => Err(e),
        },
        PactModel::V4(p) => match v4_merge(p, b) {
            Ok(m) => Ok(PactModel::V4(m)),
            Err(e) => Err(e),
        },
        PactModel::Message(p) => match v4_merge(crate::pacts::message_pact_as_v4(p), b) {
            Ok(m) => Ok(PactModel::V4(m)),
            Err(e) => Err(e),
        },
    }
}

impl Pact {
    /// Merges this pact with another one into a new pact.
    pub fn merge(&self, other: &Pact) -> (r: Result<Pact, MergeError>)
        ensures
            match r {
                Ok(merged) => pact_merge(self.deep_view(), other.deep_view()) == Ok::<
                    PactModel,
                    MergeFault,
                >(merged.deep_view()),
                Err(e) => pact_merge(self.deep_view(), other.deep_view()) == Err::<
                    PactModel,
                    MergeFault,
                >(e.deep_view()),
            },
    {
        match self {
            Pact::RequestResponse(p) => match p.merge(other) {
                Ok(m) => Ok(Pact::RequestResponse(m)),
                Err(e) => Err(e),
            },
            Pact::V4(p) => match p.merge(other) {
                Ok(m) => Ok(Pact::V4(m)),
                Err(e) => Err(e),
            },
            Pact::Message(p) => match p.as_v4_pact().merge(other) {
                Ok(m) => Ok(Pact::V4(m)),
                Err(e) => Err(e),
            },
        }
    }
}

} // verus!
