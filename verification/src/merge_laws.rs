//! What holds of every merge of two pacts.

use vstd::prelude::*;
use crate::interactions::{
    as_request_response_spec, conflicting, conflicts_from, conflicts_spec,
    request_response_conflicts, ConflictModel, InteractionModel, RequestResponseModel, V4Model,
};
use crate::merge::{
    all_as_v4, all_conflicts, http_of, http_only, in_order, join_items, joined, key_order,
    keys_of_all, lemma_place_of, merge_key, merged, names_order, place_of,
    request_response_merge, request_responses, row_conflicts, step_item, type_mismatches,
    v4_merge, v4_of, wrapped, wrapped_v4, Joined, KeyModel, MergeFault,
};
use crate::models::{
    request_differences, response_differences, versus, Difference, DifferenceType,
};
use crate::provider_states::state_names;
use crate::pacts::{
    pact_consumer, pact_interactions, pact_provider, PactModel, RequestResponsePactModel,
    V4PactModel,
};
use crate::text::{
    lemma_text_order_equal, lemma_text_order_flip, lemma_text_order_transitive, text_order,
};

verus! {

/// A list of names compares as equal with itself.
pub proof fn lemma_names_order_reflexive(a: Seq<Seq<char>>)
    ensures
        names_order(a, a) == 0,
    decreases a.len(),
{
    if a.len() > 0 {
        lemma_text_order_equal(a[0], a[0]);
        lemma_names_order_reflexive(a.drop_first());
    }
}

/// Lists of names that compare as equal have the same length.
pub proof fn lemma_names_order_equal(a: Seq<Seq<char>>, b: Seq<Seq<char>>)
    ensures
        names_order(a, b) == 0 ==> a == b,
    decreases a.len(),
{
    if a.len() > 0 && b.len() > 0 {
        lemma_text_order_equal(a[0], b[0]);
        lemma_names_order_equal(a.drop_first(), b.drop_first());
        if names_order(a, b) == 0 {
            assert(a =~= seq![a[0]] + a.drop_first());
            assert(b =~= seq![b[0]] + b.drop_first());
        }
    } else if a.len() == 0 && b.len() == 0 {
        assert(a =~= b);
    }
}

/// An interaction compares as equal with itself.
pub proof fn lemma_key_order_reflexive(k: KeyModel, keyed: bool)
    ensures
        key_order(k, k, keyed) == 0,
{
    lemma_names_order_reflexive(k.names);
    lemma_text_order_equal(k.description, k.description);
    lemma_text_order_equal(k.kind, k.kind);
    if k.key is Some {
        lemma_text_order_equal(k.key->0, k.key->0);
    }
}

/// In a pact of versions 1 to 3, two interactions that compare as equal
/// have the same description.
pub proof fn lemma_plain_order_equal(a: KeyModel, b: KeyModel)
    ensures
        key_order(a, b, false) == 0 ==> a.description == b.description && a.names == b.names,
{
    lemma_names_order_equal(a.names, b.names);
    lemma_text_order_equal(a.description, b.description);
}

/// Putting interactions in their order keeps their number and every one of
/// them, as often as it occurs.
pub proof fn lemma_in_order_same_items(items: Seq<InteractionModel>, keyed: bool)
    ensures
        in_order(items, keyed).len() == items.len(),
        in_order(items, keyed).to_multiset() == items.to_multiset(),
    decreases items.len(),
{
    if items.len() > 0 {
        let init = items.drop_last();
        let before = in_order(init, keyed);
        lemma_in_order_same_items(init, keyed);
        lemma_place_of(before, items.last(), keyed);
        let p = place_of(before, items.last(), keyed);
        assert(items =~= init.push(items.last()));
        vstd::seq_lib::to_multiset_insert(before, p, items.last());
        vstd::seq_lib::to_multiset_build(init, items.last());
        assert(in_order(items, keyed) == before.insert(p, items.last()));
    } else {
        assert(items =~= Seq::<InteractionModel>::empty());
        assert(in_order(items, keyed) =~= items);
    }
}

/// Every interaction of a list in its order is one of the list.
pub proof fn lemma_in_order_member(items: Seq<InteractionModel>, keyed: bool, k: int)
    requires
        0 <= k < in_order(items, keyed).len(),
    ensures
        items.contains(in_order(items, keyed)[k]),
{
    lemma_in_order_same_items(items, keyed);
    let sorted = in_order(items, keyed);
    let x = sorted[k];
    assert(sorted.contains(x));
    vstd::seq_lib::to_multiset_contains(sorted, x);
    vstd::seq_lib::to_multiset_contains(items, x);
}

/// The join of a list of keys with itself takes every key together with
/// itself.
pub proof fn lemma_join_self(keys: Seq<KeyModel>, keyed: bool, i: int)
    requires
        0 <= i <= keys.len() <= usize::MAX,
    ensures
        joined(keys, keys, keyed, i, i).len() == keys.len() - i,
        forall|t: int|
            0 <= t < keys.len() - i ==> (#[trigger] joined(keys, keys, keyed, i, i)[t])
                == Joined::Both((i + t) as usize, (i + t) as usize),
    decreases keys.len() - i,
{
    if i < keys.len() {
        lemma_key_order_reflexive(keys[i], keyed);
        lemma_join_self(keys, keyed, i + 1);
        let rest = joined(keys, keys, keyed, i + 1, i + 1);
        let all = joined(keys, keys, keyed, i, i);
        assert(all == seq![Joined::Both(i as usize, i as usize)] + rest);
        assert forall|t: int| 0 <= t < keys.len() - i implies (#[trigger] all[t]) == Joined::Both(
            (i + t) as usize,
            (i + t) as usize,
        ) by {
            if t > 0 {
                assert(all[t] == rest[t - 1]);
            }
        }
    }
}

/// Merging the interactions of a pact with themselves gives them in their
/// order, each once.
pub proof fn lemma_merged_with_itself(items: Seq<InteractionModel>, keyed: bool)
    requires
        items.len() <= usize::MAX,
    ensures
        merged(items, items, keyed) == in_order(items, keyed),
{
    let a = in_order(items, keyed);
    lemma_in_order_same_items(items, keyed);
    let keys = keys_of_all(a);
    lemma_join_self(keys, keyed, 0);
    let steps = joined(keys, keys, keyed, 0, 0);
    assert forall|k: int| 0 <= k < steps.len() implies step_item(#[trigger] steps[k], a, a)
        == a[k] by {
        assert(steps[k] == Joined::Both(k as usize, k as usize));
    }
    assert(join_items(steps, a, a) =~= a);
}

/// Every interaction of the list is one of a request and a response of
/// versions 1 to 3.
pub open spec fn all_request_response(items: Seq<InteractionModel>) -> bool {
    forall|i: int| 0 <= i < items.len() ==> (#[trigger] items[i]) is RequestResponse
}

/// The interactions of a list of such interactions, as they are.
pub open spec fn unwrapped(items: Seq<InteractionModel>) -> Seq<RequestResponseModel> {
    Seq::new(items.len(), |i: int| items[i]->RequestResponse_0)
}

/// A list in which every interaction is of a request and a response holds
/// nothing that a pact of requests and responses cannot hold.
pub proof fn lemma_all_request_response(items: Seq<InteractionModel>)
    requires
        all_request_response(items),
    ensures
        type_mismatches(items).len() == 0,
        request_responses(items) == unwrapped(items),
    decreases items.len(),
{
    if items.len() > 0 {
        let init = items.drop_last();
        assert forall|i: int| 0 <= i < init.len() implies (#[trigger] init[i]) is RequestResponse by {
            assert(init[i] == items[i]);
        }
        lemma_all_request_response(init);
        assert(items.last() == items[items.len() - 1]);
        assert(unwrapped(items) =~= unwrapped(init).push(items.last()->RequestResponse_0));
    } else {
        assert(unwrapped(items) =~= Seq::<RequestResponseModel>::empty());
    }
}

/// The interactions of a pact of requests and responses, put in their
/// order, are all of a request and a response, and are the interactions of
/// the pact, each as often as it occurs there.
pub proof fn lemma_in_order_wrapped(items: Seq<RequestResponseModel>, keyed: bool)
    ensures
        all_request_response(in_order(wrapped(items), keyed)),
        unwrapped(in_order(wrapped(items), keyed)).len() == items.len(),
        unwrapped(in_order(wrapped(items), keyed)).to_multiset() == items.to_multiset(),
    decreases items.len(),
{
    let w = wrapped(items);
    if items.len() > 0 {
        let init = items.drop_last();
        assert(w.drop_last() =~= wrapped(init));
        assert(w.last() == InteractionModel::RequestResponse(items.last()));
        let before = in_order(wrapped(init), keyed);
        lemma_in_order_wrapped(init, keyed);
        lemma_place_of(before, w.last(), keyed);
        let p = place_of(before, w.last(), keyed);
        let after = before.insert(p, w.last());
        assert(in_order(w, keyed) == after);
        assert forall|i: int| 0 <= i < after.len() implies (#[trigger] after[i]) is RequestResponse by {
            if i < p {
                assert(after[i] == before[i]);
            } else if i > p {
                assert(after[i] == before[i - 1]);
            }
        }
        assert(unwrapped(after) =~= unwrapped(before).insert(p, items.last()));
        assert(items =~= init.push(items.last()));
        vstd::seq_lib::to_multiset_insert(unwrapped(before), p, items.last());
        vstd::seq_lib::to_multiset_build(init, items.last());
    } else {
        assert(w =~= Seq::<InteractionModel>::empty());
        assert(unwrapped(in_order(w, keyed)) =~= items);
    }
}

/// A pact of requests and responses merged with itself is, where none of
/// its interactions conflicts with another, a pact with the same
/// interactions, each as often as it occurs in the pact, in their order;
/// and with the same consumer, provider, metadata and version.
pub proof fn lemma_merge_with_itself(p: RequestResponsePactModel)
    requires
        p.interactions.len() <= usize::MAX,
        all_conflicts(p.interactions, wrapped(p.interactions), p.interactions.len()).len() == 0,
    ensures
        request_response_merge(p, PactModel::RequestResponse(p)) matches Ok(m) && m == (
        RequestResponsePactModel {
            interactions: unwrapped(in_order(wrapped(p.interactions), false)),
            ..p
        }) && m.interactions.len() == p.interactions.len() && m.interactions.to_multiset()
            == p.interactions.to_multiset(),
{
    let others = pact_interactions(PactModel::RequestResponse(p));
    assert(others =~= wrapped(p.interactions));
    lemma_merged_with_itself(wrapped(p.interactions), false);
    lemma_in_order_wrapped(p.interactions, false);
    lemma_all_request_response(in_order(wrapped(p.interactions), false));
}

/// The join of two lists of keys of which none of the one compares as equal
/// with one of the other takes every key alone.
pub proof fn lemma_join_apart(left: Seq<KeyModel>, right: Seq<KeyModel>, keyed: bool, i: int, j: int)
    requires
        0 <= i <= left.len(),
        0 <= j <= right.len(),
        forall|a: int, b: int|
            0 <= a < left.len() && 0 <= b < right.len() ==> key_order(
                #[trigger] left[a],
                #[trigger] right[b],
                keyed,
            ) != 0,
    ensures
        joined(left, right, keyed, i, j).len() == (left.len() - i) + (right.len() - j),
    decreases (left.len() - i) + (right.len() - j),
{
    if i >= left.len() && j >= right.len() {
    } else if i >= left.len() {
        lemma_join_apart(left, right, keyed, i, j + 1);
    } else if j >= right.len() {
        lemma_join_apart(left, right, keyed, i + 1, j);
    } else if key_order(left[i], right[j], keyed) < 0 {
        lemma_join_apart(left, right, keyed, i + 1, j);
    } else {
        assert(key_order(left[i], right[j], keyed) != 0);
        lemma_join_apart(left, right, keyed, i, j + 1);
    }
}

/// An interaction conflicts with none of a list whose descriptions all
/// differ from its own.
pub proof fn lemma_row_without_conflicts(
    x: RequestResponseModel,
    right: Seq<InteractionModel>,
    n: nat,
)
    requires
        n <= right.len(),
        forall|j: int|
            0 <= j < right.len() ==> (#[trigger] right[j]) is RequestResponse
                && right[j]->RequestResponse_0.description != x.description,
    ensures
        row_conflicts(x, right, n).len() == 0,
    decreases n,
{
    if n > 0 {
        lemma_row_without_conflicts(x, right, (n - 1) as nat);
        assert(right[n - 1] is RequestResponse);
    }
}

/// The interactions of two pacts conflict nowhere where every description
/// of the one differs from every description of the other.
pub proof fn lemma_without_conflicts(
    left: Seq<RequestResponseModel>,
    right: Seq<InteractionModel>,
    m: nat,
)
    requires
        m <= left.len(),
        forall|i: int, j: int|
            0 <= i < left.len() && 0 <= j < right.len() ==> (#[trigger] right[j]) is RequestResponse
                && right[j]->RequestResponse_0.description != (#[trigger] left[i]).description,
    ensures
        all_conflicts(left, right, m).len() == 0,
    decreases m,
{
    if m > 0 {
        lemma_without_conflicts(left, right, (m - 1) as nat);
        assert forall|j: int| 0 <= j < right.len() implies (#[trigger] right[j]) is RequestResponse
            && right[j]->RequestResponse_0.description != left[m - 1].description by {
            assert(left[m - 1].description == left[m - 1].description);
        }
        lemma_row_without_conflicts(left[m - 1], right, right.len());
    }
}

/// Two pacts of requests and responses between the same consumer and
/// provider, of which no interaction of the one has the description of an
/// interaction of the other, merge into a pact that holds as many
/// interactions as both together.
pub proof fn lemma_merge_apart(a: RequestResponsePactModel, b: RequestResponsePactModel)
    requires
        a.consumer == b.consumer,
        a.provider == b.provider,
        a.interactions.len() <= usize::MAX,
        b.interactions.len() <= usize::MAX,
        forall|i: int, j: int|
            0 <= i < a.interactions.len() && 0 <= j < b.interactions.len() ==> (
            #[trigger] a.interactions[i]).description != (#[trigger] b.interactions[j]).description,
    ensures
        request_response_merge(a, PactModel::RequestResponse(b)) matches Ok(m)
            && m.interactions.len() == a.interactions.len() + b.interactions.len(),
{
    let others = pact_interactions(PactModel::RequestResponse(b));
    assert(others =~= wrapped(b.interactions));
    let wa = wrapped(a.interactions);
    let wb = wrapped(b.interactions);
    assert forall|i: int, j: int|
        0 <= i < a.interactions.len() && 0 <= j < wb.len() implies (#[trigger] wb[j]) is RequestResponse
        && wb[j]->RequestResponse_0.description != (#[trigger] a.interactions[i]).description by {
        assert(wb[j] == InteractionModel::RequestResponse(b.interactions[j]));
        assert(a.interactions[i].description != b.interactions[j].description);
    }
    lemma_without_conflicts(a.interactions, wb, a.interactions.len());
    let sa = in_order(wa, false);
    let sb = in_order(wb, false);
    lemma_in_order_wrapped(a.interactions, false);
    lemma_in_order_wrapped(b.interactions, false);
    lemma_in_order_same_items(wa, false);
    lemma_in_order_same_items(wb, false);
    let ka = keys_of_all(sa);
    let kb = keys_of_all(sb);
    assert forall|x: int, y: int| 0 <= x < ka.len() && 0 <= y < kb.len() implies key_order(
        #[trigger] ka[x],
        #[trigger] kb[y],
        false,
    ) != 0 by {
        lemma_in_order_member(wa, false, x);
        lemma_in_order_member(wb, false, y);
        let i = choose|i: int| 0 <= i < wa.len() && wa[i] == sa[x];
        let j = choose|j: int| 0 <= j < wb.len() && wb[j] == sb[y];
        assert(wa[i] == InteractionModel::RequestResponse(a.interactions[i]));
        assert(wb[j] == InteractionModel::RequestResponse(b.interactions[j]));
        assert(a.interactions[i].description != b.interactions[j].description);
        lemma_plain_order_equal(ka[x], kb[y]);
    }
    lemma_join_apart(ka, kb, false, 0, 0);
    crate::merge::lemma_joined_within(ka, kb, false, 0, 0);
    let steps = joined(ka, kb, false, 0, 0);
    let all = join_items(steps, sa, sb);
    assert(all == merged(wa, others, false));
    assert forall|k: int| 0 <= k < all.len() implies (#[trigger] all[k]) is RequestResponse by {
        match steps[k] {
            Joined::Left(i) => {
                assert(sa[i as int] is RequestResponse);
            },
            Joined::Right(j) => {
                assert(sb[j as int] is RequestResponse);
            },
            Joined::Both(i, _) => {
                assert(sa[i as int] is RequestResponse);
            },
        }
    }
    lemma_all_request_response(all);
}

/// The conflicts that differences make start with the one of the first
/// difference, where that one makes a conflict.
pub proof fn lemma_first_conflict(description: Seq<char>, differences: Seq<Difference>)
    requires
        differences.len() > 0,
        conflicting(differences[0]),
    ensures
        conflicts_from(description, differences).len() > 0,
        conflicts_from(description, differences)[0] == (ConflictModel {
            interaction: description,
            description: differences[0].1,
        }),
    decreases differences.len(),
{
    let all = conflicts_from(description, differences);
    if differences.len() > 1 {
        let init = differences.drop_last();
        assert(init[0] == differences[0]);
        lemma_first_conflict(description, init);
        let before = conflicts_from(description, init);
        if conflicting(differences.last()) {
            assert(all == before.push(
                ConflictModel { interaction: description, description: differences.last().1 },
            ));
            assert(all[0] == before[0]);
        } else {
            assert(all == before);
        }
    } else {
        assert(differences.last() == differences[0]);
        assert(differences.drop_last().len() == 0);
        assert(conflicts_from(description, differences.drop_last()).len() == 0);
        assert(all == conflicts_from(description, differences.drop_last()).push(
            ConflictModel { interaction: description, description: differences[0].1 },
        ));
    }
}

/// The words in which two methods that differ are reported.
pub open spec fn method_mismatch(a: Seq<char>, b: Seq<char>) -> Seq<char> {
    versus("Request method "@, a, " != "@, b, ""@)
}

/// Two interactions with the same description and the same provider states
/// whose requests differ in their methods conflict, and their first
/// conflict names their description and the two methods.
pub proof fn lemma_method_conflict(a: RequestResponseModel, b: RequestResponseModel)
    requires
        a.description == b.description,
        a.provider_states == b.provider_states,
        a.request.method != b.request.method,
    ensures
        request_response_conflicts(a, b).len() > 0,
        request_response_conflicts(a, b)[0] == (ConflictModel {
            interaction: a.description,
            description: method_mismatch(a.request.method, b.request.method),
        }),
{
    let differences = request_differences(a.request, b.request);
    let first: Difference = (
        DifferenceType::Method,
        method_mismatch(a.request.method, b.request.method),
    );
    assert(differences.len() > 0 && differences[0] == first);
    lemma_first_conflict(a.description, differences);
}

/// The conflicts of an interaction with the first `n` of a list hold those
/// with each one of them that it conflicts with.
pub proof fn lemma_row_holds(x: RequestResponseModel, right: Seq<InteractionModel>, n: nat, j: int)
    requires
        0 <= j < n <= right.len(),
        conflicts_spec(x, right[j]).len() > 0,
    ensures
        row_conflicts(x, right, n).contains(conflicts_spec(x, right[j])),
    decreases n,
{
    let row = row_conflicts(x, right, n);
    if j == n - 1 {
        assert(row.last() == conflicts_spec(x, right[j]));
        assert(row[row.len() - 1] == conflicts_spec(x, right[j]));
    } else {
        lemma_row_holds(x, right, (n - 1) as nat, j);
        let before = row_conflicts(x, right, (n - 1) as nat);
        let k = choose|k: int| 0 <= k < before.len() && before[k] == conflicts_spec(x, right[j]);
        assert(row[k] == before[k]);
    }
}

/// The conflicts between two lists hold those of every pair that
/// conflicts.
pub proof fn lemma_all_hold(
    left: Seq<RequestResponseModel>,
    right: Seq<InteractionModel>,
    m: nat,
    i: int,
    j: int,
)
    requires
        0 <= i < m <= left.len(),
        0 <= j < right.len(),
        conflicts_spec(left[i], right[j]).len() > 0,
    ensures
        all_conflicts(left, right, m).contains(conflicts_spec(left[i], right[j])),
    decreases m,
{
    let all = all_conflicts(left, right, m);
    let before = all_conflicts(left, right, (m - 1) as nat);
    let row = row_conflicts(left[m - 1], right, right.len());
    assert(all == before + row);
    if i == m - 1 {
        lemma_row_holds(left[i], right, right.len(), j);
        let k = choose|k: int| 0 <= k < row.len() && row[k] == conflicts_spec(left[i], right[j]);
        assert(all[before.len() + k] == row[k]);
    } else {
        lemma_all_hold(left, right, (m - 1) as nat, i, j);
        let k = choose|k: int|
            0 <= k < before.len() && before[k] == conflicts_spec(left[i], right[j]);
        assert(all[k] == before[k]);
    }
}

/// Two pacts between the same consumer and provider of which an interaction
/// of the one conflicts with an interaction of the other do not merge: the
/// merge fails with the conflicts of all such pairs, those of that pair
/// among them.
pub proof fn lemma_merge_conflict(a: RequestResponsePactModel, b: PactModel, i: int, j: int)
    requires
        a.consumer == pact_consumer(b),
        a.provider == pact_provider(b),
        0 <= i < a.interactions.len(),
        0 <= j < pact_interactions(b).len(),
        conflicts_spec(a.interactions[i], pact_interactions(b)[j]).len() > 0,
    ensures
        request_response_merge(a, b) matches Err(MergeFault::Conflicts(c)) && c.contains(
            conflicts_spec(a.interactions[i], pact_interactions(b)[j]),
        ),
{
    lemma_all_hold(a.interactions, pact_interactions(b), a.interactions.len(), i, j);
}

/// Swapping two lists of names flips the sign of their comparison.
pub proof fn lemma_names_order_flip(a: Seq<Seq<char>>, b: Seq<Seq<char>>)
    ensures
        names_order(a, b) < 0 <==> names_order(b, a) > 0,
        names_order(a, b) == 0 <==> names_order(b, a) == 0,
    decreases a.len(),
{
    if a.len() > 0 && b.len() > 0 {
        lemma_text_order_flip(a[0], b[0]);
        lemma_names_order_flip(a.drop_first(), b.drop_first());
    }
}

/// Coming first among lists of names is transitive.
pub proof fn lemma_names_order_transitive(a: Seq<Seq<char>>, b: Seq<Seq<char>>, c: Seq<Seq<char>>)
    requires
        names_order(a, b) <= 0,
        names_order(b, c) <= 0,
    ensures
        names_order(a, c) <= 0,
        names_order(a, b) < 0 || names_order(b, c) < 0 ==> names_order(a, c) < 0,
    decreases a.len(),
{
    if a.len() > 0 {
        assert(b.len() > 0);
        assert(c.len() > 0);
        lemma_text_order_transitive(a[0], b[0], c[0]);
        if text_order(a[0], c[0]) == 0 {
            lemma_names_order_transitive(a.drop_first(), b.drop_first(), c.drop_first());
        }
    }
}

/// In a pact of versions 1 to 3, swapping two interactions flips the sign
/// of their comparison.
pub proof fn lemma_plain_order_flip(a: KeyModel, b: KeyModel)
    ensures
        key_order(a, b, false) < 0 <==> key_order(b, a, false) > 0,
        key_order(a, b, false) == 0 <==> key_order(b, a, false) == 0,
{
    lemma_names_order_flip(a.names, b.names);
    lemma_text_order_flip(a.description, b.description);
}

/// In a pact of versions 1 to 3, coming first among interactions is
/// transitive.
pub proof fn lemma_plain_order_transitive(a: KeyModel, b: KeyModel, c: KeyModel)
    requires
        key_order(a, b, false) <= 0,
        key_order(b, c, false) <= 0,
    ensures
        key_order(a, c, false) <= 0,
{
    lemma_names_order_transitive(a.names, b.names, c.names);
    if names_order(a.names, c.names) == 0 {
        lemma_text_order_transitive(a.description, b.description, c.description);
    }
}

/// No interaction of the list comes after one that stands behind it.
pub open spec fn ordered(items: Seq<InteractionModel>) -> bool {
    forall|i: int, j: int|
        0 <= i < j < items.len() ==> key_order(
            merge_key(#[trigger] items[i]),
            merge_key(#[trigger] items[j]),
            false,
        ) <= 0
}

/// None of the interactions before the place of `x` comes after `x`, and
/// the one at its place does.
pub proof fn lemma_place_bounds(sorted: Seq<InteractionModel>, x: InteractionModel, keyed: bool)
    ensures
        0 <= place_of(sorted, x, keyed) <= sorted.len(),
        forall|k: int|
            0 <= k < place_of(sorted, x, keyed) ==> key_order(
                merge_key(#[trigger] sorted[k]),
                merge_key(x),
                keyed,
            ) <= 0,
        place_of(sorted, x, keyed) < sorted.len() ==> key_order(
            merge_key(sorted[place_of(sorted, x, keyed)]),
            merge_key(x),
            keyed,
        ) > 0,
    decreases sorted.len(),
{
    if sorted.len() > 0 && key_order(merge_key(sorted[0]), merge_key(x), keyed) <= 0 {
        let rest = sorted.drop_first();
        lemma_place_bounds(rest, x, keyed);
        let p = place_of(sorted, x, keyed);
        assert forall|k: int| 0 <= k < p implies key_order(
            merge_key(#[trigger] sorted[k]),
            merge_key(x),
            keyed,
        ) <= 0 by {
            if k > 0 {
                assert(sorted[k] == rest[k - 1]);
            }
        }
        if p < sorted.len() {
            assert(sorted[p] == rest[p - 1]);
        }
    }
}

/// The interactions of a pact of versions 1 to 3, put in their order, are
/// in order: none comes after one that stands behind it.
pub proof fn lemma_in_order_ordered(items: Seq<InteractionModel>)
    ensures
        ordered(in_order(items, false)),
    decreases items.len(),
{
    if items.len() > 0 {
        let before = in_order(items.drop_last(), false);
        let x = items.last();
        lemma_in_order_ordered(items.drop_last());
        lemma_place_bounds(before, x, false);
        let p = place_of(before, x, false);
        let after = before.insert(p, x);
        assert forall|i: int, j: int| 0 <= i < j < after.len() implies key_order(
            merge_key(#[trigger] after[i]),
            merge_key(#[trigger] after[j]),
            false,
        ) <= 0 by {
            if j < p {
                assert(after[i] == before[i] && after[j] == before[j]);
            } else if j == p {
                assert(after[i] == before[i]);
            } else if i == p {
                assert(after[j] == before[j - 1]);
                lemma_plain_order_flip(merge_key(before[p]), merge_key(x));
                if j - 1 > p {
                    assert(key_order(merge_key(before[p]), merge_key(before[j - 1]), false) <= 0);
                    lemma_plain_order_transitive(
                        merge_key(x),
                        merge_key(before[p]),
                        merge_key(before[j - 1]),
                    );
                }
            } else if i < p {
                assert(after[i] == before[i] && after[j] == before[j - 1]);
            } else {
                assert(after[i] == before[i - 1] && after[j] == before[j - 1]);
            }
        }
    }
}

/// Every step of a join from the positions `i` and `j` on names positions
/// from there on, within the two lists.
pub open spec fn steps_from(steps: Seq<Joined>, i: int, j: int, left: int, right: int) -> bool {
    forall|k: int|
        0 <= k < steps.len() ==> match #[trigger] steps[k] {
            Joined::Left(a) => i <= a < left,
            Joined::Right(b) => j <= b < right,
            Joined::Both(a, b) => i <= a < left && j <= b < right,
        }
}

/// The steps of a join from the positions `i` and `j` on name positions
/// from there on.
pub proof fn lemma_joined_from(left: Seq<KeyModel>, right: Seq<KeyModel>, keyed: bool, i: int, j: int)
    requires
        0 <= i,
        0 <= j,
        left.len() <= usize::MAX,
        right.len() <= usize::MAX,
    ensures
        steps_from(joined(left, right, keyed, i, j), i, j, left.len() as int, right.len() as int),
    decreases (if i < left.len() { left.len() - i } else { 0 }) + (if j < right.len() {
        right.len() - j
    } else {
        0
    }),
{
    let steps = joined(left, right, keyed, i, j);
    if i >= left.len() && j >= right.len() {
    } else {
        let (ni, nj) = if i >= left.len() {
            (i, j + 1)
        } else if j >= right.len() {
            (i + 1, j)
        } else if key_order(left[i], right[j], keyed) < 0 {
            (i + 1, j)
        } else if key_order(left[i], right[j], keyed) > 0 {
            (i, j + 1)
        } else {
            (i + 1, j + 1)
        };
        lemma_joined_from(left, right, keyed, ni, nj);
        let rest = joined(left, right, keyed, ni, nj);
        assert forall|k: int| 0 <= k < steps.len() implies match #[trigger] steps[k] {
            Joined::Left(a) => i <= a < left.len(),
            Joined::Right(b) => j <= b < right.len(),
            Joined::Both(a, b) => i <= a < left.len() && j <= b < right.len(),
        } by {
            if k > 0 {
                assert(steps[k] == rest[k - 1]);
            }
        }
    }
}

/// The join of two lists of interactions that are in order is in order.
pub proof fn lemma_join_ordered(a: Seq<InteractionModel>, b: Seq<InteractionModel>, i: int, j: int)
    requires
        ordered(a),
        ordered(b),
        0 <= i <= a.len() <= usize::MAX,
        0 <= j <= b.len() <= usize::MAX,
    ensures
        ordered(join_items(joined(keys_of_all(a), keys_of_all(b), false, i, j), a, b)),
    decreases (a.len() - i) + (b.len() - j),
{
    let ka = keys_of_all(a);
    let kb = keys_of_all(b);
    let steps = joined(ka, kb, false, i, j);
    let all = join_items(steps, a, b);
    if i >= a.len() && j >= b.len() {
    } else {
        let (ni, nj) = if i >= a.len() {
            (i, j + 1)
        } else if j >= b.len() {
            (i + 1, j)
        } else if key_order(ka[i], kb[j], false) < 0 {
            (i + 1, j)
        } else if key_order(ka[i], kb[j], false) > 0 {
            (i, j + 1)
        } else {
            (i + 1, j + 1)
        };
        lemma_join_ordered(a, b, ni, nj);
        lemma_joined_from(ka, kb, false, ni, nj);
        let rest_steps = joined(ka, kb, false, ni, nj);
        let rest = join_items(rest_steps, a, b);
        let head = all[0];
        assert(steps.len() == rest_steps.len() + 1);
        assert forall|k: int| 0 <= k < rest.len() implies #[trigger] all[k + 1] == rest[k] by {
            assert(steps[k + 1] == rest_steps[k]);
        }
        // the first interaction does not come after any of the others
        assert forall|k: int| 0 <= k < rest.len() implies key_order(
            merge_key(head),
            merge_key(#[trigger] rest[k]),
            false,
        ) <= 0 by {
            match rest_steps[k] {
                Joined::Left(x) => {
                    assert(rest[k] == a[x as int]);
                    if i < a.len() && (j >= b.len() || key_order(ka[i], kb[j], false) <= 0) {
                        assert(head == a[i]);
                        assert(i < x);
                    } else {
                        assert(head == b[j]);
                        if i < a.len() {
                            lemma_plain_order_flip(merge_key(a[i]), merge_key(b[j]));
                            if x > i {
                                assert(key_order(merge_key(a[i]), merge_key(a[x as int]), false)
                                    <= 0);
                                lemma_plain_order_transitive(
                                    merge_key(b[j]),
                                    merge_key(a[i]),
                                    merge_key(a[x as int]),
                                );
                            }
                        }
                    }
                },
                Joined::Right(y) => {
                    assert(rest[k] == b[y as int]);
                    if i < a.len() && (j >= b.len() || key_order(ka[i], kb[j], false) <= 0) {
                        assert(head == a[i]);
                        assert(j < b.len());
                        if y > j {
                            assert(key_order(merge_key(b[j]), merge_key(b[y as int]), false) <= 0);
                            lemma_plain_order_transitive(
                                merge_key(a[i]),
                                merge_key(b[j]),
                                merge_key(b[y as int]),
                            );
                        }
                    } else {
                        assert(head == b[j]);
                        assert(j < y);
                    }
                },
                Joined::Both(x, y) => {
                    assert(rest[k] == a[x as int]);
                    if i < a.len() && (j >= b.len() || key_order(ka[i], kb[j], false) <= 0) {
                        assert(head == a[i]);
                        assert(i < x);
                    } else {
                        assert(head == b[j]);
                        lemma_plain_order_flip(merge_key(a[i]), merge_key(b[j]));
                        if x > i {
                            assert(key_order(merge_key(a[i]), merge_key(a[x as int]), false) <= 0);
                            lemma_plain_order_transitive(
                                merge_key(b[j]),
                                merge_key(a[i]),
                                merge_key(a[x as int]),
                            );
                        }
                    }
                },
            }
        }
        assert forall|p: int, q: int| 0 <= p < q < all.len() implies key_order(
            merge_key(#[trigger] all[p]),
            merge_key(#[trigger] all[q]),
            false,
        ) <= 0 by {
            assert(all[q] == rest[q - 1]);
            if p > 0 {
                assert(all[p] == rest[p - 1]);
            }
        }
    }
}

/// Where every one of the interactions is of a request and a response,
/// they are kept one for one as versions 1 to 3 hold them.
pub proof fn lemma_all_kept(items: Seq<InteractionModel>)
    requires
        type_mismatches(items).len() == 0,
    ensures
        request_responses(items).len() == items.len(),
        forall|k: int|
            0 <= k < items.len() ==> as_request_response_spec(#[trigger] items[k]) == Some(
                request_responses(items)[k],
            ),
    decreases items.len(),
{
    if items.len() > 0 {
        let init = items.drop_last();
        assert(as_request_response_spec(items.last()) is Some);
        lemma_all_kept(init);
        assert forall|k: int| 0 <= k < items.len() implies as_request_response_spec(
            #[trigger] items[k],
        ) == Some(request_responses(items)[k]) by {
            if k < init.len() {
                assert(init[k] == items[k]);
                assert(request_responses(items)[k] == request_responses(init)[k]);
            }
        }
    }
}

/// The pact that a merge of pacts of requests and responses gives holds its
/// interactions in their order: by the names of their provider states, and
/// by their descriptions where those names are the same.
pub proof fn lemma_merge_ordered(a: RequestResponsePactModel, b: PactModel)
    requires
        a.interactions.len() <= usize::MAX,
        pact_interactions(b).len() <= usize::MAX,
        request_response_merge(a, b) is Ok,
    ensures
        ordered(wrapped(request_response_merge(a, b)->Ok_0.interactions)),
{
    let wa = wrapped(a.interactions);
    let others = pact_interactions(b);
    let sa = in_order(wa, false);
    let sb = in_order(others, false);
    lemma_in_order_same_items(wa, false);
    lemma_in_order_same_items(others, false);
    lemma_in_order_ordered(wa);
    lemma_in_order_ordered(others);
    lemma_join_ordered(sa, sb, 0, 0);
    let all = merged(wa, others, false);
    lemma_all_kept(all);
    let kept = request_responses(all);
    let result = wrapped(kept);
    assert forall|p: int, q: int| 0 <= p < q < result.len() implies key_order(
        merge_key(#[trigger] result[p]),
        merge_key(#[trigger] result[q]),
        false,
    ) <= 0 by {
        assert(as_request_response_spec(all[p]) == Some(kept[p]));
        assert(as_request_response_spec(all[q]) == Some(kept[q]));
        assert(merge_key(result[p]).names == merge_key(all[p]).names);
        assert(merge_key(result[p]).description == merge_key(all[p]).description);
        assert(merge_key(result[q]).names == merge_key(all[q]).names);
        assert(merge_key(result[q]).description == merge_key(all[q]).description);
        assert(key_order(merge_key(all[p]), merge_key(all[q]), false) <= 0);
    }
}

/// Every interaction of the list is one of version 4.
pub open spec fn all_v4(items: Seq<InteractionModel>) -> bool {
    forall|i: int| 0 <= i < items.len() ==> (#[trigger] items[i]) is V4
}

/// The interactions of a list of interactions of version 4, as they are.
pub open spec fn unwrapped_v4(items: Seq<InteractionModel>) -> Seq<V4Model> {
    Seq::new(items.len(), |i: int| items[i]->V4_0)
}

/// A list in which every interaction is of version 4 holds them all.
pub proof fn lemma_all_v4(items: Seq<InteractionModel>)
    requires
        all_v4(items),
    ensures
        v4_of(items) == unwrapped_v4(items),
    decreases items.len(),
{
    if items.len() > 0 {
        let init = items.drop_last();
        assert forall|i: int| 0 <= i < init.len() implies (#[trigger] init[i]) is V4 by {
            assert(init[i] == items[i]);
        }
        lemma_all_v4(init);
        assert(items.last() == items[items.len() - 1]);
        assert(unwrapped_v4(items) =~= unwrapped_v4(init).push(items.last()->V4_0));
    } else {
        assert(unwrapped_v4(items) =~= Seq::<V4Model>::empty());
    }
}

/// The interactions of a pact of version 4, put in their order, are all of
/// version 4, and are the interactions of the pact, each as often as it
/// occurs there.
pub proof fn lemma_in_order_wrapped_v4(items: Seq<V4Model>, keyed: bool)
    ensures
        all_v4(in_order(wrapped_v4(items), keyed)),
        unwrapped_v4(in_order(wrapped_v4(items), keyed)).len() == items.len(),
        unwrapped_v4(in_order(wrapped_v4(items), keyed)).to_multiset() == items.to_multiset(),
    decreases items.len(),
{
    let w = wrapped_v4(items);
    if items.len() > 0 {
        let init = items.drop_last();
        assert(w.drop_last() =~= wrapped_v4(init));
        assert(w.last() == InteractionModel::V4(items.last()));
        let before = in_order(wrapped_v4(init), keyed);
        lemma_in_order_wrapped_v4(init, keyed);
        lemma_place_of(before, w.last(), keyed);
        let p = place_of(before, w.last(), keyed);
        let after = before.insert(p, w.last());
        assert(in_order(w, keyed) == after);
        assert forall|i: int| 0 <= i < after.len() implies (#[trigger] after[i]) is V4 by {
            if i < p {
                assert(after[i] == before[i]);
            } else if i > p {
                assert(after[i] == before[i - 1]);
            }
        }
        assert(unwrapped_v4(after) =~= unwrapped_v4(before).insert(p, items.last()));
        assert(items =~= init.push(items.last()));
        vstd::seq_lib::to_multiset_insert(unwrapped_v4(before), p, items.last());
        vstd::seq_lib::to_multiset_build(init, items.last());
    } else {
        assert(w =~= Seq::<InteractionModel>::empty());
        assert(unwrapped_v4(in_order(w, keyed)) =~= items);
    }
}

/// A pact of version 4 merged with itself is, where none of its
/// interactions of a request and a response conflicts with another, a pact
/// with the same interactions, each as often as it occurs in the pact, in
/// their order; and with the same consumer, provider and metadata.
pub proof fn lemma_v4_merge_with_itself(p: V4PactModel)
    requires
        p.interactions.len() <= usize::MAX,
        all_conflicts(
            http_of(p.interactions),
            http_only(wrapped_v4(p.interactions)),
            http_of(p.interactions).len(),
        ).len() == 0,
    ensures
        v4_merge(p, PactModel::V4(p)) matches Ok(m) && m == (V4PactModel {
            interactions: unwrapped_v4(in_order(wrapped_v4(p.interactions), true)),
            ..p
        }) && m.interactions.len() == p.interactions.len() && m.interactions.to_multiset()
            == p.interactions.to_multiset(),
{
    let w = wrapped_v4(p.interactions);
    let others = all_as_v4(pact_interactions(PactModel::V4(p)));
    assert(others =~= w);
    lemma_merged_with_itself(w, true);
    lemma_in_order_wrapped_v4(p.interactions, true);
    lemma_all_v4(in_order(w, true));
}

/// No two of the interactions have both the same description and provider
/// states of the same names.
pub open spec fn told_apart(items: Seq<RequestResponseModel>) -> bool {
    forall|i: int, j: int|
        0 <= i < j < items.len() ==> (#[trigger] items[i]).description != (
        #[trigger] items[j]).description || state_names(items[i].provider_states) != state_names(
            items[j].provider_states,
        )
}

/// An interaction does not conflict with itself.
pub proof fn lemma_no_conflict_with_itself(x: RequestResponseModel)
    ensures
        request_response_conflicts(x, x).len() == 0,
{
    assert(request_differences(x.request, x.request) =~= Seq::<Difference>::empty());
    assert(response_differences(x.response, x.response) =~= Seq::<Difference>::empty());
}

/// Among interactions that are told apart, one conflicts with none of
/// them: not with itself, and not with another, which has another
/// description or other provider states. `right` holds the same
/// interactions, each as an interaction of any kind.
pub proof fn lemma_row_told_apart(
    items: Seq<RequestResponseModel>,
    right: Seq<InteractionModel>,
    i: int,
    n: nat,
)
    requires
        told_apart(items),
        right.len() == items.len(),
        forall|j: int|
            0 <= j < right.len() ==> as_request_response_spec(#[trigger] right[j]) == Some(
                items[j],
            ),
        0 <= i < items.len(),
        n <= right.len(),
    ensures
        row_conflicts(items[i], right, n).len() == 0,
    decreases n,
{
    if n > 0 {
        lemma_row_told_apart(items, right, i, (n - 1) as nat);
        let j = n - 1;
        assert(as_request_response_spec(right[j]) == Some(items[j]));
        if i == j {
            lemma_no_conflict_with_itself(items[i]);
        } else if i < j {
            assert(items[i].description != items[j].description || state_names(
                items[i].provider_states,
            ) != state_names(items[j].provider_states));
        } else {
            assert(items[j].description != items[i].description || state_names(
                items[j].provider_states,
            ) != state_names(items[i].provider_states));
        }
        assert(conflicts_spec(items[i], right[j]).len() == 0);
    }
}

/// Interactions that are told apart conflict nowhere with themselves.
pub proof fn lemma_told_apart_without_conflicts(
    items: Seq<RequestResponseModel>,
    right: Seq<InteractionModel>,
    m: nat,
)
    requires
        told_apart(items),
        right.len() == items.len(),
        forall|j: int|
            0 <= j < right.len() ==> as_request_response_spec(#[trigger] right[j]) == Some(
                items[j],
            ),
        m <= items.len(),
    ensures
        all_conflicts(items, right, m).len() == 0,
    decreases m,
{
    if m > 0 {
        lemma_told_apart_without_conflicts(items, right, (m - 1) as nat);
        lemma_row_told_apart(items, right, m - 1, right.len());
    }
}

/// A pact of requests and responses of which no two interactions have
/// both the same description and provider states of the same names,
/// merged with itself, is a pact with the same interactions in their
/// order, and with the same consumer, provider, metadata and version.
pub proof fn lemma_merge_with_itself_told_apart(p: RequestResponsePactModel)
    requires
        p.interactions.len() <= usize::MAX,
        told_apart(p.interactions),
    ensures
        request_response_merge(p, PactModel::RequestResponse(p)) matches Ok(m) && m == (
        RequestResponsePactModel {
            interactions: unwrapped(in_order(wrapped(p.interactions), false)),
            ..p
        }) && m.interactions.len() == p.interactions.len() && m.interactions.to_multiset()
            == p.interactions.to_multiset(),
{
    lemma_told_apart_without_conflicts(
        p.interactions,
        wrapped(p.interactions),
        p.interactions.len(),
    );
    lemma_merge_with_itself(p);
}

/// The interactions of a request and a response among interactions of
/// version 4 are, one for one, those that versions 1 to 3 hold.
pub proof fn lemma_http_only(items: Seq<V4Model>)
    ensures
        http_only(wrapped_v4(items)).len() == http_of(items).len(),
        forall|j: int|
            0 <= j < http_of(items).len() ==> as_request_response_spec(
                #[trigger] http_only(wrapped_v4(items))[j],
            ) == Some(http_of(items)[j]),
    decreases items.len(),
{
    let w = wrapped_v4(items);
    if items.len() > 0 {
        let init = items.drop_last();
        lemma_http_only(init);
        assert(w.drop_last() =~= wrapped_v4(init));
        assert(w.last() == InteractionModel::V4(items.last()));
    }
}

/// A pact of version 4 of whose interactions of a request and a response
/// no two have both the same description and provider states of the same
/// names, merged with itself, is a pact with the same interactions in
/// their order, and with the same consumer, provider and metadata.
pub proof fn lemma_v4_merge_with_itself_told_apart(p: V4PactModel)
    requires
        p.interactions.len() <= usize::MAX,
        told_apart(http_of(p.interactions)),
    ensures
        v4_merge(p, PactModel::V4(p)) matches Ok(m) && m == (V4PactModel {
            interactions: unwrapped_v4(in_order(wrapped_v4(p.interactions), true)),
            ..p
        }) && m.interactions.len() == p.interactions.len() && m.interactions.to_multiset()
            == p.interactions.to_multiset(),
{
    lemma_http_only(p.interactions);
    lemma_told_apart_without_conflicts(
        http_of(p.interactions),
        http_only(wrapped_v4(p.interactions)),
        http_of(p.interactions).len(),
    );
    lemma_v4_merge_with_itself(p);
}

} // verus!
