//! Ranking of bids by value.

use crate::uint::U256;
use vstd::prelude::*;

verus! {

/// The greatest value among `bids`, zero where there is none.
pub open spec fn max_value(bids: Seq<(U256, usize)>) -> nat
    decreases bids.len(),
{
    if bids.len() == 0 {
        0
    } else {
        let rest = max_value(bids.drop_last());
        if bids.last().0.value() > rest {
            bids.last().0.value()
        } else {
            rest
        }
    }
}

/// The indices of the bids whose value is `value`, in the order of `bids`.
pub open spec fn indices_with_value(bids: Seq<(U256, usize)>, value: nat) -> Seq<usize> {
    bids.filter(|bid: (U256, usize)| bid.0.value() == value).map_values(
        |bid: (U256, usize)| bid.1,
    )
}

/// The indices of the most valuable bids, in the order of `bids`.
pub open spec fn best_bids(bids: Seq<(U256, usize)>) -> Seq<usize> {
    indices_with_value(bids, max_value(bids))
}

/// No bid is worth more than `max_value`, and a bid is worth that much
/// wherever there is a bid at all.
pub proof fn lemma_max_value(bids: Seq<(U256, usize)>)
    ensures
        forall|i: int| 0 <= i < bids.len() ==> (#[trigger] bids[i]).0.value() <= max_value(bids),
        bids.len() > 0 ==> exists|i: int|
            0 <= i < bids.len() && (#[trigger] bids[i]).0.value() == max_value(bids),
    decreases bids.len(),
{
    if bids.len() > 0 {
        let rest = bids.drop_last();
        lemma_max_value(rest);
        assert forall|i: int| 0 <= i < bids.len() implies (#[trigger] bids[i]).0.value()
            <= max_value(bids) by {
            if i < rest.len() {
                assert(rest[i] == bids[i]);
            }
        }
        if bids.last().0.value() > max_value(rest) || rest.len() == 0 {
            assert(bids[bids.len() - 1].0.value() == max_value(bids));
        } else {
            let i = choose|i: int|
                0 <= i < rest.len() && (#[trigger] rest[i]).0.value() == max_value(rest);
            assert(bids[i] == rest[i]);
        }
    }
}

/// The places in `bids` of the bids whose value is `value`, in ascending
/// order.
pub open spec fn places_with_value(bids: Seq<(U256, usize)>, value: nat) -> Seq<int>
    decreases bids.len(),
{
    if bids.len() == 0 {
        Seq::empty()
    } else {
        let rest = places_with_value(bids.drop_last(), value);
        if bids.last().0.value() == value {
            rest.push(bids.len() - 1)
        } else {
            rest
        }
    }
}

/// `places_with_value` lists, in ascending order, exactly the places of the
/// bids with the given value, and `indices_with_value` holds the index of
/// the bid at each of them.
proof fn lemma_places_with_value(bids: Seq<(U256, usize)>, value: nat)
    ensures
        places_with_value(bids, value).len() == indices_with_value(bids, value).len(),
        forall|k: int|
            0 <= k < places_with_value(bids, value).len() ==> {
                let place = #[trigger] places_with_value(bids, value)[k];
                &&& 0 <= place < bids.len()
                &&& bids[place].0.value() == value
                &&& bids[place].1 == indices_with_value(bids, value)[k]
            },
        forall|j: int, k: int|
            0 <= j < k < places_with_value(bids, value).len() ==> places_with_value(bids, value)[j]
                < places_with_value(bids, value)[k],
        forall|i: int|
            0 <= i < bids.len() && (#[trigger] bids[i]).0.value() == value ==> places_with_value(
                bids,
                value,
            ).contains(i),
    decreases bids.len(),
{
    reveal(Seq::filter);
    if bids.len() > 0 {
        let rest = bids.drop_last();
        let last = bids.len() - 1;
        lemma_places_with_value(rest, value);
        let places = places_with_value(bids, value);
        let old_places = places_with_value(rest, value);
        assert forall|k: int| 0 <= k < places.len() implies {
            let place = #[trigger] places[k];
            &&& 0 <= place < bids.len()
            &&& bids[place].0.value() == value
            &&& bids[place].1 == indices_with_value(bids, value)[k]
        } by {
            if k < old_places.len() {
                assert(places[k] == old_places[k]);
                assert(bids[old_places[k]] == rest[old_places[k]]);
            }
        }
        assert forall|j: int, k: int| 0 <= j < k < places.len() implies places[j] < places[k] by {
            assert(places[j] == old_places[j]);
            assert(0 <= old_places[j] < rest.len());
            if k < old_places.len() {
                assert(places[k] == old_places[k]);
            }
        }
        assert forall|i: int| 0 <= i < bids.len() && (#[trigger] bids[i]).0.value()
            == value implies places.contains(i) by {
            if i < last {
                assert(rest[i] == bids[i]);
                let k = choose|k: int| 0 <= k < old_places.len() && old_places[k] == i;
                assert(places[k] == i);
            } else {
                assert(places[places.len() - 1] == i);
            }
        }
    }
}

/// Every selected index is that of a bid of the greatest value, and nothing
/// is selected only where there is no bid.
pub proof fn lemma_best_bids_are_most_valuable(bids: Seq<(U256, usize)>)
    ensures
        forall|k: int|
            0 <= k < best_bids(bids).len() ==> exists|i: int|
                {
                    &&& 0 <= i < bids.len()
                    &&& bids[i].1 == #[trigger] best_bids(bids)[k]
                    &&& (#[trigger] bids[i]).0.value() == max_value(bids)
                },
        forall|i: int| 0 <= i < bids.len() ==> (#[trigger] bids[i]).0.value() <= max_value(bids),
        best_bids(bids).len() == 0 <==> bids.len() == 0,
{
    let top = max_value(bids);
    lemma_max_value(bids);
    lemma_places_with_value(bids, top);
    let places = places_with_value(bids, top);
    assert forall|k: int| 0 <= k < best_bids(bids).len() implies exists|i: int|
        {
            &&& 0 <= i < bids.len()
            &&& bids[i].1 == #[trigger] best_bids(bids)[k]
            &&& (#[trigger] bids[i]).0.value() == top
        } by {
        let i = places[k];
        assert(bids[i].1 == best_bids(bids)[k]);
    }
    if bids.len() > 0 {
        let i = choose|i: int| 0 <= i < bids.len() && (#[trigger] bids[i]).0.value() == top;
        assert(places.contains(i));
    }
}

/// The selected indices come in the order in which their bids come: the
/// bids of the greatest value stand at places that ascend, and the selection
/// holds the index of the bid at each of these places, in that order.
pub proof fn lemma_best_bids_keep_order(bids: Seq<(U256, usize)>)
    ensures
        ({
            let places = places_with_value(bids, max_value(bids));
            &&& places.len() == best_bids(bids).len()
            &&& forall|k: int|
                0 <= k < places.len() ==> {
                    &&& 0 <= (#[trigger] places[k]) < bids.len()
                    &&& bids[places[k]].0.value() == max_value(bids)
                    &&& bids[places[k]].1 == best_bids(bids)[k]
                }
            &&& forall|j: int, k: int| 0 <= j < k < places.len() ==> places[j] < places[k]
            &&& forall|i: int|
                0 <= i < bids.len() && (#[trigger] bids[i]).0.value() == max_value(bids)
                    ==> places.contains(i)
        }),
{
    lemma_places_with_value(bids, max_value(bids));
}

/// What one more bid does to the indices with a given value.
proof fn lemma_indices_with_value_push(bids: Seq<(U256, usize)>, bid: (U256, usize), value: nat)
    ensures
        indices_with_value(bids.push(bid), value) == if bid.0.value() == value {
            indices_with_value(bids, value).push(bid.1)
        } else {
            indices_with_value(bids, value)
        },
{
    reveal(Seq::filter);
    assert(bids.push(bid).drop_last() == bids);
}

/// No bid has a value above the greatest.
proof fn lemma_indices_above_max(bids: Seq<(U256, usize)>, value: nat)
    requires
        value > max_value(bids),
    ensures
        indices_with_value(bids, value) == Seq::<usize>::empty(),
{
    lemma_max_value(bids);
    bids.lemma_all_neg_filter_empty(|bid: (U256, usize)| bid.0.value() == value);
}

/// Select the most valuable bids in `bids`: the index of each bid whose value
/// is the greatest, in the order in which the bids come.
pub fn select_best_bids(bids: &Vec<(U256, usize)>) -> (winners: Vec<usize>)
    ensures
        winners@ == best_bids(bids@),
{
    let mut best_value = U256::zero();
    let mut relay_indices: Vec<usize> = Vec::new();
    let mut i: usize = 0;
    proof {
        reveal(Seq::filter);
        assert(bids@.take(0) == Seq::<(U256, usize)>::empty());
    }
    while i < bids.len()
        invariant
            i <= bids.len(),
            best_value.value() == max_value(bids@.take(i as int)),
            relay_indices@ == best_bids(bids@.take(i as int)),
        decreases bids.len() - i,
    {
        let value = bids[i].0;
        let index = bids[i].1;
        proof {
            let seen = bids@.take(i as int);
            assert(bids@.take(i + 1) == seen.push(bids@[i as int]));
            assert(seen.push(bids@[i as int]).drop_last() == seen);
            lemma_indices_with_value_push(seen, bids@[i as int], max_value(bids@.take(i + 1)));
            if value.value() > max_value(seen) {
                lemma_indices_above_max(seen, value.value());
            }
            crate::uint::lemma_value_order(value, best_value);
        }
        if value > best_value {
            best_value = value;
            relay_indices.clear();
        }
        if value == best_value {
            relay_indices.push(index);
        }
        i += 1;
    }
    assert(bids@.take(bids.len() as int) == bids@);
    relay_indices
}

} // verus!
