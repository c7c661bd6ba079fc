//! One auction: the answers of the relays to a request for their best bid,
//! the bids among them that pass validation, and which of these win.

use crate::metrics::{ApiMethod, AuctionCounter, Metric};
use crate::ranker::{
    best_bids, lemma_best_bids_keep_order, lemma_max_value, max_value, places_with_value,
};
use crate::relay_mux::Relay;
use crate::types::SignedBuilderBid;
use crate::uint::U256;
use crate::validator::is_valid;
use rand::seq::SliceRandom;
use std::time::Duration;
use vstd::prelude::*;

verus! {

/// How a relay answered a request for its best bid.
#[derive(Clone, Copy, Debug, PartialEq, Eq)]
pub enum BidOutcome {
    /// The relay returned `bid`. `signature_verified` says whether the
    /// signature of the bid verifies under the builder domain against the key
    /// that the bid names.
    Bid { bid: SignedBuilderBid, signature_verified: bool },
    /// The call failed, or the relay had no bid.
    Failed,
    /// The relay did not answer in time.
    TimedOut,
}

/// The answer of the relay at `relay_index` to a request for its best bid,
/// which took `elapsed` to settle.
#[derive(Clone, Copy, Debug, PartialEq, Eq)]
pub struct BidResponse {
    pub relay_index: usize,
    pub elapsed: Duration,
    pub outcome: BidOutcome,
}

/// Whether `response` holds a bid that passes validation.
pub open spec fn is_retained(relays: Seq<Relay>, response: BidResponse) -> bool {
    response.outcome matches BidOutcome::Bid { bid, signature_verified } && is_valid(
        bid,
        relays[response.relay_index as int].public_key,
        signature_verified,
    )
}

/// The bids in `responses` that pass validation, each with the index of the
/// relay that it came from, in the order of the responses.
pub open spec fn retained_bids(relays: Seq<Relay>, responses: Seq<BidResponse>) -> Seq<
    (SignedBuilderBid, usize),
> {
    responses.filter(|response: BidResponse| is_retained(relays, response)).map_values(
        |response: BidResponse| (response.outcome->bid, response.relay_index),
    )
}

/// What is reported of one response to a request for a bid.
pub open spec fn bid_reports(relays: Seq<Relay>, response: BidResponse) -> Seq<Metric> {
    let method = ApiMethod::GetHeader;
    let relay = relays[response.relay_index as int].public_key;
    let settled = seq![
        Metric::ApiRequest { method, relay },
        Metric::ApiLatency { method, relay, elapsed: response.elapsed },
    ];
    match response.outcome {
        BidOutcome::Bid { bid, signature_verified } => if is_valid(bid, relay, signature_verified) {
            settled
        } else {
            settled.push(Metric::Auction { counter: AuctionCounter::InvalidBid, relay })
        },
        BidOutcome::Failed => settled,
        BidOutcome::TimedOut => settled.push(Metric::ApiTimeout { method, relay }),
    }
}

/// What is reported of `responses`, in their order.
pub open spec fn all_bid_reports(relays: Seq<Relay>, responses: Seq<BidResponse>) -> Seq<Metric>
    decreases responses.len(),
{
    if responses.len() == 0 {
        Seq::empty()
    } else {
        all_bid_reports(relays, responses.drop_last()) + bid_reports(relays, responses.last())
    }
}

/// The value of each bid beside the place where the bid stands in `bids`.
pub open spec fn bid_values(bids: Seq<(SignedBuilderBid, usize)>) -> Seq<(U256, usize)> {
    Seq::new(bids.len(), |i: int| (bids[i].0.value, i as usize))
}

/// The places in `bids` of the most valuable bids, in ascending order.
pub open spec fn best_places(bids: Seq<(SignedBuilderBid, usize)>) -> Seq<usize> {
    best_bids(bid_values(bids))
}

/// The relays recorded for an auction: of the bids that stand in `bids` at
/// the places `order`, the relays of those that commit to the same block as
/// the first, in that order. The first is the bid that wins.
pub open spec fn eligible_relays(bids: Seq<(SignedBuilderBid, usize)>, order: Seq<usize>) -> Seq<
    usize,
> {
    order.filter(
        |place: usize| bids[place as int].0.block_hash == bids[order[0] as int].0.block_hash,
    ).map_values(|place: usize| bids[place as int].1)
}

/// One more response adds to the retained bids the bid that it holds, if
/// that bid passes validation.
pub(crate) proof fn lemma_retained_push(
    relays: Seq<Relay>,
    responses: Seq<BidResponse>,
    response: BidResponse,
)
    ensures
        retained_bids(relays, responses.push(response)) == if is_retained(relays, response) {
            retained_bids(relays, responses).push((response.outcome->bid, response.relay_index))
        } else {
            retained_bids(relays, responses)
        },
{
    reveal(Seq::filter);
    assert(responses.push(response).drop_last() == responses);
}

/// Every retained bid comes from a response that holds it and passes
/// validation: it names the key of the relay that returned it, and its
/// signature verifies. A bid that names another key is not retained.
pub proof fn lemma_retained_bids_are_valid(relays: Seq<Relay>, responses: Seq<BidResponse>)
    ensures
        forall|k: int|
            0 <= k < retained_bids(relays, responses).len() ==> {
                let (bid, relay_index) = #[trigger] retained_bids(relays, responses)[k];
                &&& bid.public_key == relays[relay_index as int].public_key
                &&& exists|i: int|
                    0 <= i < responses.len() && #[trigger] responses[i] == (BidResponse {
                        relay_index,
                        elapsed: responses[i].elapsed,
                        outcome: BidOutcome::Bid { bid, signature_verified: true },
                    })
            },
        forall|i: int|
            0 <= i < responses.len() && (#[trigger] responses[i]).outcome is Bid
                && responses[i].outcome->bid.public_key
                != relays[responses[i].relay_index as int].public_key ==> !is_retained(
                relays,
                responses[i],
            ),
{
    let pred = |response: BidResponse| is_retained(relays, response);
    let kept = responses.filter(pred);
    assert forall|k: int| 0 <= k < retained_bids(relays, responses).len() implies {
        let (bid, relay_index) = #[trigger] retained_bids(relays, responses)[k];
        &&& bid.public_key == relays[relay_index as int].public_key
        &&& exists|i: int|
            0 <= i < responses.len() && #[trigger] responses[i] == (BidResponse {
                relay_index,
                elapsed: responses[i].elapsed,
                outcome: BidOutcome::Bid { bid, signature_verified: true },
            })
    } by {
        responses.lemma_filter_pred(pred, k);
        assert(kept.contains(kept[k]));
        responses.lemma_filter_contains_rev(pred, kept[k]);
        let i = choose|i: int| 0 <= i < responses.len() && responses[i] == kept[k];
        assert(is_retained(relays, responses[i]));
        let (bid, relay_index) = retained_bids(relays, responses)[k];
        assert(responses[i] == (BidResponse {
            relay_index,
            elapsed: responses[i].elapsed,
            outcome: BidOutcome::Bid { bid, signature_verified: true },
        }));
    }
}

/// The most valuable bids stand at places of `bids`, all have the greatest
/// value, and there is one wherever there is a bid.
pub proof fn lemma_best_places(bids: Seq<(SignedBuilderBid, usize)>)
    requires
        bids.len() <= usize::MAX,
    ensures
        forall|k: int|
            0 <= k < best_places(bids).len() ==> (#[trigger] best_places(bids)[k]) < bids.len()
                && bids[best_places(bids)[k] as int].0.value.value() == max_value(bid_values(bids)),
        forall|i: int|
            0 <= i < bids.len() ==> (#[trigger] bids[i]).0.value.value() <= max_value(
                bid_values(bids),
            ),
        forall|i: int|
            0 <= i < bids.len() && (#[trigger] bids[i]).0.value.value() == max_value(
                bid_values(bids),
            ) ==> best_places(bids).contains(i as usize),
        best_places(bids).len() == 0 <==> bids.len() == 0,
{
    let values = bid_values(bids);
    let top = max_value(values);
    assert forall|i: int| 0 <= i < bids.len() && (#[trigger] bids[i]).0.value.value()
        == top implies best_places(bids).contains(i as usize) by {
        lemma_best_bids_keep_order(values);
        let places = places_with_value(values, top);
        assert(values[i].0.value() == top);
        assert(places.contains(i));
        let k = choose|k: int| 0 <= k < places.len() && places[k] == i;
        assert(best_places(bids)[k] == values[places[k]].1);
    }
    let pred = |bid: (U256, usize)| bid.0.value() == top;
    let kept = values.filter(pred);
    lemma_max_value(values);
    assert forall|k: int| 0 <= k < best_places(bids).len() implies (#[trigger] best_places(bids)[k])
        < bids.len() && bids[best_places(bids)[k] as int].0.value.value() == top by {
        values.lemma_filter_pred(pred, k);
        assert(kept.contains(kept[k]));
        values.lemma_filter_contains_rev(pred, kept[k]);
        let i = choose|i: int| 0 <= i < values.len() && values[i] == kept[k];
        assert(values[i].1 == i);
    }
    assert forall|i: int| 0 <= i < bids.len() implies (#[trigger] bids[i]).0.value.value()
        <= top by {
        assert(values[i].0 == bids[i].0.value);
    }
    if bids.len() > 0 {
        let i = choose|i: int| 0 <= i < values.len() && (#[trigger] values[i]).0.value() == top;
        values.lemma_filter_contains(pred, i);
    } else {
        values.lemma_filter_len(pred);
    }
}

/// Whether the bid at `place` is worth as much as the one at `winner` and
/// commits to the same block.
pub open spec fn ties_with(bids: Seq<(SignedBuilderBid, usize)>, winner: int, place: int) -> bool {
    &&& bids[place].0.value == bids[winner].0.value
    &&& bids[place].0.block_hash == bids[winner].0.block_hash
}

/// Whether a bid of the relay at `relay_index` ties with the bid at `winner`.
pub open spec fn has_tying_bid(
    bids: Seq<(SignedBuilderBid, usize)>,
    winner: int,
    relay_index: usize,
) -> bool {
    exists|place: int|
        0 <= place < bids.len() && #[trigger] ties_with(bids, winner, place) && bids[place].1
            == relay_index
}

/// Filtering keeps the first element where it passes.
proof fn lemma_filter_first<A>(s: Seq<A>, pred: spec_fn(A) -> bool)
    requires
        s.len() > 0,
        pred(s[0]),
    ensures
        s.filter(pred).len() > 0,
        s.filter(pred)[0] == s[0],
    decreases s.len(),
{
    reveal(Seq::filter);
    if s.len() > 1 {
        assert(s.drop_last()[0] == s[0]);
        lemma_filter_first(s.drop_last(), pred);
    }
}

/// In whatever order the most valuable bids are put, the first of them is
/// worth no less than any bid, and the relays recorded are those of the bids
/// that tie with it, its own relay first.
pub proof fn lemma_eligible_relays(bids: Seq<(SignedBuilderBid, usize)>, order: Seq<usize>)
    requires
        bids.len() <= usize::MAX,
        order.len() > 0,
        order.to_multiset() == best_places(bids).to_multiset(),
    ensures
        order[0] < bids.len(),
        forall|i: int|
            0 <= i < bids.len() ==> (#[trigger] bids[i]).0.value.value()
                <= bids[order[0] as int].0.value.value(),
        eligible_relays(bids, order).len() > 0,
        eligible_relays(bids, order)[0] == bids[order[0] as int].1,
        forall|j: int|
            0 <= j < eligible_relays(bids, order).len() ==> has_tying_bid(
                bids,
                order[0] as int,
                #[trigger] eligible_relays(bids, order)[j],
            ),
        forall|place: int|
            0 <= place < bids.len() && #[trigger] ties_with(bids, order[0] as int, place)
                ==> eligible_relays(bids, order).contains(bids[place].1),
{
    let best = best_places(bids);
    let winner = order[0] as int;
    let pred = |place: usize| bids[place as int].0.block_hash == bids[order[0] as int].0.block_hash;
    let relay_of = |place: usize| bids[place as int].1;
    let kept = order.filter(pred);
    lemma_best_places(bids);
    order.to_multiset_ensures();
    best.to_multiset_ensures();
    assert forall|k: int| 0 <= k < order.len() implies (#[trigger] order[k]) < bids.len()
        && bids[order[k] as int].0.value.value() == max_value(bid_values(bids)) by {
        assert(order.contains(order[k]));
        assert(order.to_multiset().count(order[k]) > 0);
        assert(best.to_multiset().count(order[k]) > 0);
        assert(best.contains(order[k]));
        let j = choose|j: int| 0 <= j < best.len() && best[j] == order[k];
        assert(best[j] < bids.len());
    }
    assert(order[0] < bids.len());
    lemma_filter_first(order, pred);
    assert forall|j: int| 0 <= j < eligible_relays(bids, order).len() implies has_tying_bid(
        bids,
        order[0] as int,
        #[trigger] eligible_relays(bids, order)[j],
    ) by {
        order.lemma_filter_pred(pred, j);
        assert(kept.contains(kept[j]));
        order.lemma_filter_contains_rev(pred, kept[j]);
        let k = choose|k: int| 0 <= k < order.len() && order[k] == kept[j];
        let place = order[k] as int;
        crate::uint::lemma_value_order(bids[place].0.value, bids[winner].0.value);
        assert(ties_with(bids, winner, place));
    }
    assert forall|place: int|
        0 <= place < bids.len() && #[trigger] ties_with(
            bids,
            order[0] as int,
            place,
        ) implies eligible_relays(bids, order).contains(bids[place].1) by {
        assert(best.contains(place as usize));
        assert(best.to_multiset().count(place as usize) > 0);
        assert(order.to_multiset().count(place as usize) > 0);
        assert(order.contains(place as usize));
        let k = choose|k: int| 0 <= k < order.len() && order[k] == place as usize;
        order.lemma_filter_contains(pred, k);
        let j = choose|j: int| 0 <= j < kept.len() && kept[j] == place as usize;
        assert(eligible_relays(bids, order)[j] == bids[place].1);
    }
}

/// The relays recorded are the relay of the winner, and after it the relays
/// of those among the other most valuable bids that commit to the same block.
pub proof fn lemma_eligible_relays_winner_first(
    bids: Seq<(SignedBuilderBid, usize)>,
    order: Seq<usize>,
)
    requires
        order.len() > 0,
    ensures
        eligible_relays(bids, order) == seq![bids[order[0] as int].1] + order.skip(1).filter(
            |place: usize| bids[place as int].0.block_hash == bids[order[0] as int].0.block_hash,
        ).map_values(|place: usize| bids[place as int].1),
{
    let pred = |place: usize| bids[place as int].0.block_hash == bids[order[0] as int].0.block_hash;
    let relay_of = |place: usize| bids[place as int].1;
    let first = seq![order[0]];
    assert(order =~= first + order.skip(1));
    Seq::filter_distributes_over_add(first, order.skip(1), pred);
    assert(first.filter(pred) =~= first) by {
        reveal_with_fuel(Seq::filter, 2);
        assert(first.drop_last() =~= Seq::<usize>::empty());
    }
    assert(eligible_relays(bids, order) =~= seq![bids[order[0] as int].1] + order.skip(1).filter(
        pred,
    ).map_values(relay_of));
}

/// The most valuable bids are the same whether the bids are told apart by
/// their places or by their relays: ranking the values beside the relays
/// gives the relays of the bids at the best places.
pub proof fn lemma_best_places_by_relay(bids: Seq<(SignedBuilderBid, usize)>)
    requires
        bids.len() <= usize::MAX,
    ensures
        best_bids(bids.map_values(|bid: (SignedBuilderBid, usize)| (bid.0.value, bid.1)))
            == best_places(bids).map_values(|place: usize| bids[place as int].1),
{
    let by_relay = bids.map_values(|bid: (SignedBuilderBid, usize)| (bid.0.value, bid.1));
    let by_place = bid_values(bids);
    lemma_same_values(by_relay, by_place, max_value(by_place));
    lemma_best_bids_keep_order(by_relay);
    lemma_best_bids_keep_order(by_place);
    let places = places_with_value(by_place, max_value(by_place));
    assert forall|k: int| 0 <= k < places.len() implies best_bids(by_relay)[k]
        == bids[best_places(bids)[k] as int].1 by {
        assert(by_relay[places[k]].1 == bids[places[k]].1);
        assert(by_place[places[k]].1 == places[k]);
    }
    assert(best_bids(by_relay) =~= best_places(bids).map_values(
        |place: usize| bids[place as int].1,
    ));
}

/// Bids with the same values have the same greatest value, and the same
/// places hold a given value.
proof fn lemma_same_values(a: Seq<(U256, usize)>, b: Seq<(U256, usize)>, value: nat)
    requires
        a.len() == b.len(),
        forall|i: int| 0 <= i < a.len() ==> (#[trigger] a[i]).0 == b[i].0,
    ensures
        max_value(a) == max_value(b),
        places_with_value(a, value) == places_with_value(b, value),
    decreases a.len(),
{
    if a.len() > 0 {
        assert forall|i: int| 0 <= i < a.drop_last().len() implies (#[trigger] a.drop_last()[i]).0
            == b.drop_last()[i].0 by {
            assert(a.drop_last()[i] == a[i]);
        }
        lemma_same_values(a.drop_last(), b.drop_last(), value);
        assert(a.last() == a[a.len() - 1]);
    }
}

/// The random number generator of a thread, `rand::rngs::ThreadRng`. Nothing
/// is said of what it holds.
#[verifier::external_type_specification]
#[verifier::external_body]
pub struct ExThreadRng(rand::rngs::ThreadRng);

/// `rand::thread_rng` hands out the generator of the calling thread. Nothing
/// is claimed of it.
pub assume_specification[ rand::thread_rng ]() -> (rng: rand::rngs::ThreadRng)
;

/// Rearranges `places` at random. The call is
/// `rand::seq::SliceRandom::shuffle`. Of the result the contract claims only
/// that it holds the same elements as before, each as often as before: the
/// call does nothing but swap elements. In which order they come is left
/// open.
#[verifier::external_body]
pub(crate) fn shuffle(places: &mut Vec<usize>, rng: &mut rand::rngs::ThreadRng)
    ensures
        final(places)@.to_multiset() == old(places)@.to_multiset(),
{
    places.shuffle(rng);
}

/// The value of each bid beside the place where the bid stands.
pub(crate) fn values_of(bids: &Vec<(SignedBuilderBid, usize)>) -> (values: Vec<(U256, usize)>)
    ensures
        values@ == bid_values(bids@),
{
    let mut values: Vec<(U256, usize)> = Vec::with_capacity(bids.len());
    let mut i: usize = 0;
    while i < bids.len()
        invariant
            i <= bids.len(),
            values@ == bid_values(bids@).take(i as int),
        decreases bids.len() - i,
    {
        values.push((*bids[i].0.value(), i));
        assert(values@ == bid_values(bids@).take(i + 1));
        i += 1;
    }
    assert(bid_values(bids@).take(bids.len() as int) == bid_values(bids@));
    values
}

/// Given the places `order` of the most valuable bids in `bids`, the winner
/// first, returns the relays to record for the auction: the relay of each of
/// these bids that commits to the same block as the winner, in the order of
/// `order`.
pub fn matching_relays(bids: &Vec<(SignedBuilderBid, usize)>, order: &Vec<usize>) -> (relay_indices:
    Vec<usize>)
    requires
        order.len() > 0,
        forall|k: int| 0 <= k < order.len() ==> order[k] < bids.len(),
    ensures
        relay_indices@ == eligible_relays(bids@, order@),
        relay_indices.len() > 0,
        relay_indices[0] == bids[order[0] as int].1,
        forall|j: int|
            0 <= j < relay_indices.len() ==> exists|k: int|
                0 <= k < order.len() && #[trigger] relay_indices[j] == bids[order[k] as int].1,
{
    let best_index = order[0];
    let best_block_hash = *bids[best_index].0.block_hash();
    let mut relay_indices: Vec<usize> = Vec::new();
    let ghost pred = |place: usize| bids@[place as int].0.block_hash == best_block_hash;
    let ghost relay_of = |place: usize| bids@[place as int].1;
    let mut k: usize = 0;
    proof {
        reveal(Seq::filter);
    }
    while k < order.len()
        invariant
            k <= order.len(),
            order.len() > 0,
            forall|k: int| 0 <= k < order.len() ==> order[k] < bids.len(),
            best_block_hash == bids[order[0] as int].0.block_hash,
            pred == |place: usize| bids@[place as int].0.block_hash == best_block_hash,
            relay_of == |place: usize| bids@[place as int].1,
            relay_indices@ == order@.take(k as int).filter(pred).map_values(relay_of),
            k > 0 ==> relay_indices.len() > 0 && relay_indices[0] == bids[order[0] as int].1,
            forall|j: int|
                0 <= j < relay_indices.len() ==> exists|k: int|
                    0 <= k < order.len() && #[trigger] relay_indices[j] == bids[order[k] as int].1,
        decreases order.len() - k,
    {
        let place = order[k];
        proof {
            let seen = order@.take(k as int);
            assert(order@.take(k + 1) == seen.push(place));
            assert(seen.push(place).drop_last() == seen);
            reveal(Seq::filter);
        }
        if *bids[place].0.block_hash() == best_block_hash {
            relay_indices.push(bids[place].1);
        }
        k += 1;
    }
    assert(order@.take(order.len() as int) == order@);
    relay_indices
}

} // verus!
