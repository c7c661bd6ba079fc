//! The multiplexer: what it decides once the relays have answered, and what
//! it remembers between the request for a header and the request for the
//! payload.

use crate::auction::{
    all_bid_reports, best_places, eligible_relays, lemma_best_places, lemma_retained_push,
    matching_relays, retained_bids, shuffle, values_of, BidOutcome, BidResponse,
};
use crate::error::Error;
use crate::metrics::{ApiMethod, AuctionCounter, Metric, Metrics};
use crate::outstanding::{open_at, OutstandingBids, PROPOSAL_TOLERANCE_DELAY};
use crate::primitives::{BlsPublicKey, Hash32, Slot};
use crate::ranker::select_best_bids;
use crate::types::{AuctionContents, BidRequest, SignedBlindedBeaconBlock, SignedBuilderBid};
use crate::validator::validate_bid;
use std::time::Duration;
use vstd::prelude::*;

verus! {

/// How many seconds a relay is given to return a bid.
pub const FETCH_BEST_BID_TIME_OUT_SECS: u64 = 1;

/// A relay, as far as the multiplexer's decisions depend on it.
#[derive(Clone, Copy, Debug, PartialEq, Eq)]
pub struct Relay {
    /// The key that the relay signs its bids with.
    pub public_key: BlsPublicKey,
}

/// The key under which a bid is kept: the auction that `signed_block`
/// belongs to, if `public_key` is the key of its proposer.
pub open spec fn bid_key(
    signed_block: SignedBlindedBeaconBlock,
    public_key: BlsPublicKey,
) -> BidRequest {
    BidRequest { slot: signed_block.slot, parent_hash: signed_block.parent_hash, public_key }
}

/// The state of a multiplexer.
pub struct MuxView {
    /// The relays, in the order of their indices.
    pub relays: Seq<Relay>,
    /// For each auction with a bid that waits for its block, the relays that
    /// can reveal the payload.
    pub outstanding_bids: Map<BidRequest, Seq<usize>>,
    /// The proposer of the auction that last came to a bid.
    pub latest_pubkey: BlsPublicKey,
}

impl MuxView {
    /// Every entry names at least one relay, and only relays that exist.
    pub open spec fn valid(self) -> bool {
        forall|request: BidRequest| #[trigger]
            self.outstanding_bids.contains_key(request) ==> {
                &&& self.outstanding_bids[request].len() > 0
                &&& forall|i: int|
                    0 <= i < self.outstanding_bids[request].len()
                        ==> self.outstanding_bids[request][i] < self.relays.len()
            }
    }

    /// The state after the auction of `request` came to a bid that the relays
    /// at `relay_indices` can reveal.
    pub open spec fn record(self, request: BidRequest, relay_indices: Seq<usize>) -> MuxView {
        MuxView {
            relays: self.relays,
            outstanding_bids: self.outstanding_bids.insert(request, relay_indices),
            latest_pubkey: request.public_key,
        }
    }

    /// The state after the tick of `slot`.
    pub open spec fn on_slot(self, slot: Slot) -> MuxView {
        MuxView {
            relays: self.relays,
            outstanding_bids: open_at(self.outstanding_bids, slot),
            latest_pubkey: self.latest_pubkey,
        }
    }

    /// The auction that `signed_block` is taken to belong to.
    pub open spec fn key_of(self, signed_block: SignedBlindedBeaconBlock) -> BidRequest {
        bid_key(signed_block, self.latest_pubkey)
    }

    /// The relays that are asked to reveal the payload of `signed_block`, or
    /// `None` where no bid waits for it.
    pub open spec fn relays_to_open(self, signed_block: SignedBlindedBeaconBlock) -> Option<
        Seq<usize>,
    > {
        if self.outstanding_bids.contains_key(self.key_of(signed_block)) {
            Some(self.outstanding_bids[self.key_of(signed_block)])
        } else {
            None
        }
    }

    /// The state after the relays of `signed_block` were taken out to be
    /// asked for its payload.
    pub open spec fn opened(self, signed_block: SignedBlindedBeaconBlock) -> MuxView {
        MuxView {
            relays: self.relays,
            outstanding_bids: self.outstanding_bids.remove(self.key_of(signed_block)),
            latest_pubkey: self.latest_pubkey,
        }
    }
}

/// The tick of a slot keeps the bids of the auctions that are open at that
/// slot, and no others.
pub proof fn lemma_on_slot(mux: MuxView, slot: Slot)
    ensures
        forall|request: BidRequest| #[trigger]
            mux.on_slot(slot).outstanding_bids.contains_key(request) <==> (
            mux.outstanding_bids.contains_key(request) && request.slot
                + PROPOSAL_TOLERANCE_DELAY >= slot),
        forall|request: BidRequest| #[trigger]
            mux.on_slot(slot).outstanding_bids.contains_key(request) ==> mux.on_slot(
                slot,
            ).outstanding_bids[request] == mux.outstanding_bids[request],
        mux.valid() ==> mux.on_slot(slot).valid(),
{
}

/// What the multiplexer does keeps its entries in order: each names at least
/// one relay, and only relays that exist.
pub proof fn lemma_valid_is_kept(
    mux: MuxView,
    request: BidRequest,
    relay_indices: Seq<usize>,
    signed_block: SignedBlindedBeaconBlock,
    slot: Slot,
)
    requires
        mux.valid(),
    ensures
        relay_indices.len() > 0 && (forall|i: int|
            0 <= i < relay_indices.len() ==> relay_indices[i] < mux.relays.len()) ==> mux.record(
            request,
            relay_indices,
        ).valid(),
        mux.on_slot(slot).valid(),
        mux.opened(signed_block).valid(),
{
}

/// A bid recorded for an auction at some slot is still found by the block of
/// that auction after the tick of the next slot. After the tick of a later
/// slot the block finds nothing, whatever was recorded before.
pub proof fn lemma_eviction(
    mux: MuxView,
    request: BidRequest,
    relay_indices: Seq<usize>,
    signed_block: SignedBlindedBeaconBlock,
    slot: Slot,
)
    requires
        signed_block.slot == request.slot,
        signed_block.parent_hash == request.parent_hash,
    ensures
        slot <= request.slot + 1 ==> mux.record(request, relay_indices).on_slot(
            slot,
        ).relays_to_open(signed_block) == Some(relay_indices),
        slot >= request.slot + 2 ==> mux.record(request, relay_indices).on_slot(
            slot,
        ).relays_to_open(signed_block) is None,
        slot >= signed_block.slot + 2 ==> mux.on_slot(slot).relays_to_open(signed_block) is None,
{
}

/// The key rebuilt from the block of an auction, under the proposer that was
/// remembered when the auction came to a bid, is the key of that auction:
/// the block finds what was recorded.
pub proof fn lemma_bid_key_round_trip(
    mux: MuxView,
    request: BidRequest,
    relay_indices: Seq<usize>,
    signed_block: SignedBlindedBeaconBlock,
)
    requires
        signed_block.slot == request.slot,
        signed_block.parent_hash == request.parent_hash,
    ensures
        mux.record(request, relay_indices).key_of(signed_block) == request,
        mux.record(request, relay_indices).relays_to_open(signed_block) == Some(relay_indices),
        mux.record(request, relay_indices).opened(signed_block).relays_to_open(signed_block)
            is None,
{
}

/// The answer of the relay with key `relay` to the registrations, which took
/// `elapsed` to settle; `registered` says whether the relay accepted them.
#[derive(Clone, Copy, Debug, PartialEq, Eq)]
pub struct RegistrationResponse {
    pub relay: BlsPublicKey,
    pub elapsed: Duration,
    pub registered: bool,
}

/// The answer of the relay with key `relay` to a signed blinded block, which
/// took `elapsed` to settle: the payload that it revealed, or `None` where
/// the call failed.
#[derive(Clone, Copy, Debug, PartialEq, Eq)]
pub struct PayloadResponse {
    pub relay: BlsPublicKey,
    pub elapsed: Duration,
    pub payload: Option<AuctionContents>,
}

/// What is reported of a call of `method` that settled.
pub open spec fn settled_reports(method: ApiMethod, relay: BlsPublicKey, elapsed: Duration) -> Seq<
    Metric,
> {
    seq![Metric::ApiRequest { method, relay }, Metric::ApiLatency { method, relay, elapsed }]
}

/// What is reported of the answers to the registrations, in their order.
pub open spec fn registration_reports(responses: Seq<RegistrationResponse>) -> Seq<Metric>
    decreases responses.len(),
{
    if responses.len() == 0 {
        Seq::empty()
    } else {
        registration_reports(responses.drop_last()) + settled_reports(
            ApiMethod::Register,
            responses.last().relay,
            responses.last().elapsed,
        )
    }
}

/// What is reported of the answers to a signed blinded block, in their order.
pub open spec fn payload_reports(responses: Seq<PayloadResponse>) -> Seq<Metric>
    decreases responses.len(),
{
    if responses.len() == 0 {
        Seq::empty()
    } else {
        payload_reports(responses.drop_last()) + settled_reports(
            ApiMethod::GetPayload,
            responses.last().relay,
            responses.last().elapsed,
        )
    }
}

/// Whether `response` holds the payload with block hash `expected`.
pub open spec fn delivers(response: PayloadResponse, expected: Hash32) -> bool {
    response.payload matches Some(payload) && payload.block_hash == expected
}

/// Whether the response at `place` is the first that holds the payload with
/// block hash `expected`.
pub open spec fn is_first_delivery(
    responses: Seq<PayloadResponse>,
    expected: Hash32,
    place: int,
) -> bool {
    &&& 0 <= place < responses.len()
    &&& delivers(responses[place], expected)
    &&& forall|i: int| 0 <= i < place ==> !delivers(#[trigger] responses[i], expected)
}

/// What the multiplexer remembers between calls.
struct State {
    outstanding_bids: OutstandingBids,
    latest_pubkey: BlsPublicKey,
}

/// The multiplexer: its relays, and the bids that wait for their block.
pub struct RelayMux {
    relays: Vec<Relay>,
    state: State,
}

impl View for RelayMux {
    type V = MuxView;

    closed spec fn view(&self) -> MuxView {
        MuxView {
            relays: self.relays@,
            outstanding_bids: self.state.outstanding_bids@,
            latest_pubkey: self.state.latest_pubkey,
        }
    }
}

impl RelayMux {
    /// The index of outstanding bids is in order.
    pub closed spec fn index_wf(&self) -> bool {
        self.state.outstanding_bids.wf()
    }

    /// The invariant of the multiplexer: every entry names at least one
    /// relay, and only relays that exist.
    pub open spec fn wf(&self) -> bool {
        self.index_wf() && self@.valid()
    }

    /// A multiplexer over `relays`, with no bid outstanding.
    pub fn new(relays: Vec<Relay>) -> (r: Self)
        ensures
            r.wf(),
            r@.relays == relays@,
            r@.outstanding_bids == Map::<BidRequest, Seq<usize>>::empty(),
            r@.latest_pubkey.is_zero(),
    {
        let state = State {
            outstanding_bids: OutstandingBids::new(),
            latest_pubkey: BlsPublicKey::default(),
        };
        RelayMux { relays, state }
    }

    /// The relays, in the order of their indices.
    pub fn relays(&self) -> (r: &Vec<Relay>)
        ensures
            r@ == self@.relays,
    {
        &self.relays
    }

    /// The relays recorded for the auction of `request`, if a bid waits there.
    pub fn outstanding(&self, request: &BidRequest) -> (r: Option<&Vec<usize>>)
        requires
            self.wf(),
        ensures
            match r {
                Some(relay_indices) => self@.outstanding_bids.contains_key(*request)
                    && relay_indices@ == self@.outstanding_bids[*request],
                None => !self@.outstanding_bids.contains_key(*request),
            },
    {
        self.state.outstanding_bids.get(request)
    }

    /// The tick of `slot`: drops the bids of every auction that is no longer
    /// open at `slot`.
    pub fn on_slot(&mut self, slot: Slot)
        requires
            old(self).wf(),
        ensures
            final(self).wf(),
            final(self)@ == old(self)@.on_slot(slot),
    {
        self.state.outstanding_bids.evict_older_than(slot);
        proof {
            assert forall|request: BidRequest| #[trigger]
                self@.outstanding_bids.contains_key(request) implies old(
                self,
            )@.outstanding_bids.contains_key(request) && self@.outstanding_bids[request] == old(
                self,
            )@.outstanding_bids[request] by {}
        }
    }

    /// Decides a registration from how the relays answered: it succeeded
    /// where at least one relay accepted the registrations. Every answer is
    /// reported to `metrics`.
    pub fn register_validators(responses: &Vec<RegistrationResponse>, metrics: &mut Metrics) -> (r:
        Result<(), Error>)
        ensures
            r is Ok <==> exists|i: int| 0 <= i < responses.len() && responses[i].registered,
            r is Err ==> r == Err::<(), Error>(Error::CouldNotRegister),
            final(metrics)@ == old(metrics)@ + registration_reports(responses@),
    {
        let mut num_failures: usize = 0;
        let mut i: usize = 0;
        while i < responses.len()
            invariant
                i <= responses.len(),
                num_failures <= i,
                num_failures == i <==> forall|j: int| 0 <= j < i ==> !responses[j].registered,
                metrics@ == old(metrics)@ + registration_reports(responses@.take(i as int)),
            decreases responses.len() - i,
        {
            let response = &responses[i];
            proof {
                assert(responses@.take(i + 1).drop_last() == responses@.take(i as int));
            }
            metrics.inc_api_counter(ApiMethod::Register, response.relay);
            metrics.observe_api_latency(ApiMethod::Register, response.relay, response.elapsed);
            if !response.registered {
                num_failures += 1;
            }
            i += 1;
        }
        assert(responses@.take(responses.len() as int) == responses@);
        if num_failures == responses.len() {
            Err(Error::CouldNotRegister)
        } else {
            Ok(())
        }
    }

    /// Decides an auction from how the relays answered. The bids that pass
    /// validation are ranked by value; among the most valuable one is picked
    /// at random and returned. The relays whose bid is as valuable and
    /// commits to the same block are recorded for `bid_request`, the winner
    /// first, and the proposer of `bid_request` is remembered. Where no bid
    /// passes validation, nothing is recorded. Every answer is reported to
    /// `metrics`.
    pub fn fetch_best_bid(
        &mut self,
        bid_request: &BidRequest,
        responses: &Vec<BidResponse>,
        metrics: &mut Metrics,
    ) -> (r: Result<SignedBuilderBid, Error>)
        requires
            old(self).wf(),
            forall|i: int|
                0 <= i < responses.len() ==> (#[trigger] responses[i]).relay_index < old(
                    self,
                )@.relays.len(),
        ensures
            final(self).wf(),
            final(metrics)@ == old(metrics)@ + all_bid_reports(old(self)@.relays, responses@),
            r is Ok <==> retained_bids(old(self)@.relays, responses@).len() > 0,
            match r {
                Ok(bid) => exists|order: Seq<usize>|
                    {
                        &&& #[trigger] order.to_multiset() == best_places(
                            retained_bids(old(self)@.relays, responses@),
                        ).to_multiset()
                        &&& order.len() > 0
                        &&& bid == retained_bids(old(self)@.relays, responses@)[order[0] as int].0
                        &&& final(self)@ == old(self)@.record(
                            *bid_request,
                            eligible_relays(retained_bids(old(self)@.relays, responses@), order),
                        )
                    },
                Err(error) => error == Error::NoBids && final(self)@ == old(self)@,
            },
    {
        let mut bids: Vec<(SignedBuilderBid, usize)> = Vec::with_capacity(responses.len());
        let mut i: usize = 0;
        proof {
            reveal(Seq::filter);
            assert(responses@.take(0) == Seq::<BidResponse>::empty());
        }
        while i < responses.len()
            invariant
                i <= responses.len(),
                *self == *old(self),
                self@.relays == self.relays@,
                forall|i: int|
                    0 <= i < responses.len() ==> (#[trigger] responses[i]).relay_index
                        < self.relays.len(),
                bids@ == retained_bids(self@.relays, responses@.take(i as int)),
                forall|k: int| 0 <= k < bids.len() ==> (#[trigger] bids[k]).1 < self.relays.len(),
                metrics@ == old(metrics)@ + all_bid_reports(
                    self@.relays,
                    responses@.take(i as int),
                ),
            decreases responses.len() - i,
        {
            let response = &responses[i];
            let relay_index = response.relay_index;
            let relay_public_key = self.relays[relay_index].public_key;
            proof {
                let seen = responses@.take(i as int);
                assert(responses@.take(i + 1) == seen.push(*response));
                assert(seen.push(*response).drop_last() == seen);
                lemma_retained_push(self@.relays, seen, *response);
            }

            metrics.inc_api_counter(ApiMethod::GetHeader, relay_public_key);
            metrics.observe_api_latency(ApiMethod::GetHeader, relay_public_key, response.elapsed);

            match response.outcome {
                BidOutcome::Bid { bid, signature_verified } => {
                    if validate_bid(&bid, &relay_public_key, signature_verified).is_err() {
                        metrics.inc_auction_counter(AuctionCounter::InvalidBid, relay_public_key);
                    } else {
                        bids.push((bid, relay_index));
                    }
                },
                BidOutcome::Failed => {},
                BidOutcome::TimedOut => {
                    metrics.inc_api_timeout(ApiMethod::GetHeader, relay_public_key);
                },
            }
            i += 1;
        }
        assert(responses@.take(responses.len() as int) == responses@);

        let values = values_of(&bids);
        let mut best_indices = select_best_bids(&values);
        proof {
            lemma_best_places(bids@);
        }

        if best_indices.is_empty() {
            return Err(Error::NoBids);
        }
        // if multiple bids have the same value, break the tie by randomly picking one

        let ghost ranked = best_indices@;
        let mut rng = rand::thread_rng();
        shuffle(&mut best_indices, &mut rng);
        proof {
            ranked.to_multiset_ensures();
            best_indices@.to_multiset_ensures();
            assert forall|k: int| 0 <= k < best_indices.len() implies best_indices[k]
                < bids.len() by {
                assert(best_indices@.contains(best_indices[k]));
                assert(best_indices@.to_multiset().count(best_indices[k]) > 0);
                assert(ranked.to_multiset().count(best_indices[k]) > 0);
                assert(ranked.contains(best_indices[k]));
            }
        }
        let relay_indices = matching_relays(&bids, &best_indices);
        let best_bid = bids[best_indices[0]].0;

        // assume the next request to open a bid corresponds to the current request
        self.state.latest_pubkey = bid_request.public_key;
        self.state.outstanding_bids.insert(*bid_request, relay_indices);

        proof {
            assert(self@ == old(self)@.record(*bid_request, eligible_relays(bids@, best_indices@)));
            assert forall|j: int| 0 <= j < relay_indices.len() implies relay_indices[j]
                < self.relays.len() by {
                let k = choose|k: int|
                    0 <= k < best_indices.len() && relay_indices[j]
                        == bids[best_indices[k] as int].1;
                assert(bids[best_indices[k] as int].1 < self.relays.len());
            }
        }
        Ok(best_bid)
    }

    /// Takes out the relays that are to be asked for the payload of
    /// `signed_block`: those recorded for its slot and parent hash under the
    /// proposer that was remembered last.
    pub fn open_bid_relays(&mut self, signed_block: &SignedBlindedBeaconBlock) -> (r: Result<
        Vec<usize>,
        Error,
    >)
        requires
            old(self).wf(),
        ensures
            final(self).wf(),
            match r {
                Ok(relay_indices) => {
                    &&& old(self)@.relays_to_open(*signed_block) == Some(relay_indices@)
                    &&& final(self)@ == old(self)@.opened(*signed_block)
                    &&& relay_indices.len() > 0
                    &&& forall|i: int|
                        0 <= i < relay_indices.len() ==> relay_indices[i] < old(self)@.relays.len()
                },
                Err(error) => {
                    &&& error == Error::MissingOpenBid
                    &&& old(self)@.relays_to_open(*signed_block) is None
                    &&& final(self)@ == old(self)@
                },
            },
    {
        let key = bid_key_from(signed_block, &self.state.latest_pubkey);
        match self.state.outstanding_bids.take(&key) {
            Some(relay_indices) => Ok(relay_indices),
            None => Err(Error::MissingOpenBid),
        }
    }

    /// Decides which payload to hand to the proposer from how the relays
    /// answered: the first, in the order of `responses`, whose block hash is
    /// the one that the proposer signed. The answers up to that one are
    /// reported to `metrics`; where none holds the payload, all are.
    pub fn open_bid(
        signed_block: &SignedBlindedBeaconBlock,
        responses: &Vec<PayloadResponse>,
        metrics: &mut Metrics,
    ) -> (r: Result<AuctionContents, Error>)
        ensures
            match r {
                Ok(payload) => exists|place: int|
                    {
                        &&& #[trigger] is_first_delivery(
                            responses@,
                            signed_block.block_hash,
                            place,
                        )
                        &&& responses[place].payload == Some(payload)
                        &&& final(metrics)@ == old(metrics)@ + payload_reports(
                            responses@.take(place + 1),
                        )
                    },
                Err(error) => {
                    &&& error == Error::MissingPayload(signed_block.block_hash)
                    &&& forall|i: int|
                        0 <= i < responses.len() ==> !delivers(
                            #[trigger] responses[i],
                            signed_block.block_hash,
                        )
                    &&& final(metrics)@ == old(metrics)@ + payload_reports(responses@)
                },
            },
    {
        let expected_block_hash = *signed_block.block_hash();
        let mut i: usize = 0;
        while i < responses.len()
            invariant
                i <= responses.len(),
                expected_block_hash == signed_block.block_hash,
                forall|j: int|
                    0 <= j < i ==> !delivers(#[trigger] responses[j], expected_block_hash),
                metrics@ == old(metrics)@ + payload_reports(responses@.take(i as int)),
            decreases responses.len() - i,
        {
            let response = &responses[i];
            proof {
                assert(responses@.take(i + 1).drop_last() == responses@.take(i as int));
            }
            metrics.inc_api_counter(ApiMethod::GetPayload, response.relay);
            metrics.observe_api_latency(ApiMethod::GetPayload, response.relay, response.elapsed);

            match response.payload {
                Some(payload) => {
                    if *payload.block_hash() == expected_block_hash {
                        assert(is_first_delivery(responses@, signed_block.block_hash, i as int));
                        return Ok(payload);
                    }
                },
                None => {},
            }
            i += 1;
        }
        assert(responses@.take(responses.len() as int) == responses@);
        Err(Error::MissingPayload(expected_block_hash))
    }
}

/// The key under which the bid for `signed_block` is kept, if `public_key`
/// is the key of its proposer.
pub fn bid_key_from(signed_block: &SignedBlindedBeaconBlock, public_key: &BlsPublicKey) -> (r:
    BidRequest)
    ensures
        r == bid_key(*signed_block, *public_key),
{
    let slot = signed_block.slot();
    let parent_hash = *signed_block.parent_hash();

    BidRequest { slot, parent_hash, public_key: *public_key }
}

} // verus!
