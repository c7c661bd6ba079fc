use mev_boost::auction::{matching_relays, BidOutcome, BidResponse};
use mev_boost::error::Error;
use mev_boost::metrics::{ApiMethod, AuctionCounter, Metric, Metrics};
use mev_boost::primitives::{BlsPublicKey, BlsSignature, Hash32};
use mev_boost::relay_mux::{
    bid_key_from, PayloadResponse, RegistrationResponse, Relay, RelayMux,
    FETCH_BEST_BID_TIME_OUT_SECS,
};
use mev_boost::types::{
    AuctionContents, BidRequest, Fork, SignedBlindedBeaconBlock, SignedBuilderBid,
};
use mev_boost::uint::U256;
use std::time::Duration;

fn key(n: u8) -> BlsPublicKey {
    BlsPublicKey::new([n; 48])
}

fn hash(n: u8) -> Hash32 {
    Hash32::new([n; 32])
}

fn relays(n: u8) -> Vec<Relay> {
    (0..n).map(|i| Relay { public_key: key(i) }).collect()
}

fn bid(value: u64, relay: u8, block: u8) -> SignedBuilderBid {
    SignedBuilderBid {
        version: Fork::Deneb,
        value: U256::from(value),
        public_key: key(relay),
        block_hash: hash(block),
        signature: BlsSignature::new([relay; 96]),
    }
}

fn answer(relay: u8, millis: u64, value: u64, block: u8) -> BidResponse {
    BidResponse {
        relay_index: relay as usize,
        elapsed: Duration::from_millis(millis),
        outcome: BidOutcome::Bid { bid: bid(value, relay, block), signature_verified: true },
    }
}

fn request_for(slot: u64, parent: u8, proposer: u8) -> BidRequest {
    BidRequest { slot, parent_hash: hash(parent), public_key: key(proposer) }
}

fn block(slot: u64, parent: u8, block: u8) -> SignedBlindedBeaconBlock {
    SignedBlindedBeaconBlock {
        version: Fork::Deneb,
        slot,
        parent_hash: hash(parent),
        block_hash: hash(block),
    }
}

fn payload(relay: u8, millis: u64, block: Option<u8>) -> PayloadResponse {
    PayloadResponse {
        relay: key(relay),
        elapsed: Duration::from_millis(millis),
        payload: block.map(|b| AuctionContents { version: Fork::Deneb, block_hash: hash(b) }),
    }
}

fn count(metrics: &Metrics, wanted: impl Fn(&Metric) -> bool) -> usize {
    metrics.reports.iter().filter(|m| wanted(m)).count()
}

const H1: u8 = 0xa1;
const H2: u8 = 0xa2;
const H3: u8 = 0xa3;
const PARENT: u8 = 0x50;
const PROPOSER: u8 = 0x77;

#[test]
fn single_best_bid() {
    let mut mux = RelayMux::new(relays(3));
    let mut metrics = Metrics::new();
    let responses =
        vec![answer(0, 10, 100, H1), answer(1, 20, 200, H2), answer(2, 30, 150, H3)];
    let request = request_for(10, PARENT, PROPOSER);

    let best = mux.fetch_best_bid(&request, &responses, &mut metrics).unwrap();
    assert_eq!(best, bid(200, 1, H2));
    assert_eq!(*best.value(), U256::from(200u64));
    assert_eq!(*best.block_hash(), hash(H2));
    assert_eq!(mux.outstanding(&request), Some(&vec![1]));

    let signed_block = block(10, PARENT, H2);
    let relay_indices = mux.open_bid_relays(&signed_block).unwrap();
    assert_eq!(relay_indices, vec![1]);
    assert_eq!(mux.outstanding(&request), None);

    let responses = vec![payload(1, 15, Some(H2))];
    let opened = RelayMux::open_bid(&signed_block, &responses, &mut metrics).unwrap();
    assert_eq!(opened, AuctionContents { version: Fork::Deneb, block_hash: hash(H2) });
}

#[test]
fn completion_order_decides_nothing_but_ties() {
    let mut mux = RelayMux::new(relays(3));
    let mut metrics = Metrics::new();
    let responses =
        vec![answer(2, 10, 150, H3), answer(1, 20, 200, H2), answer(0, 30, 100, H1)];
    let request = request_for(10, PARENT, PROPOSER);
    let best = mux.fetch_best_bid(&request, &responses, &mut metrics).unwrap();
    assert_eq!(best, bid(200, 1, H2));
    assert_eq!(mux.outstanding(&request), Some(&vec![1]));
}

#[test]
fn best_bid_of_a_relay_that_answers_after_a_dropped_one() {
    let mut mux = RelayMux::new(relays(3));
    let mut metrics = Metrics::new();
    let responses = vec![
        BidResponse {
            relay_index: 0,
            elapsed: Duration::from_millis(5),
            outcome: BidOutcome::Failed,
        },
        answer(2, 10, 300, H3),
    ];
    let request = request_for(10, PARENT, PROPOSER);
    let best = mux.fetch_best_bid(&request, &responses, &mut metrics).unwrap();
    assert_eq!(best, bid(300, 2, H3));
    assert_eq!(mux.outstanding(&request), Some(&vec![2]));
}

#[test]
fn tie_broken_by_block_hash_then_shuffle() {
    const HA: u8 = 0xaa;
    const HB: u8 = 0xbb;
    let request = request_for(10, PARENT, PROPOSER);
    let responses = vec![answer(0, 10, 500, HA), answer(1, 20, 500, HB), answer(2, 30, 500, HA)];
    let mut seen_a = false;
    let mut seen_b = false;
    for _ in 0..300 {
        let mut mux = RelayMux::new(relays(3));
        let mut metrics = Metrics::new();
        let best = mux.fetch_best_bid(&request, &responses, &mut metrics).unwrap();
        assert_eq!(*best.value(), U256::from(500u64));
        let recorded = mux.outstanding(&request).unwrap().clone();
        if *best.block_hash() == hash(HA) {
            seen_a = true;
            assert!(best == bid(500, 0, HA) || best == bid(500, 2, HA));
            let mut sorted = recorded.clone();
            sorted.sort();
            assert_eq!(sorted, vec![0, 2]);
            assert_eq!(best, bid(500, recorded[0] as u8, HA));

            let signed_block = block(10, PARENT, HA);
            let relay_indices = mux.open_bid_relays(&signed_block).unwrap();
            assert_eq!(relay_indices, recorded);
            let either = vec![payload(recorded[0] as u8, 5, None), payload(recorded[1] as u8, 6, Some(HA))];
            let opened = RelayMux::open_bid(&signed_block, &either, &mut metrics).unwrap();
            assert_eq!(*opened.block_hash(), hash(HA));
        } else {
            seen_b = true;
            assert_eq!(best, bid(500, 1, HB));
            assert_eq!(recorded, vec![1]);
        }
    }
    assert!(seen_a);
    assert!(seen_b);
}

#[test]
fn every_winner_of_a_tie_comes_up() {
    let request = request_for(10, PARENT, PROPOSER);
    let responses = vec![answer(0, 10, 500, H1), answer(1, 20, 500, H2)];
    let mut first = 0;
    let mut second = 0;
    for _ in 0..400 {
        let mut mux = RelayMux::new(relays(2));
        let mut metrics = Metrics::new();
        let best = mux.fetch_best_bid(&request, &responses, &mut metrics).unwrap();
        if best == bid(500, 0, H1) {
            first += 1;
            assert_eq!(mux.outstanding(&request), Some(&vec![0]));
        } else {
            assert_eq!(best, bid(500, 1, H2));
            second += 1;
            assert_eq!(mux.outstanding(&request), Some(&vec![1]));
        }
    }
    assert!(first > 0);
    assert!(second > 0);
}

#[test]
fn matching_relays_follow_the_order_given() {
    const HA: u8 = 0xaa;
    const HB: u8 = 0xbb;
    let bids = vec![(bid(500, 0, HA), 0usize), (bid(500, 1, HB), 1usize), (bid(500, 2, HA), 2usize)];
    assert_eq!(matching_relays(&bids, &vec![0, 1, 2]), vec![0, 2]);
    assert_eq!(matching_relays(&bids, &vec![2, 1, 0]), vec![2, 0]);
    assert_eq!(matching_relays(&bids, &vec![2, 0, 1]), vec![2, 0]);
    assert_eq!(matching_relays(&bids, &vec![1, 0, 2]), vec![1]);
    assert_eq!(matching_relays(&bids, &vec![1]), vec![1]);
}

#[test]
fn matching_relays_are_those_of_the_bids_not_their_places() {
    let bids = vec![(bid(9, 4, H1), 4usize), (bid(9, 7, H1), 7usize), (bid(9, 5, H2), 5usize)];
    assert_eq!(matching_relays(&bids, &vec![1, 2, 0]), vec![7, 4]);
    assert_eq!(matching_relays(&bids, &vec![2, 0, 1]), vec![5]);
}

#[test]
fn timeout() {
    let mut mux = RelayMux::new(relays(3));
    let mut metrics = Metrics::new();
    let responses = vec![
        answer(0, 200, 100, H1),
        answer(1, 200, 300, H2),
        BidResponse {
            relay_index: 2,
            elapsed: Duration::from_secs(FETCH_BEST_BID_TIME_OUT_SECS),
            outcome: BidOutcome::TimedOut,
        },
    ];
    let request = request_for(10, PARENT, PROPOSER);
    let best = mux.fetch_best_bid(&request, &responses, &mut metrics).unwrap();
    assert_eq!(best, bid(300, 1, H2));
    assert_eq!(count(&metrics, |m| matches!(m, Metric::ApiTimeout { .. })), 1);
    assert!(metrics.reports.contains(&Metric::ApiTimeout {
        method: ApiMethod::GetHeader,
        relay: key(2)
    }));
    assert_eq!(count(&metrics, |m| matches!(m, Metric::ApiRequest { .. })), 3);
    assert_eq!(count(&metrics, |m| matches!(m, Metric::Auction { .. })), 0);
    assert_eq!(FETCH_BEST_BID_TIME_OUT_SECS, 1);
}

#[test]
fn reports_of_an_auction_are_exact() {
    let mut mux = RelayMux::new(relays(3));
    let mut metrics = Metrics::new();
    let mut forged = answer(1, 30, 900, H2);
    forged.outcome = BidOutcome::Bid { bid: bid(900, 1, H2), signature_verified: false };
    let responses = vec![
        BidResponse { relay_index: 2, elapsed: Duration::from_secs(1), outcome: BidOutcome::TimedOut },
        forged,
        answer(0, 40, 100, H1),
        BidResponse { relay_index: 1, elapsed: Duration::from_millis(7), outcome: BidOutcome::Failed },
    ];
    let request = request_for(10, PARENT, PROPOSER);
    let best = mux.fetch_best_bid(&request, &responses, &mut metrics).unwrap();
    assert_eq!(best, bid(100, 0, H1));
    let method = ApiMethod::GetHeader;
    assert_eq!(
        metrics.reports,
        vec![
            Metric::ApiRequest { method, relay: key(2) },
            Metric::ApiLatency { method, relay: key(2), elapsed: Duration::from_secs(1) },
            Metric::ApiTimeout { method, relay: key(2) },
            Metric::ApiRequest { method, relay: key(1) },
            Metric::ApiLatency { method, relay: key(1), elapsed: Duration::from_millis(30) },
            Metric::Auction { counter: AuctionCounter::InvalidBid, relay: key(1) },
            Metric::ApiRequest { method, relay: key(0) },
            Metric::ApiLatency { method, relay: key(0), elapsed: Duration::from_millis(40) },
            Metric::ApiRequest { method, relay: key(1) },
            Metric::ApiLatency { method, relay: key(1), elapsed: Duration::from_millis(7) },
        ]
    );
}

#[test]
fn all_signatures_invalid() {
    let mut mux = RelayMux::new(relays(2));
    let mut metrics = Metrics::new();
    let responses = vec![
        BidResponse {
            relay_index: 0,
            elapsed: Duration::from_millis(10),
            outcome: BidOutcome::Bid { bid: bid(100, 0, H1), signature_verified: false },
        },
        BidResponse {
            relay_index: 1,
            elapsed: Duration::from_millis(10),
            outcome: BidOutcome::Bid { bid: bid(200, 1, H2), signature_verified: false },
        },
    ];
    let request = request_for(10, PARENT, PROPOSER);
    let result = mux.fetch_best_bid(&request, &responses, &mut metrics);
    assert_eq!(result, Err(Error::NoBids));
    assert_eq!(
        count(&metrics, |m| matches!(
            m,
            Metric::Auction { counter: AuctionCounter::InvalidBid, .. }
        )),
        2
    );
    assert_eq!(mux.outstanding(&request), None);
    assert_eq!(mux.open_bid_relays(&block(10, PARENT, H1)), Err(Error::MissingOpenBid));
}

#[test]
fn no_answers_no_bids() {
    let mut mux = RelayMux::new(relays(2));
    let mut metrics = Metrics::new();
    let request = request_for(10, PARENT, PROPOSER);
    assert_eq!(mux.fetch_best_bid(&request, &vec![], &mut metrics), Err(Error::NoBids));
    assert!(metrics.reports.is_empty());
    assert_eq!(mux.outstanding(&request), None);
}

#[test]
fn failed_auction_keeps_what_was_recorded() {
    let mut mux = RelayMux::new(relays(2));
    let mut metrics = Metrics::new();
    let first = request_for(10, PARENT, PROPOSER);
    mux.fetch_best_bid(&first, &vec![answer(1, 10, 5, H1)], &mut metrics).unwrap();
    let second = request_for(10, PARENT, 0x78);
    let failed = BidResponse {
        relay_index: 0,
        elapsed: Duration::from_millis(1),
        outcome: BidOutcome::Failed,
    };
    assert_eq!(mux.fetch_best_bid(&second, &vec![failed], &mut metrics), Err(Error::NoBids));
    assert_eq!(mux.outstanding(&first), Some(&vec![1]));
    // the proposer remembered is still that of the auction that came to a bid
    assert_eq!(mux.open_bid_relays(&block(10, PARENT, H1)), Ok(vec![1]));
}

#[test]
fn bid_with_another_key_is_never_retained() {
    let mut mux = RelayMux::new(relays(2));
    let mut metrics = Metrics::new();
    // relay 0 returns a bid that names the key of relay 1, worth more than any other
    let stolen = BidResponse {
        relay_index: 0,
        elapsed: Duration::from_millis(10),
        outcome: BidOutcome::Bid { bid: bid(1000, 1, H1), signature_verified: true },
    };
    let request = request_for(10, PARENT, PROPOSER);
    let responses = vec![stolen, answer(1, 20, 1, H2)];
    let best = mux.fetch_best_bid(&request, &responses, &mut metrics).unwrap();
    assert_eq!(best, bid(1, 1, H2));
    assert_eq!(mux.outstanding(&request), Some(&vec![1]));
    assert!(metrics.reports.contains(&Metric::Auction {
        counter: AuctionCounter::InvalidBid,
        relay: key(0)
    }));

    let mut mux = RelayMux::new(relays(2));
    let result = mux.fetch_best_bid(&request, &vec![stolen], &mut metrics);
    assert_eq!(result, Err(Error::NoBids));
    assert_eq!(mux.outstanding(&request), None);
}

#[test]
fn open_bid_mismatch() {
    let mut mux = RelayMux::new(relays(1));
    let mut metrics = Metrics::new();
    let request = request_for(10, PARENT, PROPOSER);
    mux.fetch_best_bid(&request, &vec![answer(0, 10, 100, H1)], &mut metrics).unwrap();
    let signed_block = block(10, PARENT, H1);
    assert_eq!(mux.open_bid_relays(&signed_block), Ok(vec![0]));
    let responses = vec![payload(0, 10, Some(H2))];
    let result = RelayMux::open_bid(&signed_block, &responses, &mut metrics);
    assert_eq!(result, Err(Error::MissingPayload(hash(H1))));
}

#[test]
fn open_bid_takes_the_first_payload_that_matches() {
    let mut metrics = Metrics::new();
    let signed_block = block(10, PARENT, H1);
    let responses = vec![
        payload(3, 10, None),
        payload(1, 20, Some(H2)),
        payload(2, 30, Some(H1)),
        payload(0, 40, Some(H1)),
    ];
    let opened = RelayMux::open_bid(&signed_block, &responses, &mut metrics).unwrap();
    assert_eq!(*opened.block_hash(), hash(H1));
    let method = ApiMethod::GetPayload;
    assert_eq!(
        metrics.reports,
        vec![
            Metric::ApiRequest { method, relay: key(3) },
            Metric::ApiLatency { method, relay: key(3), elapsed: Duration::from_millis(10) },
            Metric::ApiRequest { method, relay: key(1) },
            Metric::ApiLatency { method, relay: key(1), elapsed: Duration::from_millis(20) },
            Metric::ApiRequest { method, relay: key(2) },
            Metric::ApiLatency { method, relay: key(2), elapsed: Duration::from_millis(30) },
        ]
    );
}

#[test]
fn open_bid_without_payload_reports_every_answer() {
    let mut metrics = Metrics::new();
    let signed_block = block(10, PARENT, H1);
    let responses = vec![payload(0, 10, None), payload(1, 20, Some(H2))];
    let result = RelayMux::open_bid(&signed_block, &responses, &mut metrics);
    assert_eq!(result, Err(Error::MissingPayload(hash(H1))));
    assert_eq!(metrics.reports.len(), 4);
    assert_eq!(
        RelayMux::open_bid(&signed_block, &vec![], &mut metrics),
        Err(Error::MissingPayload(hash(H1)))
    );
    assert_eq!(metrics.reports.len(), 4);
}

#[test]
fn open_bid_without_fetch_is_missing() {
    let mut mux = RelayMux::new(relays(1));
    assert_eq!(mux.open_bid_relays(&block(10, PARENT, H1)), Err(Error::MissingOpenBid));
}

#[test]
fn open_bid_is_taken_once() {
    let mut mux = RelayMux::new(relays(1));
    let mut metrics = Metrics::new();
    let request = request_for(10, PARENT, PROPOSER);
    mux.fetch_best_bid(&request, &vec![answer(0, 10, 100, H1)], &mut metrics).unwrap();
    let signed_block = block(10, PARENT, H1);
    assert_eq!(mux.open_bid_relays(&signed_block), Ok(vec![0]));
    assert_eq!(mux.open_bid_relays(&signed_block), Err(Error::MissingOpenBid));
}

#[test]
fn open_bid_goes_by_the_proposer_remembered_last() {
    let mut mux = RelayMux::new(relays(2));
    let mut metrics = Metrics::new();
    let first = request_for(10, PARENT, 0x01);
    let second = request_for(10, PARENT, 0x02);
    mux.fetch_best_bid(&first, &vec![answer(0, 10, 100, H1)], &mut metrics).unwrap();
    mux.fetch_best_bid(&second, &vec![answer(1, 10, 100, H2)], &mut metrics).unwrap();
    let signed_block = block(10, PARENT, H2);
    assert_eq!(mux.open_bid_relays(&signed_block), Ok(vec![1]));
    // the entry of the first proposer is still there, but no block finds it
    assert_eq!(mux.outstanding(&first), Some(&vec![0]));
    assert_eq!(mux.open_bid_relays(&signed_block), Err(Error::MissingOpenBid));
}

#[test]
fn fetch_overwrites_the_entry_of_its_auction() {
    let mut mux = RelayMux::new(relays(2));
    let mut metrics = Metrics::new();
    let request = request_for(10, PARENT, PROPOSER);
    mux.fetch_best_bid(&request, &vec![answer(0, 10, 100, H1)], &mut metrics).unwrap();
    mux.fetch_best_bid(&request, &vec![answer(1, 10, 50, H2)], &mut metrics).unwrap();
    assert_eq!(mux.outstanding(&request), Some(&vec![1]));
}

#[test]
fn outstanding_bid_eviction() {
    for slot in [0u64, 1, 10, 1_000_000] {
        let request = request_for(slot, PARENT, PROPOSER);
        let signed_block = block(slot, PARENT, H1);

        let mut mux = RelayMux::new(relays(1));
        let mut metrics = Metrics::new();
        mux.fetch_best_bid(&request, &vec![answer(0, 10, 100, H1)], &mut metrics).unwrap();
        mux.on_slot(slot + 2);
        assert_eq!(mux.open_bid_relays(&signed_block), Err(Error::MissingOpenBid));

        let mut mux = RelayMux::new(relays(1));
        mux.fetch_best_bid(&request, &vec![answer(0, 10, 100, H1)], &mut metrics).unwrap();
        mux.on_slot(slot + 1);
        assert_eq!(mux.outstanding(&request), Some(&vec![0]));
        assert_eq!(mux.open_bid_relays(&signed_block), Ok(vec![0]));

        let mut mux = RelayMux::new(relays(1));
        mux.fetch_best_bid(&request, &vec![answer(0, 10, 100, H1)], &mut metrics).unwrap();
        mux.on_slot(slot);
        mux.on_slot(0);
        assert_eq!(mux.open_bid_relays(&signed_block), Ok(vec![0]));
    }
}

#[test]
fn eviction_at_the_last_slot_does_not_overflow() {
    let request = request_for(u64::MAX, PARENT, PROPOSER);
    let mut mux = RelayMux::new(relays(1));
    let mut metrics = Metrics::new();
    mux.fetch_best_bid(&request, &vec![answer(0, 10, 100, H1)], &mut metrics).unwrap();
    mux.on_slot(u64::MAX);
    assert_eq!(mux.outstanding(&request), Some(&vec![0]));

    let request = request_for(u64::MAX - 1, PARENT, PROPOSER);
    mux.fetch_best_bid(&request, &vec![answer(0, 10, 100, H1)], &mut metrics).unwrap();
    mux.on_slot(u64::MAX);
    assert_eq!(mux.outstanding(&request), Some(&vec![0]));

    let request = request_for(u64::MAX - 2, PARENT, PROPOSER);
    mux.fetch_best_bid(&request, &vec![answer(0, 10, 100, H1)], &mut metrics).unwrap();
    mux.on_slot(u64::MAX);
    assert_eq!(mux.outstanding(&request), None);
}

#[test]
fn slot_eviction_under_contention() {
    let mut mux = RelayMux::new(relays(2));
    let mut metrics = Metrics::new();
    let at_ten = request_for(10, PARENT, PROPOSER);
    let at_eleven = request_for(11, 0x51, PROPOSER);
    mux.fetch_best_bid(&at_ten, &vec![answer(0, 10, 100, H1)], &mut metrics).unwrap();
    mux.fetch_best_bid(&at_eleven, &vec![answer(1, 10, 100, H2)], &mut metrics).unwrap();
    mux.on_slot(12);
    assert_eq!(mux.open_bid_relays(&block(10, PARENT, H1)), Err(Error::MissingOpenBid));
    assert_eq!(mux.outstanding(&at_ten), None);
    assert_eq!(mux.outstanding(&at_eleven), Some(&vec![1]));
    assert_eq!(mux.open_bid_relays(&block(11, 0x51, H2)), Ok(vec![1]));

    // the tick may also come between the two auctions
    let mut mux = RelayMux::new(relays(2));
    mux.fetch_best_bid(&at_ten, &vec![answer(0, 10, 100, H1)], &mut metrics).unwrap();
    mux.on_slot(12);
    mux.fetch_best_bid(&at_eleven, &vec![answer(1, 10, 100, H2)], &mut metrics).unwrap();
    assert_eq!(mux.outstanding(&at_ten), None);
    assert_eq!(mux.outstanding(&at_eleven), Some(&vec![1]));
    // an auction recorded after the tick stays until the next tick
    mux.fetch_best_bid(&at_ten, &vec![answer(0, 10, 100, H1)], &mut metrics).unwrap();
    assert_eq!(mux.outstanding(&at_ten), Some(&vec![0]));
    mux.on_slot(12);
    assert_eq!(mux.outstanding(&at_ten), None);
}

#[test]
fn bid_key_round_trip() {
    for (slot, parent, proposer) in [(0u64, 0u8, 0u8), (10, PARENT, PROPOSER), (u64::MAX, 255, 255)]
    {
        let request = request_for(slot, parent, proposer);
        let signed_block = block(slot, parent, H1);
        assert_eq!(bid_key_from(&signed_block, &key(proposer)), request);

        let mut mux = RelayMux::new(relays(1));
        let mut metrics = Metrics::new();
        mux.fetch_best_bid(&request, &vec![answer(0, 10, 100, H1)], &mut metrics).unwrap();
        assert_eq!(mux.open_bid_relays(&signed_block), Ok(vec![0]));
    }
    // another parent hash, another slot or another proposer is another key
    let request = request_for(10, PARENT, PROPOSER);
    assert_ne!(bid_key_from(&block(10, 0x51, H1), &key(PROPOSER)), request);
    assert_ne!(bid_key_from(&block(11, PARENT, H1), &key(PROPOSER)), request);
    assert_ne!(bid_key_from(&block(10, PARENT, H1), &key(0x78)), request);
}

#[test]
fn register_validators_any_success() {
    let ok = |relay: u8| RegistrationResponse {
        relay: key(relay),
        elapsed: Duration::from_millis(3),
        registered: true,
    };
    let failed = |relay: u8| RegistrationResponse {
        relay: key(relay),
        elapsed: Duration::from_millis(4),
        registered: false,
    };
    let mut metrics = Metrics::new();
    assert_eq!(RelayMux::register_validators(&vec![ok(0), ok(1)], &mut metrics), Ok(()));
    assert_eq!(RelayMux::register_validators(&vec![failed(0), ok(1)], &mut metrics), Ok(()));
    assert_eq!(RelayMux::register_validators(&vec![ok(0), failed(1)], &mut metrics), Ok(()));
    assert_eq!(
        RelayMux::register_validators(&vec![failed(0), failed(1), ok(2)], &mut metrics),
        Ok(())
    );
    assert_eq!(
        RelayMux::register_validators(&vec![failed(0), failed(1)], &mut metrics),
        Err(Error::CouldNotRegister)
    );
    assert_eq!(
        RelayMux::register_validators(&vec![failed(0)], &mut metrics),
        Err(Error::CouldNotRegister)
    );
    assert_eq!(RelayMux::register_validators(&vec![], &mut metrics), Err(Error::CouldNotRegister));
}

#[test]
fn register_validators_reports_every_answer() {
    let mut metrics = Metrics::new();
    let responses = vec![
        RegistrationResponse { relay: key(1), elapsed: Duration::from_millis(3), registered: false },
        RegistrationResponse { relay: key(0), elapsed: Duration::from_millis(9), registered: true },
    ];
    assert_eq!(RelayMux::register_validators(&responses, &mut metrics), Ok(()));
    let method = ApiMethod::Register;
    assert_eq!(
        metrics.reports,
        vec![
            Metric::ApiRequest { method, relay: key(1) },
            Metric::ApiLatency { method, relay: key(1), elapsed: Duration::from_millis(3) },
            Metric::ApiRequest { method, relay: key(0) },
            Metric::ApiLatency { method, relay: key(0), elapsed: Duration::from_millis(9) },
        ]
    );
}

#[test]
fn new_multiplexer_is_empty() {
    let mux = RelayMux::new(relays(3));
    assert_eq!(mux.relays().len(), 3);
    assert_eq!(mux.relays()[2], Relay { public_key: key(2) });
    assert_eq!(mux.outstanding(&request_for(0, 0, 0)), None);
}

#[test]
fn multiplexer_without_relays() {
    let mut mux = RelayMux::new(vec![]);
    let mut metrics = Metrics::new();
    let request = request_for(10, PARENT, PROPOSER);
    assert_eq!(mux.fetch_best_bid(&request, &vec![], &mut metrics), Err(Error::NoBids));
    assert_eq!(RelayMux::register_validators(&vec![], &mut metrics), Err(Error::CouldNotRegister));
    assert_eq!(mux.open_bid_relays(&block(10, PARENT, H1)), Err(Error::MissingOpenBid));
    mux.on_slot(11);
    assert!(mux.relays().is_empty());
    assert!(metrics.reports.is_empty());
}

#[test]
fn bid_of_value_zero_wins_where_it_is_the_only_one() {
    let mut mux = RelayMux::new(relays(2));
    let mut metrics = Metrics::new();
    let request = request_for(10, PARENT, PROPOSER);
    let best = mux.fetch_best_bid(&request, &vec![answer(1, 10, 0, H1)], &mut metrics).unwrap();
    assert_eq!(best, bid(0, 1, H1));
    assert_eq!(mux.outstanding(&request), Some(&vec![1]));
}

#[test]
fn values_beyond_128_bits_are_ranked() {
    let mut mux = RelayMux::new(relays(3));
    let mut metrics = Metrics::new();
    let request = request_for(10, PARENT, PROPOSER);
    let mut small = answer(0, 10, 0, H1);
    let mut large = answer(1, 10, 0, H2);
    let mut middle = answer(2, 10, 0, H3);
    let with_value = |response: &mut BidResponse, value: U256| {
        if let BidOutcome::Bid { bid, .. } = &mut response.outcome {
            bid.value = value;
        }
    };
    with_value(&mut small, U256::new(0, u128::MAX));
    with_value(&mut large, U256::new(2, 0));
    with_value(&mut middle, U256::new(1, u128::MAX));
    let best = mux.fetch_best_bid(&request, &vec![small, large, middle], &mut metrics).unwrap();
    assert_eq!(*best.value(), U256::new(2, 0));
    assert_eq!(*best.public_key(), key(1));
    assert_eq!(mux.outstanding(&request), Some(&vec![1]));
}
