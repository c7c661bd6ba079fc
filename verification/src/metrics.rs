//! What the multiplexer reports of its calls to the relays. The reports are
//! collected in order; whoever owns the process hands them on to its metrics
//! registry.

use crate::primitives::BlsPublicKey;
use std::time::Duration;
use vstd::prelude::*;

verus! {

/// The operations of the builder API.
#[derive(Clone, Copy, Debug, PartialEq, Eq, Structural, Hash)]
pub enum ApiMethod {
    Register,
    GetHeader,
    GetPayload,
}

/// What is counted of an auction.
#[derive(Clone, Copy, Debug, PartialEq, Eq, Structural, Hash)]
pub enum AuctionCounter {
    InvalidBid,
}

/// One report, tagged with the public key of the relay it is about.
#[derive(Clone, Copy, Debug, PartialEq, Eq)]
pub enum Metric {
    /// A call of `method` to `relay` has settled.
    ApiRequest { method: ApiMethod, relay: BlsPublicKey },
    /// The call of `method` to `relay` took `elapsed` to settle.
    ApiLatency { method: ApiMethod, relay: BlsPublicKey, elapsed: Duration },
    /// Something to count of an auction happened with `relay`.
    Auction { counter: AuctionCounter, relay: BlsPublicKey },
    /// The call of `method` to `relay` ran out of time.
    ApiTimeout { method: ApiMethod, relay: BlsPublicKey },
}

/// The reports made so far, oldest first.
pub struct Metrics {
    pub reports: Vec<Metric>,
}

impl View for Metrics {
    type V = Seq<Metric>;

    open spec fn view(&self) -> Seq<Metric> {
        self.reports@
    }
}

impl Metrics {
    /// No reports.
    pub fn new() -> (r: Self)
        ensures
            r@ == Seq::<Metric>::empty(),
    {
        Metrics { reports: Vec::new() }
    }

    /// Counts a call of `method` to `relay`.
    pub fn inc_api_counter(&mut self, method: ApiMethod, relay: BlsPublicKey)
        ensures
            final(self)@ == old(self)@.push(Metric::ApiRequest { method, relay }),
    {
        self.reports.push(Metric::ApiRequest { method, relay });
    }

    /// Records how long a call of `method` to `relay` took.
    pub fn observe_api_latency(&mut self, method: ApiMethod, relay: BlsPublicKey, elapsed: Duration)
        ensures
            final(self)@ == old(self)@.push(Metric::ApiLatency { method, relay, elapsed }),
    {
        self.reports.push(Metric::ApiLatency { method, relay, elapsed });
    }

    /// Counts `counter` for `relay`.
    pub fn inc_auction_counter(&mut self, counter: AuctionCounter, relay: BlsPublicKey)
        ensures
            final(self)@ == old(self)@.push(Metric::Auction { counter, relay }),
    {
        self.reports.push(Metric::Auction { counter, relay });
    }

    /// Counts a call of `method` to `relay` that ran out of time.
    pub fn inc_api_timeout(&mut self, method: ApiMethod, relay: BlsPublicKey)
        ensures
            final(self)@ == old(self)@.push(Metric::ApiTimeout { method, relay }),
    {
        self.reports.push(Metric::ApiTimeout { method, relay });
    }
}

} // verus!
