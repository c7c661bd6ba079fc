//! The bids that wait for the proposer's signed block: for each auction, the
//! relays that can reveal the payload of the bid that won it.

use crate::primitives::Slot;
use crate::types::BidRequest;
use vstd::prelude::*;

verus! {

/// For how many slots past its own an auction stays open.
pub const PROPOSAL_TOLERANCE_DELAY: Slot = 1;

/// Whether an auction for `request` is still open at `slot`.
pub open spec fn is_open_at(request: BidRequest, slot: Slot) -> bool {
    request.slot + PROPOSAL_TOLERANCE_DELAY >= slot
}

/// The entries of `bids` whose auction is still open at `slot`.
pub open spec fn open_at(bids: Map<BidRequest, Seq<usize>>, slot: Slot) -> Map<
    BidRequest,
    Seq<usize>,
> {
    bids.restrict(Set::new(|request: BidRequest| is_open_at(request, slot)))
}

struct Entry {
    request: BidRequest,
    relays: Vec<usize>,
}

/// A map from auctions to lists of relay indices.
pub struct OutstandingBids {
    entries: Vec<Entry>,
}

impl View for OutstandingBids {
    type V = Map<BidRequest, Seq<usize>>;

    closed spec fn view(&self) -> Map<BidRequest, Seq<usize>> {
        Map::new(
            |request: BidRequest| self.position_of(request) is Some,
            |request: BidRequest| self.entries[self.position_of(request).unwrap()].relays@,
        )
    }
}

impl OutstandingBids {
    /// No auction has two entries.
    pub closed spec fn wf(&self) -> bool {
        forall|i: int, j: int|
            0 <= i < j < self.entries.len() ==> self.entries[i].request != self.entries[j].request
    }

    /// Where the entry of `request` stands, if it has one.
    spec fn position_of(&self, request: BidRequest) -> Option<int> {
        if exists|i: int| 0 <= i < self.entries.len() && self.entries[i].request == request {
            Some(choose|i: int| 0 <= i < self.entries.len() && self.entries[i].request == request)
        } else {
            None
        }
    }

    /// An auction has an entry in the view where one of the entries is its own.
    proof fn lemma_contains(&self, request: BidRequest)
        ensures
            self@.contains_key(request) <==> exists|i: int|
                0 <= i < self.entries.len() && self.entries[i].request == request,
    {
    }

    /// The view holds what each entry holds.
    proof fn lemma_entry(&self, i: int)
        requires
            self.wf(),
            0 <= i < self.entries.len(),
        ensures
            self@.contains_key(self.entries[i].request),
            self@[self.entries[i].request] == self.entries[i].relays@,
    {
        let j = self.position_of(self.entries[i].request).unwrap();
        assert(i == j);
    }

    /// The view is `self@` with `request` taken out, where the entries are
    /// those of `self` but for the one at `i`, which was that of `request`.
    proof fn lemma_removed(&self, next: &Self, i: int)
        requires
            self.wf(),
            0 <= i < self.entries.len(),
            next.entries@ == self.entries@.remove(i),
        ensures
            next.wf(),
            next@ == self@.remove(self.entries[i].request),
    {
        let request = self.entries[i].request;
        assert forall|a: int, b: int|
            0 <= a < b < next.entries.len() implies next.entries[a].request
            != next.entries[b].request by {
            let a0 = if a < i { a } else { a + 1 };
            let b0 = if b < i { b } else { b + 1 };
            assert(next.entries[a] == self.entries[a0]);
            assert(next.entries[b] == self.entries[b0]);
        }
        assert forall|k: BidRequest| next@.contains_key(k) <==> self@.remove(request).contains_key(
            k,
        ) by {
            self.lemma_contains(k);
            next.lemma_contains(k);
            if next@.contains_key(k) {
                let a = choose|a: int| 0 <= a < next.entries.len() && next.entries[a].request == k;
                let a0 = if a < i { a } else { a + 1 };
                assert(next.entries[a] == self.entries[a0]);
            }
            if self@.contains_key(k) && k != request {
                let a0 = choose|a: int| 0 <= a < self.entries.len() && self.entries[a].request == k;
                let a = if a0 < i { a0 } else { a0 - 1 };
                assert(next.entries[a] == self.entries[a0]);
            }
        }
        assert forall|k: BidRequest| next@.contains_key(k) implies next@[k] == self@.remove(
            request,
        )[k] by {
            next.lemma_contains(k);
            let a = choose|a: int| 0 <= a < next.entries.len() && next.entries[a].request == k;
            let a0 = if a < i { a } else { a + 1 };
            assert(next.entries[a] == self.entries[a0]);
            next.lemma_entry(a);
            self.lemma_entry(a0);
        }
        assert(next@ =~= self@.remove(request));
    }

    /// The view is `self@` with `entry` put in, where the entries are those
    /// of `self` with `entry` in the place of the entry of its auction, or at
    /// the end where the auction had none.
    proof fn lemma_inserted(&self, next: &Self, entry: Entry, i: int)
        requires
            self.wf(),
            0 <= i <= self.entries.len(),
            i < self.entries.len() ==> self.entries[i].request == entry.request
                && next.entries@ == self.entries@.update(i, entry),
            i == self.entries.len() ==> next.entries@ == self.entries@.push(entry) && forall|a: int|
                0 <= a < self.entries.len() ==> self.entries[a].request != entry.request,
        ensures
            next.wf(),
            next@ == self@.insert(entry.request, entry.relays@),
    {
        let request = entry.request;
        assert(next.entries[i] == entry);
        assert forall|a: int| 0 <= a < next.entries.len() && a != i implies next.entries[a]
            == self.entries[a] by {}
        assert forall|a: int, b: int|
            0 <= a < b < next.entries.len() implies next.entries[a].request
            != next.entries[b].request by {
            if a != i && b != i {
                assert(next.entries[a] == self.entries[a]);
                assert(next.entries[b] == self.entries[b]);
            }
        }
        assert forall|k: BidRequest| next@.contains_key(k) <==> self@.insert(
            request,
            entry.relays@,
        ).contains_key(k) by {
            self.lemma_contains(k);
            next.lemma_contains(k);
            if self@.contains_key(k) && k != request {
                let a = choose|a: int| 0 <= a < self.entries.len() && self.entries[a].request == k;
                assert(next.entries[a] == self.entries[a]);
            }
            if next@.contains_key(k) && k != request {
                let a = choose|a: int| 0 <= a < next.entries.len() && next.entries[a].request == k;
                assert(next.entries[a] == self.entries[a]);
            }
        }
        assert forall|k: BidRequest| next@.contains_key(k) implies next@[k] == self@.insert(
            request,
            entry.relays@,
        )[k] by {
            next.lemma_contains(k);
            let a = choose|a: int| 0 <= a < next.entries.len() && next.entries[a].request == k;
            next.lemma_entry(a);
            if a != i {
                assert(next.entries[a] == self.entries[a]);
                self.lemma_entry(a);
            }
        }
        assert(next@ =~= self@.insert(request, entry.relays@));
    }

    /// The empty map.
    pub fn new() -> (r: Self)
        ensures
            r.wf(),
            r@ == Map::<BidRequest, Seq<usize>>::empty(),
    {
        let r = OutstandingBids { entries: Vec::new() };
        assert(r@ =~= Map::<BidRequest, Seq<usize>>::empty());
        r
    }

    /// Finds the entry of `request`.
    fn find(&self, request: &BidRequest) -> (r: Option<usize>)
        ensures
            match r {
                Some(i) => i < self.entries.len() && self.entries[i as int].request == *request,
                None => forall|i: int|
                    0 <= i < self.entries.len() ==> self.entries[i].request != *request,
            },
    {
        let mut i: usize = 0;
        while i < self.entries.len()
            invariant
                i <= self.entries.len(),
                forall|j: int| 0 <= j < i ==> self.entries[j].request != *request,
            decreases self.entries.len() - i,
        {
            if self.entries[i].request == *request {
                return Some(i);
            }
            i += 1;
        }
        None
    }

    /// Whether an entry stands for `request`.
    pub fn contains(&self, request: &BidRequest) -> (r: bool)
        requires
            self.wf(),
        ensures
            r == self@.contains_key(*request),
    {
        proof {
            self.lemma_contains(*request);
        }
        self.find(request).is_some()
    }

    /// What is recorded for `request`.
    pub fn get(&self, request: &BidRequest) -> (r: Option<&Vec<usize>>)
        requires
            self.wf(),
        ensures
            match r {
                Some(relays) => self@.contains_key(*request) && relays@ == self@[*request],
                None => !self@.contains_key(*request),
            },
    {
        proof {
            self.lemma_contains(*request);
        }
        match self.find(request) {
            Some(i) => {
                proof {
                    self.lemma_entry(i as int);
                }
                Some(&self.entries[i].relays)
            },
            None => None,
        }
    }

    /// How many auctions have an entry.
    pub fn len(&self) -> (r: usize)
        requires
            self.wf(),
        ensures
            r == self@.dom().len(),
            self@.dom().finite(),
    {
        proof {
            self.lemma_len();
        }
        self.entries.len()
    }

    /// The auctions with an entry are as many as the entries.
    proof fn lemma_len(&self)
        requires
            self.wf(),
        ensures
            self@.dom().finite(),
            self@.dom().len() == self.entries.len(),
    {
        let requests = self.entries@.map_values(|entry: Entry| entry.request);
        assert(requests.no_duplicates());
        requests.unique_seq_to_set();
        assert(requests.to_set() =~= self@.dom()) by {
            assert forall|request: BidRequest|
                self@.dom().contains(request) implies requests.to_set().contains(request) by {
                self.lemma_contains(request);
                let i = choose|i: int|
                    0 <= i < self.entries.len() && self.entries[i].request == request;
                assert(requests[i] == request);
            }
            assert forall|request: BidRequest|
                requests.to_set().contains(request) implies self@.dom().contains(request) by {
                let i = choose|i: int| 0 <= i < requests.len() && requests[i] == request;
                assert(self.entries[i].request == request);
                self.lemma_contains(request);
            }
        }
    }

    /// Records `relays` for `request`, in place of what was recorded for it.
    pub fn insert(&mut self, request: BidRequest, relays: Vec<usize>)
        requires
            old(self).wf(),
        ensures
            final(self).wf(),
            final(self)@ == old(self)@.insert(request, relays@),
    {
        let ghost entry = Entry { request, relays };
        match self.find(&request) {
            Some(i) => {
                self.entries.set(i, Entry { request, relays });
                proof {
                    old(self).lemma_inserted(&*self, entry, i as int);
                }
            },
            None => {
                self.entries.push(Entry { request, relays });
                proof {
                    old(self).lemma_inserted(&*self, entry, old(self).entries.len() as int);
                }
            },
        }
    }

    /// Removes the entry of `request` and returns what was recorded for it.
    pub fn take(&mut self, request: &BidRequest) -> (r: Option<Vec<usize>>)
        requires
            old(self).wf(),
        ensures
            final(self).wf(),
            match r {
                Some(relays) => old(self)@.contains_key(*request) && relays@ == old(self)@[*request]
                    && final(self)@ == old(self)@.remove(*request),
                None => !old(self)@.contains_key(*request) && final(self)@ == old(self)@,
            },
    {
        proof {
            self.lemma_contains(*request);
        }
        match self.find(request) {
            Some(i) => {
                let entry = self.entries.remove(i);
                proof {
                    old(self).lemma_entry(i as int);
                    old(self).lemma_removed(&*self, i as int);
                }
                Some(entry.relays)
            },
            None => None,
        }
    }

    /// Drops every entry whose auction is no longer open at `slot`.
    pub fn evict_older_than(&mut self, slot: Slot)
        requires
            old(self).wf(),
        ensures
            final(self).wf(),
            final(self)@ == open_at(old(self)@, slot),
    {
        let mut i: usize = self.entries.len();
        while i > 0
            invariant
                i <= self.entries.len(),
                self.wf(),
                forall|j: int|
                    i <= j < self.entries.len() ==> is_open_at(
                        (#[trigger] self.entries[j]).request,
                        slot,
                    ),
                forall|request: BidRequest| #[trigger]
                    self@.contains_key(request) ==> old(self)@.contains_key(request)
                        && self@[request] == old(self)@[request],
                forall|request: BidRequest|
                    old(self)@.contains_key(request) && is_open_at(request, slot)
                        ==> #[trigger] self@.contains_key(request),
            decreases i,
        {
            i -= 1;
            let entry_slot = self.entries[i].request.slot;
            let keep = entry_slot >= slot || slot - entry_slot <= PROPOSAL_TOLERANCE_DELAY;
            if !keep {
                let ghost before = *self;
                let _ = self.entries.remove(i);
                proof {
                    before.lemma_removed(&*self, i as int);
                    assert forall|j: int| i <= j < self.entries.len() implies is_open_at(
                        (#[trigger] self.entries[j]).request,
                        slot,
                    ) by {
                        assert(self.entries[j] == before.entries[j + 1]);
                    }
                }
            }
        }
        proof {
            assert forall|request: BidRequest| #[trigger]
                self@.contains_key(request) implies is_open_at(request, slot) by {
                self.lemma_contains(request);
            }
            assert(self@ =~= open_at(old(self)@, slot));
        }
    }
}

} // verus!
