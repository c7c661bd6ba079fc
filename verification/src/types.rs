//! The records that travel between the proposer, the multiplexer and the
//! relays, reduced to the fields that the multiplexer reads.

use crate::primitives::{BlsPublicKey, BlsSignature, Hash32, Slot};
use crate::uint::U256;
use vstd::prelude::*;
use vstd::std_specs::cmp::PartialEqSpecImpl;

verus! {

/// The consensus forks under which a record may be encoded.
#[derive(Clone, Copy, Debug, PartialEq, Eq, Structural, Hash)]
pub enum Fork {
    Phase0,
    Altair,
    Bellatrix,
    Capella,
    Deneb,
    Electra,
}

/// The fingerprint of one auction: the slot of the proposal, the hash of the
/// block it builds on, and the key of the proposer.
#[derive(Clone, Copy, Debug, Eq, Hash)]
pub struct BidRequest {
    pub slot: Slot,
    pub parent_hash: Hash32,
    pub public_key: BlsPublicKey,
}

/// The same fingerprint under the name that the relay API gives it.
pub type AuctionRequest = BidRequest;

impl PartialEq for BidRequest {
    fn eq(&self, other: &Self) -> (r: bool) {
        self.slot == other.slot && self.parent_hash == other.parent_hash && self.public_key
            == other.public_key
    }
}

impl PartialEqSpecImpl for BidRequest {
    open spec fn obeys_eq_spec() -> bool {
        true
    }

    open spec fn eq_spec(&self, other: &Self) -> bool {
        *self == *other
    }
}

/// A builder's signed offer for a block.
#[derive(Clone, Copy, Debug, PartialEq, Eq)]
pub struct SignedBuilderBid {
    /// The fork under which the bid is encoded.
    pub version: Fork,
    /// What the builder pays the proposer.
    pub value: U256,
    /// The key that the bid claims to be signed with.
    pub public_key: BlsPublicKey,
    /// The hash of the execution block that the bid commits to.
    pub block_hash: Hash32,
    /// The signature over the bid.
    pub signature: BlsSignature,
}

impl SignedBuilderBid {
    pub fn version(&self) -> (r: Fork)
        ensures
            r == self.version,
    {
        self.version
    }

    pub fn value(&self) -> (r: &U256)
        ensures
            *r == self.value,
    {
        &self.value
    }

    pub fn public_key(&self) -> (r: &BlsPublicKey)
        ensures
            *r == self.public_key,
    {
        &self.public_key
    }

    pub fn block_hash(&self) -> (r: &Hash32)
        ensures
            *r == self.block_hash,
    {
        &self.block_hash
    }
}

/// What a relay reveals for a signed blinded block: the execution payload
/// and what comes with it.
#[derive(Clone, Copy, Debug, PartialEq, Eq)]
pub struct AuctionContents {
    /// The fork under which the payload is encoded.
    pub version: Fork,
    /// The hash of the execution block.
    pub block_hash: Hash32,
}

/// The revealed payload under its older name.
pub type ExecutionPayload = AuctionContents;

impl AuctionContents {
    pub fn version(&self) -> (r: Fork)
        ensures
            r == self.version,
    {
        self.version
    }

    pub fn block_hash(&self) -> (r: &Hash32)
        ensures
            *r == self.block_hash,
    {
        &self.block_hash
    }
}

/// A block whose payload is replaced by its header, signed by the proposer.
#[derive(Clone, Copy, Debug, PartialEq, Eq)]
pub struct SignedBlindedBeaconBlock {
    /// The fork under which the block is encoded.
    pub version: Fork,
    /// The slot of the block.
    pub slot: Slot,
    /// The hash of the execution block that this one builds on.
    pub parent_hash: Hash32,
    /// The hash of the execution block that the proposer committed to.
    pub block_hash: Hash32,
}

impl SignedBlindedBeaconBlock {
    pub fn version(&self) -> (r: Fork)
        ensures
            r == self.version,
    {
        self.version
    }

    pub fn slot(&self) -> (r: Slot)
        ensures
            r == self.slot,
    {
        self.slot
    }

    pub fn parent_hash(&self) -> (r: &Hash32)
        ensures
            *r == self.parent_hash,
    {
        &self.parent_hash
    }

    pub fn block_hash(&self) -> (r: &Hash32)
        ensures
            *r == self.block_hash,
    {
        &self.block_hash
    }
}

} // verus!
