//! The errors of the multiplexer and of its relay clients.

use crate::primitives::{BlsPublicKey, Hash32};
use crate::types::BidRequest;
use vstd::prelude::*;

verus! {

#[derive(Clone, Copy, Debug, PartialEq, Eq)]
pub enum Error {
    /// No relay returned a valid bid.
    NoBids,
    /// No relay accepted the registrations.
    CouldNotRegister,
    /// No bid is outstanding for the block that the proposer signed.
    MissingOpenBid,
    /// No relay returned the payload with the given block hash.
    MissingPayload(Hash32),
    /// A bid names another key than that of the relay it came from.
    BidPublicKeyMismatch { bid: BlsPublicKey, relay: BlsPublicKey },
    /// The signature of a bid does not verify.
    InvalidSignature,
    /// The relay had no bid for the request.
    NoBidPrepared(BidRequest),
}

/// The status of an answer without content.
pub const NO_CONTENT: u16 = 204;

/// The status of an answer to a request that cannot be met as it stands.
pub const BAD_REQUEST: u16 = 400;

/// The status of an answer where the service failed.
pub const INTERNAL_SERVER_ERROR: u16 = 500;

impl Error {
    /// The HTTP status under which the error reaches the proposer: no
    /// content where there is no bid, a bad request where the proposer asks
    /// for what cannot be had, a server error where the relays failed it.
    /// The errors of a single relay or bid never reach the proposer, and
    /// have no status.
    pub open spec fn status(self) -> Option<u16> {
        match self {
            Error::NoBids => Some(NO_CONTENT),
            Error::CouldNotRegister => Some(BAD_REQUEST),
            Error::MissingOpenBid => Some(BAD_REQUEST),
            Error::MissingPayload(_) => Some(INTERNAL_SERVER_ERROR),
            Error::BidPublicKeyMismatch { .. } => None,
            Error::InvalidSignature => None,
            Error::NoBidPrepared(_) => None,
        }
    }

    /// The HTTP status under which the error reaches the proposer, if it
    /// does.
    pub fn status_code(&self) -> (status: Option<u16>)
        ensures
            status == self.status(),
    {
        match self {
            Error::NoBids => Some(NO_CONTENT),
            Error::CouldNotRegister => Some(BAD_REQUEST),
            Error::MissingOpenBid => Some(BAD_REQUEST),
            Error::MissingPayload(_) => Some(INTERNAL_SERVER_ERROR),
            Error::BidPublicKeyMismatch { .. } => None,
            Error::InvalidSignature => None,
            Error::NoBidPrepared(_) => None,
        }
    }
}

} // verus!
