//! Validation of the bids that relays return.

use crate::error::Error;
use crate::primitives::BlsPublicKey;
use crate::types::SignedBuilderBid;
use vstd::prelude::*;

verus! {

/// What the validation of `bid` from the relay with key `public_key` comes
/// to, where `signature_verified` says whether the signature of the bid
/// verifies under the builder domain against the key that the bid names.
pub open spec fn validation(
    bid: SignedBuilderBid,
    public_key: BlsPublicKey,
    signature_verified: bool,
) -> Result<(), Error> {
    if bid.public_key != public_key {
        Err(Error::BidPublicKeyMismatch { bid: bid.public_key, relay: public_key })
    } else if !signature_verified {
        Err(Error::InvalidSignature)
    } else {
        Ok(())
    }
}

/// Whether a bid passes validation.
pub open spec fn is_valid(
    bid: SignedBuilderBid,
    public_key: BlsPublicKey,
    signature_verified: bool,
) -> bool {
    bid.public_key == public_key && signature_verified
}

/// Validates `bid` as one of the relay with key `public_key`: the bid must
/// name that key and its signature must verify. The key is looked at first.
pub fn validate_bid(
    bid: &SignedBuilderBid,
    public_key: &BlsPublicKey,
    signature_verified: bool,
) -> (r: Result<(), Error>)
    ensures
        r == validation(*bid, *public_key, signature_verified),
        r is Ok <==> is_valid(*bid, *public_key, signature_verified),
{
    if *bid.public_key() != *public_key {
        return Err(Error::BidPublicKeyMismatch { bid: *bid.public_key(), relay: *public_key });
    }
    if !signature_verified {
        return Err(Error::InvalidSignature);
    }
    Ok(())
}

} // verus!
