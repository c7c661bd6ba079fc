//! The builder API as a relay serves it: where each request goes, and what
//! the status of an answer says.

use crate::error::{Error, NO_CONTENT};
use crate::hex::{append_decimal, append_hex, decimal, prefixed_hex};
use crate::types::{AuctionRequest, Fork};
use vstd::prelude::*;
use vstd::string::StringExecFns;

verus! {

/// The header that names the fork under which the body of a request is
/// encoded.
pub const ETH_CONSENSUS_VERSION_HEADER: &'static str = "Eth-Consensus-Version";

/// Where the status of a relay is asked for.
pub fn status_target() -> (target: &'static str)
    ensures
        target@ == "/eth/v1/builder/status"@,
{
    "/eth/v1/builder/status"
}

/// Where registrations are posted.
pub fn register_validators_target() -> (target: &'static str)
    ensures
        target@ == "/eth/v1/builder/validators"@,
{
    "/eth/v1/builder/validators"
}

/// Where signed blinded blocks are posted.
pub fn open_bid_target() -> (target: &'static str)
    ensures
        target@ == "/eth/v1/builder/blinded_blocks"@,
{
    "/eth/v1/builder/blinded_blocks"
}

/// Where the best bid for `auction_request` is asked for: below the header
/// path, the slot in decimal, the parent hash and the key of the proposer,
/// each of the two in hexadecimal.
pub open spec fn bid_target(auction_request: AuctionRequest) -> Seq<char> {
    "/eth/v1/builder/header/"@ + decimal(auction_request.slot as nat) + "/"@ + prefixed_hex(
        auction_request.parent_hash@,
    ) + "/"@ + prefixed_hex(auction_request.public_key@)
}

/// The target of the request for the best bid for `auction_request`.
pub fn fetch_best_bid_target(auction_request: &AuctionRequest) -> (target: String)
    ensures
        target@ == bid_target(*auction_request),
{
    let mut target = String::from_str("/eth/v1/builder/header/");
    append_decimal(&mut target, auction_request.slot);
    target.append("/");
    let ghost before = target@;
    target.append("0x");
    append_hex(&mut target, auction_request.parent_hash.bytes.as_slice());
    assert(target@ =~= before + prefixed_hex(auction_request.parent_hash@));
    target.append("/");
    let ghost before = target@;
    target.append("0x");
    append_hex(&mut target, auction_request.public_key.bytes.as_slice());
    assert(target@ =~= before + prefixed_hex(auction_request.public_key@));
    target
}

/// What the status of the answer to a request for a bid says before the
/// answer is decoded: without content, the relay has no bid prepared.
pub fn check_bid_status(status: u16, auction_request: &AuctionRequest) -> (r: Result<(), Error>)
    ensures
        status == NO_CONTENT ==> r == Err::<(), Error>(Error::NoBidPrepared(*auction_request)),
        status != NO_CONTENT ==> r == Ok::<(), Error>(()),
{
    if status == NO_CONTENT {
        return Err(Error::NoBidPrepared(*auction_request));
    }
    Ok(())
}

/// The name of `fork` on the wire.
pub open spec fn fork_name(fork: Fork) -> Seq<char> {
    match fork {
        Fork::Phase0 => "phase0"@,
        Fork::Altair => "altair"@,
        Fork::Bellatrix => "bellatrix"@,
        Fork::Capella => "capella"@,
        Fork::Deneb => "deneb"@,
        Fork::Electra => "electra"@,
    }
}

/// The name of `fork` on the wire, as the consensus version header of a
/// request carries it.
pub fn consensus_version(fork: Fork) -> (name: &'static str)
    ensures
        name@ == fork_name(fork),
{
    match fork {
        Fork::Phase0 => "phase0",
        Fork::Altair => "altair",
        Fork::Bellatrix => "bellatrix",
        Fork::Capella => "capella",
        Fork::Deneb => "deneb",
        Fork::Electra => "electra",
    }
}

} // verus!
