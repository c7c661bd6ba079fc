//! The configuration of the multiplexer service and what is made of it
//! before the service starts.

use crate::hex::parse_prefixed_hex;
use crate::primitives::BlsPublicKey;
use vstd::prelude::*;
use vstd::string::{StrSliceExecFns, StringExecFns};

verus! {

/// The port that the service listens on unless told otherwise.
pub const DEFAULT_PORT: u16 = 18550;

/// The networks that the service can run on.
#[derive(Debug, PartialEq, Eq)]
pub enum Network {
    Mainnet,
    Sepolia,
    Goerli,
    Holesky,
    /// A network described by the configuration found at the given place.
    Custom(String),
}

/// What the operator configures: the address (as its four octets) and the
/// port to listen on, and the URLs of the relays.
#[derive(Debug)]
pub struct Config {
    pub host: [u8; 4],
    pub port: u16,
    pub relays: Vec<String>,
}

impl Default for Config {
    /// Every address, the default port, no relays.
    fn default() -> (r: Self)
        ensures
            r.host@ == seq![0u8, 0u8, 0u8, 0u8],
            r.port == DEFAULT_PORT,
            r.relays@ == Seq::<String>::empty(),
    {
        let r = Config { host: [0u8;4], port: DEFAULT_PORT, relays: Vec::new() };
        assert(r.host@ =~= seq![0u8, 0u8, 0u8, 0u8]);
        r
    }
}

/// A relay as configured: its URL and the public key that the URL names.
#[derive(Debug, PartialEq, Eq)]
pub struct RelayEndpoint {
    pub url: String,
    pub public_key: BlsPublicKey,
}

/// A relay endpoint as a value: the text of its URL and the bytes of its
/// key.
pub struct RelayEndpointView {
    pub url: Seq<char>,
    pub public_key: Seq<u8>,
}

impl View for RelayEndpoint {
    type V = RelayEndpointView;

    open spec fn view(&self) -> RelayEndpointView {
        RelayEndpointView { url: self.url@, public_key: self.public_key@ }
    }
}

/// The path of `text` read as a URL, or `None` where `text` is no URL.
pub uninterp spec fn url_path(text: Seq<char>) -> Option<Seq<char>>;

/// Reads `text` as a URL and returns its path. The calls are
/// `url::Url::parse` and, on the URL that it returns, `url::Url::path`.
/// The contract gives what they return a name, `url_path`, and claims that
/// it depends on `text` alone; it says nothing of what the path is.
#[verifier::external_body]
fn path_of_url(text: &str) -> (path: Option<String>)
    ensures
        match path {
            Some(path) => url_path(text@) == Some(path@),
            None => url_path(text@) is None,
        },
{
    match url::Url::parse(text) {
        Ok(url) => Some(url.path().to_string()),
        Err(_) => None,
    }
}

/// The bytes of the key that the path of a relay's URL names: what follows
/// the leading slash is the key in hexadecimal behind the prefix `0x`.
pub open spec fn key_in_path(path: Seq<char>) -> Option<Seq<u8>> {
    if path.len() > 0 && path[0] == '/' {
        match parse_prefixed_hex(path.skip(1)) {
            Some(bytes) => if bytes.len() == 48 {
                Some(bytes)
            } else {
                None
            },
            None => None,
        }
    } else {
        None
    }
}

/// The relay that the URL `text` with path `path` configures, if it names a
/// key.
pub open spec fn endpoint_of(text: Seq<char>, path: Option<Seq<char>>) -> Option<
    RelayEndpointView,
> {
    match path {
        Some(path) => match key_in_path(path) {
            Some(public_key) => Some(RelayEndpointView { url: text, public_key }),
            None => None,
        },
        None => None,
    }
}

/// The relays that `urls` configure, in their order: one for each that is a
/// URL and names a key.
pub open spec fn endpoints_of(urls: Seq<String>) -> Seq<RelayEndpointView>
    decreases urls.len(),
{
    if urls.len() == 0 {
        Seq::empty()
    } else {
        let rest = endpoints_of(urls.drop_last());
        match endpoint_of(urls.last()@, url_path(urls.last()@)) {
            Some(endpoint) => rest.push(endpoint),
            None => rest,
        }
    }
}

/// Reads the public key of a relay from the path of its URL.
pub fn relay_key_from_path(path: &str) -> (r: Option<BlsPublicKey>)
    ensures
        match r {
            Some(public_key) => key_in_path(path@) == Some(public_key@),
            None => key_in_path(path@) is None,
        },
{
    let len = path.unicode_len();
    if len == 0 || path.get_char(0) != '/' {
        return None;
    }
    assert(path@.subrange(1, len as int) =~= path@.skip(1));
    BlsPublicKey::from_hex(path.substring_char(1, len))
}

/// Reads one relay from its URL: `None` where `relay_url` is no URL or its
/// path names no key.
pub fn parse_relay_endpoint(relay_url: &str) -> (r: Option<RelayEndpoint>)
    ensures
        match r {
            Some(endpoint) => endpoint_of(relay_url@, url_path(relay_url@)) == Some(endpoint@),
            None => endpoint_of(relay_url@, url_path(relay_url@)) is None,
        },
{
    match path_of_url(relay_url) {
        Some(path) => match relay_key_from_path(path.as_str()) {
            Some(public_key) => {
                Some(RelayEndpoint { url: String::from_str(relay_url), public_key })
            },
            None => None,
        },
        None => None,
    }
}

/// Reads the relays from their URLs, in order. What cannot be read is left
/// out.
pub fn parse_relay_endpoints(relay_urls: &Vec<String>) -> (relays: Vec<RelayEndpoint>)
    ensures
        relays@.map_values(|relay: RelayEndpoint| relay@) == endpoints_of(relay_urls@),
{
    let mut relays: Vec<RelayEndpoint> = Vec::new();
    let mut i: usize = 0;
    assert(relay_urls@.take(0) =~= Seq::<String>::empty());
    while i < relay_urls.len()
        invariant
            i <= relay_urls.len(),
            relays@.map_values(|relay: RelayEndpoint| relay@) == endpoints_of(
                relay_urls@.take(i as int),
            ),
        decreases relay_urls.len() - i,
    {
        proof {
            assert(relay_urls@.take(i + 1).drop_last() =~= relay_urls@.take(i as int));
        }
        let ghost before = relays@;
        match parse_relay_endpoint(relay_urls[i].as_str()) {
            Some(relay) => {
                relays.push(relay);
                assert(relays@.map_values(|relay: RelayEndpoint| relay@) =~= before.map_values(
                    |relay: RelayEndpoint| relay@,
                ).push(relay@));
            },
            None => {},
        }
        i += 1;
    }
    assert(relay_urls@.take(relay_urls.len() as int) =~= relay_urls@);
    relays
}

/// The service before it starts: where it listens, the relays that it
/// multiplexes, and the network that it runs on.
#[derive(Debug)]
pub struct Service {
    pub host: [u8; 4],
    pub port: u16,
    pub relays: Vec<RelayEndpoint>,
    pub network: Network,
}

impl Service {
    /// The service that `config` describes on `network`, with the relays
    /// that can be read from the configuration.
    pub fn from(network: Network, config: Config) -> (r: Self)
        ensures
            r.host == config.host,
            r.port == config.port,
            r.network == network,
            r.relays@.map_values(|relay: RelayEndpoint| relay@) == endpoints_of(config.relays@),
    {
        let relays = parse_relay_endpoints(&config.relays);

        Service { host: config.host, port: config.port, relays, network }
    }
}

} // verus!
