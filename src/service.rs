use crate::config::Config;
use vstd::prelude::*;

verus! {

#[verifier::external_type_specification]
#[verifier::external_body]
pub struct ExUrl(url::Url);

#[verifier::external_type_specification]
#[verifier::external_body]
pub struct ExParseError(url::ParseError);

/// Whether a string parses as an absolute URL.
pub uninterp spec fn url_parses(s: Seq<char>) -> bool;

/// Relies on url::Url::parse: it succeeds or fails on the text alone.
#[verifier::external_body]
fn parse_url(s: &str) -> (r: Result<url::Url, url::ParseError>)
    ensures
        r.is_ok() == url_parses(s@),
{
    url::Url::parse(s)
}

/// Why a `Service` could not be built from its configuration.
#[derive(Debug)]
pub enum ServiceError {
    /// The beacon node's URL does not parse.
    InvalidBeaconNodeUrl(url::ParseError),
}

/// The relay service before it starts: where to listen, the beacon node's
/// endpoint, the chain network's name and the signing-key material.
#[derive(Debug)]
pub struct Service {
    pub host: [u8; 4],
    pub port: u16,
    pub beacon_node: url::Url,
    pub network: String,
    pub secret_key: Vec<u8>,
}

impl Service {
    /// Builds the service from a network and its configuration, without I/O.
    /// Fails exactly when the beacon node's URL does not parse.
    pub fn from(network: String, config: Config) -> (r: Result<Service, ServiceError>)
        ensures
            r.is_ok() == url_parses(config.beacon_node_url@),
            r matches Ok(s) ==> {
                &&& s.host == config.host
                &&& s.port == config.port
                &&& s.network@ == network@
                &&& s.secret_key@ == config.secret_key@
            },
    {
        match parse_url(config.beacon_node_url.as_str()) {
            Ok(beacon_node) => Ok(
                Service {
                    host: config.host,
                    port: config.port,
                    beacon_node,
                    network,
                    secret_key: config.secret_key,
                },
            ),
            Err(e) => Err(ServiceError::InvalidBeaconNodeUrl(e)),
        }
    }
}

} // verus!
