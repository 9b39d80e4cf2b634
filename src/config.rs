use vstd::prelude::*;

verus! {

/// The relay's settings: the IPv4 address (as its four octets) and port the
/// builder API listens on, the beacon node's URL and the signing-key
/// material.
#[derive(Debug)]
pub struct Config {
    pub host: [u8; 4],
    pub port: u16,
    pub beacon_node_url: String,
    pub secret_key: Vec<u8>,
}

/// The port the builder API listens on unless told otherwise.
pub const DEFAULT_PORT: u16 = 28545;

impl Config {
    pub open spec fn is_default(&self) -> bool {
        &&& self.host@ == seq![127u8, 0u8, 0u8, 1u8]
        &&& self.port == DEFAULT_PORT
        &&& self.beacon_node_url@ == "http://127.0.0.1:5052"@
        &&& self.secret_key@.len() == 0
    }
}

impl Default for Config {
    /// The loopback address, the default port, a beacon node on the local
    /// machine and an empty key.
    fn default() -> (r: Config)
        ensures
            r.is_default(),
    {
        Config {
            host: [127u8, 0u8, 0u8, 1u8],
            port: DEFAULT_PORT,
            beacon_node_url: "http://127.0.0.1:5052".to_owned(),
            secret_key: Vec::new(),
        }
    }
}

} // verus!
