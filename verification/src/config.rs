//! Bind configuration: the addresses the forwarder listens on.

use vstd::prelude::*;

verus! {

/// One bind target: an address and a UDP port.
pub struct ConfigHost {
    pub address: String,
    pub port: u16,
}

/// The forwarder's configuration: the list of bind targets.
pub struct Config {
    pub host: Vec<ConfigHost>,
}

/// The built-in port, the standard DNS port.
pub const DEFAULT_PORT: u16 = 53;

impl Default for Config {
    /// The built-in fallback: one target on every local address, standard port.
    fn default() -> (c: Config)
        ensures
            c.host@.len() == 1,
            c.host@[0].port == DEFAULT_PORT,
            c.host@[0].address@ == "0.0.0.0"@,
    {
        let address = "0.0.0.0".to_string();
        let mut host: Vec<ConfigHost> = Vec::new();
        host.push(ConfigHost { address, port: DEFAULT_PORT });
        Config { host }
    }
}

} // verus!
