//! The tunnel definitions as the configuration states them.
use vstd::prelude::*;

verus! {

/// One configured tunnel: the address to listen on, the remote TLS address,
/// and the optional server name and certificate file.
#[derive(Debug)]
pub struct Tunnel {
    pub listen: String,
    pub remote: String,
    pub sni_addr: Option<String>,
    pub ssl_cert: Option<String>,
}

/// The tunnels of a configuration, each under its name, ordered by name.
#[derive(Debug)]
pub struct Config {
    pub tunnels: Vec<(String, Tunnel)>,
}

} // verus!
