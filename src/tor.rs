//! The server's view of its overlay proxy settings.

use vstd::prelude::*;
use crate::config::Config;

verus! {

/// Reports how the server reaches the overlay network.
pub struct TorService {
    pub config: Config,
}

/// `GET /api/tor-status`.
pub struct ConnectionInfo {
    pub enabled: bool,
    pub socks_host: String,
    pub socks_port: u16,
    pub hidden_service: Option<String>,
}

impl TorService {
    pub fn new(config: Config) -> (r: Self)
        ensures
            r.config == config,
    {
        TorService { config }
    }

    /// The configured proxy settings; the hidden service address is filled
    /// in by whoever can read it from disk.
    pub fn get_connection_info(&self) -> (r: ConnectionInfo)
        ensures
            r.enabled == self.config.tor_enabled,
            r.socks_host@ == self.config.tor_socks_host@,
            r.socks_port == self.config.tor_socks_port,
            r.hidden_service is None,
    {
        ConnectionInfo {
            enabled: self.config.tor_enabled,
            socks_host: self.config.tor_socks_host.clone(),
            socks_port: self.config.tor_socks_port,
            hidden_service: None,
        }
    }
}

} // verus!
