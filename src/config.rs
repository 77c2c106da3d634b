//! Server settings.

use vstd::prelude::*;
use vstd::string::*;
use crate::text::{decimal, push_decimal};

verus! {

/// The server's settings, read from the environment by the program that
/// hosts the library.
pub struct Config {
    pub host: String,
    pub port: u16,
    pub database_url: String,
    pub jwt_secret: String,
    pub jwt_expires_in: i64,
    pub bcrypt_cost: u32,
    pub tor_enabled: bool,
    pub tor_socks_host: String,
    pub tor_socks_port: u16,
    pub tor_control_port: u16,
    pub tor_hidden_service_dir: String,
    pub allowed_origins: Vec<String>,
    pub rate_limit_per_second: u64,
    pub rate_limit_burst_size: u32,
    pub max_file_size: usize,
    pub upload_dir: String,
}

/// Default token lifetime in seconds.
pub const DEFAULT_JWT_EXPIRES_IN: i64 = 86400;

/// Default password hashing cost.
pub const DEFAULT_BCRYPT_COST: u32 = 12;

/// Default upload size limit: 1 GiB.
pub const DEFAULT_MAX_FILE_SIZE: usize = 1073741824;

impl Config {
    /// `host:port`, the address the server listens on.
    pub fn server_addr(&self) -> (r: String)
        ensures
            r@ == self.host@ + seq![':'] + decimal(self.port as nat),
    {
        let mut r = self.host.clone();
        r.append(":");
        proof {
            reveal_strlit(":");
        }
        push_decimal(&mut r, self.port as u64);
        r
    }
}

/// Whether a configured upload directory climbs out of its parent (holds `..`).
pub open spec fn has_parent_step(s: Seq<char>) -> bool {
    exists|i: int| 0 <= i < s.len() - 1 && #[trigger] s[i] == '.' && s[i + 1] == '.'
}

/// Refuses an upload directory whose text holds `..`.
pub fn upload_dir_allowed(s: &str) -> (r: bool)
    ensures
        r == !has_parent_step(s@),
{
    let n = s.unicode_len();
    if n < 2 {
        return true;
    }
    let mut i: usize = 0;
    while i + 1 < n
        invariant
            n == s@.len(),
            n >= 2,
            i + 1 <= n,
            forall|j: int| 0 <= j < i ==> !(#[trigger] s@[j] == '.' && s@[j + 1] == '.'),
        decreases n - i,
    {
        if s.get_char(i) == '.' && s.get_char(i + 1) == '.' {
            return false;
        }
        i += 1;
    }
    true
}

} // verus!
