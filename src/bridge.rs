//! The desktop bridge's lifecycle and the handling of overlay addresses.

use vstd::prelude::*;
use vstd::string::*;

verus! {

/// State of the in-process overlay client, as its status channel reports it.
pub enum TorStatus {
    Stopped,
    Bootstrapping(u8),
    Connected { socks_port: u16 },
    Error(String),
}

/// What a bootstrap request has to do.
#[derive(Clone, Copy, Debug, PartialEq, Eq, Structural)]
pub enum BootstrapStep {
    /// The bridge already runs: its proxy port, nothing to do.
    AlreadyConnected(u16),
    /// Start bootstrapping the overlay client.
    Start,
}

/// The bridge's lifecycle: `Stopped → Bootstrapping(pct) → Connected{port}`,
/// `Bootstrapping → Error`, and back to `Stopped` on stop.
pub struct TorManager {
    pub status: TorStatus,
}

/// What a bootstrap request answers in state `s`, and the state it leaves.
pub open spec fn bootstrap_step(s: TorStatus) -> (BootstrapStep, TorStatus) {
    match s {
        TorStatus::Connected { socks_port } => (BootstrapStep::AlreadyConnected(socks_port), s),
        _ => (BootstrapStep::Start, TorStatus::Bootstrapping(0)),
    }
}

impl TorManager {
    pub fn new() -> (r: TorManager)
        ensures
            r.status is Stopped,
    {
        TorManager { status: TorStatus::Stopped }
    }

    /// A copy of the current status.
    pub fn current_status(&self) -> (r: TorStatus)
        ensures
            match (r, self.status) {
                (TorStatus::Stopped, TorStatus::Stopped) => true,
                (TorStatus::Bootstrapping(a), TorStatus::Bootstrapping(b)) => a == b,
                (TorStatus::Connected { socks_port: a }, TorStatus::Connected { socks_port: b }) => a == b,
                (TorStatus::Error(a), TorStatus::Error(b)) => a@ == b@,
                _ => false,
            },
    {
        match &self.status {
            TorStatus::Stopped => TorStatus::Stopped,
            TorStatus::Bootstrapping(p) => TorStatus::Bootstrapping(*p),
            TorStatus::Connected { socks_port } => TorStatus::Connected { socks_port: *socks_port },
            TorStatus::Error(m) => TorStatus::Error(m.clone()),
        }
    }

    /// Starts a bootstrap, or answers the running proxy's port: asking
    /// again while connected changes nothing.
    pub fn begin_bootstrap(&mut self) -> (r: BootstrapStep)
        ensures
            (r, final(self).status) == bootstrap_step(old(self).status),
    {
        match self.status {
            TorStatus::Connected { socks_port } => BootstrapStep::AlreadyConnected(socks_port),
            _ => {
                self.status = TorStatus::Bootstrapping(0);
                BootstrapStep::Start
            },
        }
    }

    /// Records bootstrap progress, capped at 100; ignored unless bootstrapping.
    pub fn report_progress(&mut self, pct: u8)
        ensures
            old(self).status is Bootstrapping ==> final(self).status == TorStatus::Bootstrapping(
                if pct > 100 { 100 } else { pct },
            ),
            !(old(self).status is Bootstrapping) ==> final(self).status == old(self).status,
    {
        if let TorStatus::Bootstrapping(_) = self.status {
            self.status = TorStatus::Bootstrapping(if pct > 100 { 100 } else { pct });
        }
    }

    /// The overlay client finished bootstrapping and the proxy listens on `port`.
    pub fn complete(&mut self, port: u16)
        ensures
            old(self).status is Bootstrapping ==> final(self).status == (TorStatus::Connected { socks_port: port }),
            !(old(self).status is Bootstrapping) ==> final(self).status == old(self).status,
    {
        if let TorStatus::Bootstrapping(_) = self.status {
            self.status = TorStatus::Connected { socks_port: port };
        }
    }

    /// Bootstrapping failed: the attempt ends in `Error`.
    pub fn fail(&mut self, message: String)
        ensures
            old(self).status is Bootstrapping ==> final(self).status == TorStatus::Error(message),
            !(old(self).status is Bootstrapping) ==> final(self).status == old(self).status,
    {
        if let TorStatus::Bootstrapping(_) = self.status {
            self.status = TorStatus::Error(message);
        }
    }

    /// Stops the bridge.
    pub fn stop(&mut self)
        ensures
            final(self).status is Stopped,
    {
        self.status = TorStatus::Stopped;
    }

    /// Whether a URL addresses an overlay service: its lowercase text holds
    /// `.onion` but not `.onion.`.
    pub fn is_onion_url(url: &str) -> (r: bool)
        ensures
            r == is_onion(lower_of(url@)),
    {
        let lower = lowercase(url);
        proof {
            reveal_strlit(".onion");
            reveal_strlit(".onion.");
        }
        contains(lower.as_str(), ".onion") && !contains(lower.as_str(), ".onion.")
    }

    /// Gives a URL a scheme: `http://` when it has none, and `http://` in
    /// place of `https://` for overlay addresses, whose circuit already
    /// encrypts.
    pub fn normalize_onion_url(url: &str) -> (r: String)
        ensures
            r@ == normalized(trim_of(url@)),
    {
        let t = trim(url);
        proof {
            reveal_strlit("http://");
            reveal_strlit("https://");
        }
        let is_http = starts_with(t.as_str(), "http://");
        let is_https = starts_with(t.as_str(), "https://");
        if is_http || is_https {
            if is_https && Self::is_onion_url(t.as_str()) {
                let n = t.as_str().unicode_len();
                let mut r = String::from_str("http://");
                r.append(t.as_str().substring_char(8, n));
                r
            } else {
                t
            }
        } else {
            let mut r = String::from_str("http://");
            r.append(t.as_str());
            r
        }
    }
}

/// What `str::to_lowercase` returns for a text.
pub uninterp spec fn lower_of(s: Seq<char>) -> Seq<char>;

/// What `str::trim` returns for a text.
pub uninterp spec fn trim_of(s: Seq<char>) -> Seq<char>;

/// Relies on `str::to_lowercase`: the result depends on the characters alone.
#[verifier::external_body]
fn lowercase(s: &str) -> (r: String)
    ensures
        r@ == lower_of(s@),
{
    s.to_lowercase()
}

/// Relies on `str::trim`: the result depends on the characters alone.
#[verifier::external_body]
fn trim(s: &str) -> (r: String)
    ensures
        r@ == trim_of(s@),
{
    s.trim().to_string()
}

/// Whether `t` occurs in `s` at position `i`.
pub open spec fn occurs_at(s: Seq<char>, t: Seq<char>, i: int) -> bool {
    0 <= i && i + t.len() <= s.len() && s.subrange(i, i + t.len()) == t
}

pub open spec fn has_substring(s: Seq<char>, t: Seq<char>) -> bool {
    exists|i: int| #[trigger] occurs_at(s, t, i)
}

/// The overlay-address rule on a lowercase text.
pub open spec fn is_onion(s: Seq<char>) -> bool {
    has_substring(s, ".onion"@) && !has_substring(s, ".onion."@)
}

pub open spec fn starts(s: Seq<char>, p: Seq<char>) -> bool {
    p.len() <= s.len() && s.subrange(0, p.len() as int) == p
}

/// The normalised form of a trimmed URL.
pub open spec fn normalized(t: Seq<char>) -> Seq<char> {
    if starts(t, "http://"@) || starts(t, "https://"@) {
        if starts(t, "https://"@) && is_onion(lower_of(t)) {
            "http://"@ + t.subrange(8, t.len() as int)
        } else {
            t
        }
    } else {
        "http://"@ + t
    }
}

/// Whether `t` occurs at position `i` of `s`.
fn occurs(s: &str, t: &str, i: usize) -> (r: bool)
    requires
        i + t@.len() <= s@.len(),
    ensures
        r == occurs_at(s@, t@, i as int),
{
    let n = t.unicode_len();
    let m = s.unicode_len();
    let mut k: usize = 0;
    while k < n
        invariant
            n == t@.len(),
            m == s@.len(),
            i + n <= s@.len(),
            k <= n,
            forall|j: int| 0 <= j < k ==> s@[i + j] == t@[j],
        decreases n - k,
    {
        if s.get_char(i + k) != t.get_char(k) {
            proof {
                assert(s@.subrange(i as int, i + n)[k as int] != t@[k as int]);
            }
            return false;
        }
        k += 1;
    }
    proof {
        assert(s@.subrange(i as int, i + n) =~= t@);
    }
    true
}

/// Whether `t` occurs in `s`.
fn contains(s: &str, t: &str) -> (r: bool)
    ensures
        r == has_substring(s@, t@),
{
    let m = s.unicode_len();
    let n = t.unicode_len();
    if n > m {
        proof {
            assert forall|i: int| !#[trigger] occurs_at(s@, t@, i) by {}
        }
        return false;
    }
    if n == 0 {
        proof {
            assert(occurs_at(s@, t@, 0)) by {
                assert(s@.subrange(0, 0) =~= t@);
            }
        }
        return true;
    }
    let mut i: usize = 0;
    while i <= m - n
        invariant
            n >= 1,
            m == s@.len(),
            n == t@.len(),
            n <= m,
            i <= m - n + 1,
            forall|j: int| 0 <= j < i ==> !#[trigger] occurs_at(s@, t@, j),
        decreases m - n + 1 - i,
    {
        if occurs(s, t, i) {
            return true;
        }
        i += 1;
    }
    proof {
        assert forall|j: int| !#[trigger] occurs_at(s@, t@, j) by {
            if 0 <= j < i {
            }
        }
    }
    false
}

/// Whether `s` starts with `p`.
fn starts_with(s: &str, p: &str) -> (r: bool)
    ensures
        r == starts(s@, p@),
{
    if p.unicode_len() > s.unicode_len() {
        return false;
    }
    let r = occurs(s, p, 0);
    proof {
        assert(occurs_at(s@, p@, 0) == starts(s@, p@));
    }
    r
}

} // verus!
