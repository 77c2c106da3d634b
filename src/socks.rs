//! The local proxy's handshake: a minimal SOCKS5 server side (RFC 1928),
//! no authentication and the CONNECT command only, on byte buffers.

use vstd::prelude::*;
use vstd::string::*;
use vstd::utf8::{decode_utf8, valid_utf8};
use crate::text::{decimal, push_decimal};

verus! {

/// Protocol version byte.
pub const SOCKS_VERSION: u8 = 5;
/// Method "no authentication required".
pub const METHOD_NO_AUTH: u8 = 0;
/// Method reply "no acceptable methods".
pub const METHOD_NONE_ACCEPTABLE: u8 = 0xFF;
/// The CONNECT command.
pub const CMD_CONNECT: u8 = 1;
/// Address types.
pub const ATYP_IPV4: u8 = 1;
pub const ATYP_DOMAIN: u8 = 3;
pub const ATYP_IPV6: u8 = 4;
/// Reply codes.
pub const REP_SUCCEEDED: u8 = 0;
pub const REP_HOST_UNREACHABLE: u8 = 4;
pub const REP_COMMAND_NOT_SUPPORTED: u8 = 7;
pub const REP_ADDRESS_TYPE_NOT_SUPPORTED: u8 = 8;

/// What the client's greeting calls for.
#[derive(Clone, Copy, Debug, PartialEq, Eq, Structural)]
pub enum Greeting {
    /// More bytes are needed.
    Incomplete,
    /// Not version 5: close the connection.
    BadVersion,
    /// "No authentication" is offered: answer it and go on; the greeting was `consumed` bytes.
    Accept { consumed: usize },
    /// It is not offered: answer that no method is acceptable and close.
    Reject { consumed: usize },
}

/// What a greeting calls for.
pub open spec fn greeting_of(b: Seq<u8>) -> Greeting {
    if b.len() == 0 {
        Greeting::Incomplete
    } else if b[0] != SOCKS_VERSION {
        Greeting::BadVersion
    } else if b.len() < 2 || b.len() < 2 + b[1] {
        Greeting::Incomplete
    } else if b.subrange(2, 2 + b[1]).contains(METHOD_NO_AUTH) {
        Greeting::Accept { consumed: (2 + b[1]) as usize }
    } else {
        Greeting::Reject { consumed: (2 + b[1]) as usize }
    }
}

/// Reads the client's greeting: `VER NMETHODS METHODS...`.
pub fn parse_greeting(b: &[u8]) -> (r: Greeting)
    ensures
        r == greeting_of(b@),
{
    if b.len() == 0 {
        return Greeting::Incomplete;
    }
    if b[0] != SOCKS_VERSION {
        return Greeting::BadVersion;
    }
    if b.len() < 2 {
        return Greeting::Incomplete;
    }
    let n = b[1] as usize;
    if b.len() < 2 + n {
        return Greeting::Incomplete;
    }
    let mut i: usize = 2;
    while i < 2 + n
        invariant
            b@.len() >= 2,
            b@[0] == SOCKS_VERSION,
            2 <= i <= 2 + n,
            n == b@[1],
            2 + n <= b@.len(),
            forall|j: int| 2 <= j < i ==> b@[j] != METHOD_NO_AUTH,
        decreases 2 + n - i,
    {
        if b[i] == METHOD_NO_AUTH {
            proof {
                assert(b@.subrange(2, 2 + n as int)[i - 2] == METHOD_NO_AUTH);
                assert(b@.subrange(2, 2 + n as int).contains(METHOD_NO_AUTH));
            }
            return Greeting::Accept { consumed: 2 + n };
        }
        i += 1;
    }
    proof {
        let m = b@.subrange(2, 2 + n as int);
        assert forall|j: int| 0 <= j < m.len() implies #[trigger] m[j] != METHOD_NO_AUTH by {
            assert(b@[j + 2] != METHOD_NO_AUTH);
        }
    }
    Greeting::Reject { consumed: 2 + n }
}

/// The server's answer to a greeting: the chosen method.
pub fn greeting_reply(accepted: bool) -> (r: Vec<u8>)
    ensures
        r@ == seq![SOCKS_VERSION, if accepted { METHOD_NO_AUTH } else { METHOD_NONE_ACCEPTABLE }],
{
    let mut r = Vec::new();
    r.push(SOCKS_VERSION);
    r.push(if accepted { METHOD_NO_AUTH } else { METHOD_NONE_ACCEPTABLE });
    r
}

/// A reply to a request: `VER REP RSV ATYP=IPv4 BND.ADDR=0.0.0.0 BND.PORT=0`.
pub open spec fn reply_bytes(rep: u8) -> Seq<u8> {
    seq![SOCKS_VERSION, rep, 0, ATYP_IPV4, 0, 0, 0, 0, 0, 0]
}

/// Builds the reply to a request.
pub fn reply(rep: u8) -> (r: Vec<u8>)
    ensures
        r@ == reply_bytes(rep),
{
    let mut r = Vec::new();
    r.push(SOCKS_VERSION);
    r.push(rep);
    r.push(0);
    r.push(ATYP_IPV4);
    r.push(0);
    r.push(0);
    r.push(0);
    r.push(0);
    r.push(0);
    r.push(0);
    assert(r@ =~= reply_bytes(rep));
    r
}

/// Lowercase hex digit.
pub open spec fn hex_char(d: nat) -> char {
    seq!['0', '1', '2', '3', '4', '5', '6', '7', '8', '9', 'a', 'b', 'c', 'd', 'e', 'f'][d as int]
}

/// Lowercase hex text of a number, without leading zeros.
pub open spec fn hex_text(n: nat) -> Seq<char>
    decreases n,
{
    if n < 16 {
        seq![hex_char(n)]
    } else {
        hex_text(n / 16).push(hex_char(n % 16))
    }
}

/// `a.b.c.d` for four bytes.
pub open spec fn ipv4_text(a: Seq<u8>) -> Seq<char> {
    decimal(a[0] as nat) + seq!['.'] + decimal(a[1] as nat) + seq!['.'] + decimal(a[2] as nat) + seq!['.']
        + decimal(a[3] as nat)
}

/// The 16-bit group `k` of an IPv6 address, as hex.
pub open spec fn ipv6_group(a: Seq<u8>, k: int) -> Seq<char> {
    hex_text((a[2 * k] as nat) * 256 + a[2 * k + 1] as nat)
}

/// The first `k` groups of an IPv6 address, separated by colons.
pub open spec fn ipv6_prefix(a: Seq<u8>, k: int) -> Seq<char>
    decreases k,
{
    if k <= 0 {
        Seq::empty()
    } else if k == 1 {
        ipv6_group(a, 0)
    } else {
        ipv6_prefix(a, k - 1) + seq![':'] + ipv6_group(a, k - 1)
    }
}

/// The eight hex groups of a 16-byte IPv6 address, separated by colons.
pub open spec fn ipv6_text(a: Seq<u8>) -> Seq<char> {
    ipv6_prefix(a, 8)
}

/// The port in two big-endian bytes.
pub open spec fn port_of(hi: u8, lo: u8) -> u16 {
    ((hi as nat) * 256 + lo as nat) as u16
}

/// What a request calls for.
pub ghost enum RequestView {
    Incomplete,
    Refuse(u8),
    BadDomain,
    Connect(Seq<char>, u16, nat),
}

/// What a request `VER CMD RSV ATYP DST.ADDR DST.PORT` calls for.
pub open spec fn request_of(b: Seq<u8>) -> RequestView {
    if b.len() < 4 {
        RequestView::Incomplete
    } else if b[0] != SOCKS_VERSION || b[1] != CMD_CONNECT {
        RequestView::Refuse(REP_COMMAND_NOT_SUPPORTED)
    } else if b[3] == ATYP_IPV4 {
        if b.len() < 10 {
            RequestView::Incomplete
        } else {
            RequestView::Connect(ipv4_text(b.subrange(4, 8)), port_of(b[8], b[9]), 10)
        }
    } else if b[3] == ATYP_DOMAIN {
        if b.len() < 5 || b.len() < 7 + b[4] {
            RequestView::Incomplete
        } else if !valid_utf8(b.subrange(5, 5 + b[4])) {
            RequestView::BadDomain
        } else {
            RequestView::Connect(
                decode_utf8(b.subrange(5, 5 + b[4])),
                port_of(b[5 + b[4]], b[6 + b[4]]),
                (7 + b[4]) as nat,
            )
        }
    } else if b[3] == ATYP_IPV6 {
        if b.len() < 22 {
            RequestView::Incomplete
        } else {
            RequestView::Connect(ipv6_text(b.subrange(4, 20)), port_of(b[20], b[21]), 22)
        }
    } else {
        RequestView::Refuse(REP_ADDRESS_TYPE_NOT_SUPPORTED)
    }
}

/// What a request calls for.
pub enum Request {
    /// More bytes are needed.
    Incomplete,
    /// Answer with this reply code and close.
    Refuse { reply: u8 },
    /// The domain name is not UTF-8: close.
    BadDomain,
    /// Connect to `host:port`; the request was `consumed` bytes.
    Connect { host: String, port: u16, consumed: usize },
}

impl View for Request {
    type V = RequestView;

    open spec fn view(&self) -> RequestView {
        match self {
            Request::Incomplete => RequestView::Incomplete,
            Request::Refuse { reply } => RequestView::Refuse(*reply),
            Request::BadDomain => RequestView::BadDomain,
            Request::Connect { host, port, consumed } => RequestView::Connect(host@, *port, *consumed as nat),
        }
    }
}

/// Relies on `String::from_utf8`: the text of valid UTF-8 bytes, `None` for invalid ones.
#[verifier::external_body]
fn utf8_text(b: Vec<u8>) -> (r: Option<String>)
    ensures
        match r {
            Some(s) => valid_utf8(b@) && s@ == decode_utf8(b@),
            None => !valid_utf8(b@),
        },
{
    String::from_utf8(b).ok()
}

fn hex_str(d: u16) -> (r: &'static str)
    requires
        d < 16,
    ensures
        r@ == seq![hex_char(d as nat)],
{
    proof {
        reveal_strlit("0");
        reveal_strlit("1");
        reveal_strlit("2");
        reveal_strlit("3");
        reveal_strlit("4");
        reveal_strlit("5");
        reveal_strlit("6");
        reveal_strlit("7");
        reveal_strlit("8");
        reveal_strlit("9");
        reveal_strlit("a");
        reveal_strlit("b");
        reveal_strlit("c");
        reveal_strlit("d");
        reveal_strlit("e");
        reveal_strlit("f");
    }
    let r = if d == 0 { "0" } else if d == 1 { "1" } else if d == 2 { "2" } else if d == 3 { "3" }
        else if d == 4 { "4" } else if d == 5 { "5" } else if d == 6 { "6" } else if d == 7 { "7" }
        else if d == 8 { "8" } else if d == 9 { "9" } else if d == 10 { "a" } else if d == 11 { "b" }
        else if d == 12 { "c" } else if d == 13 { "d" } else if d == 14 { "e" } else { "f" };
    assert(r@ =~= seq![hex_char(d as nat)]);
    r
}

fn push_hex(out: &mut String, n: u16)
    ensures
        final(out)@ == old(out)@ + hex_text(n as nat),
    decreases n,
{
    if n >= 16 {
        push_hex(out, n / 16);
    }
    out.append(hex_str(n % 16));
    proof {
        if n >= 16 {
            assert(old(out)@ + hex_text((n / 16) as nat) + seq![hex_char((n % 16) as nat)] =~= old(out)@
                + hex_text(n as nat));
        } else {
            assert(old(out)@ + seq![hex_char(n as nat)] =~= old(out)@ + hex_text(n as nat));
        }
    }
}

fn ipv4_host(b: &[u8], at: usize) -> (r: String)
    requires
        at + 4 <= b@.len(),
    ensures
        r@ == ipv4_text(b@.subrange(at as int, at + 4)),
{
    proof {
        reveal_strlit(".");
    }
    let mut s = String::new();
    push_decimal(&mut s, b[at] as u64);
    s.append(".");
    push_decimal(&mut s, b[at + 1] as u64);
    s.append(".");
    push_decimal(&mut s, b[at + 2] as u64);
    s.append(".");
    push_decimal(&mut s, b[at + 3] as u64);
    assert(s@ =~= ipv4_text(b@.subrange(at as int, at + 4)));
    s
}

fn ipv6_host(b: &[u8], at: usize) -> (r: String)
    requires
        at + 16 <= b@.len(),
    ensures
        r@ == ipv6_text(b@.subrange(at as int, at + 16)),
{
    proof {
        reveal_strlit(":");
    }
    let ghost a = b@.subrange(at as int, at + 16);
    let len = b.len();
    let mut s = String::new();
    let mut k: usize = 0;
    while k < 8
        invariant
            k <= 8,
            len == b@.len(),
            at + 16 <= b@.len(),
            a == b@.subrange(at as int, at + 16),
            s@ == ipv6_prefix(a, k as int),
        decreases 8 - k,
    {
        let ghost before = s@;
        if k > 0 {
            s.append(":");
        }
        let hi = b[at + 2 * k];
        let lo = b[at + 2 * k + 1];
        let g: u16 = (hi as u16) * 256 + lo as u16;
        proof {
            assert(a[2 * k as int] == hi);
            assert(a[2 * k + 1] == lo);
            assert(g as nat == (a[2 * k as int] as nat) * 256 + a[2 * k + 1] as nat);
        }
        push_hex(&mut s, g);
        proof {
            if k == 0 {
                assert(s@ =~= ipv6_prefix(a, 1));
            } else {
                assert(hex_text(g as nat) == ipv6_group(a, k as int));
                assert(s@ == before + ":"@ + hex_text(g as nat));
                reveal_strlit(":");
                assert(":"@ =~= seq![':']);
                assert(s@ =~= ipv6_prefix(a, k as int) + seq![':'] + ipv6_group(a, k as int));
            }
        }
        k += 1;
    }
    s
}

fn copy_range(b: &[u8], from: usize, to: usize) -> (r: Vec<u8>)
    requires
        from <= to <= b@.len(),
    ensures
        r@ == b@.subrange(from as int, to as int),
{
    let mut r = Vec::new();
    let mut i = from;
    while i < to
        invariant
            from <= i <= to <= b@.len(),
            r@ == b@.subrange(from as int, i as int),
        decreases to - i,
    {
        r.push(b[i]);
        i += 1;
        assert(r@ =~= b@.subrange(from as int, i as int));
    }
    r
}

/// Reads a connection request.
pub fn parse_request(b: &[u8]) -> (r: Request)
    ensures
        r@ == request_of(b@),
{
    if b.len() < 4 {
        return Request::Incomplete;
    }
    if b[0] != SOCKS_VERSION || b[1] != CMD_CONNECT {
        return Request::Refuse { reply: REP_COMMAND_NOT_SUPPORTED };
    }
    let atyp = b[3];
    if atyp == ATYP_IPV4 {
        if b.len() < 10 {
            return Request::Incomplete;
        }
        let host = ipv4_host(b, 4);
        let port: u16 = (b[8] as u16) * 256 + b[9] as u16;
        Request::Connect { host, port, consumed: 10 }
    } else if atyp == ATYP_DOMAIN {
        if b.len() < 5 {
            return Request::Incomplete;
        }
        let n = b[4] as usize;
        if b.len() < 7 + n {
            return Request::Incomplete;
        }
        match utf8_text(copy_range(b, 5, 5 + n)) {
            None => Request::BadDomain,
            Some(host) => {
                let port: u16 = (b[5 + n] as u16) * 256 + b[6 + n] as u16;
                Request::Connect { host, port, consumed: 7 + n }
            },
        }
    } else if atyp == ATYP_IPV6 {
        if b.len() < 22 {
            return Request::Incomplete;
        }
        let host = ipv6_host(b, 4);
        let port: u16 = (b[20] as u16) * 256 + b[21] as u16;
        Request::Connect { host, port, consumed: 22 }
    } else {
        Request::Refuse { reply: REP_ADDRESS_TYPE_NOT_SUPPORTED }
    }
}

/// The `host:port` text handed to the overlay client.
pub fn connect_address(host: &String, port: u16) -> (r: String)
    ensures
        r@ == host@ + seq![':'] + decimal(port as nat),
{
    proof {
        reveal_strlit(":");
    }
    let mut r = host.clone();
    r.append(":");
    push_decimal(&mut r, port as u64);
    r
}

/// Where a proxy connection stands.
#[derive(Clone, Copy, Debug, PartialEq, Eq, Structural)]
pub enum ProxyPhase {
    AwaitGreeting,
    AwaitRequest,
    Connecting,
    Relaying,
    Closed,
}

/// What the transport does next for a proxy connection.
pub enum ProxyAction {
    /// Read more bytes from the client.
    Read,
    /// Send these bytes to the client and read on.
    Send { bytes: Vec<u8> },
    /// Send these bytes, then close the connection.
    SendAndClose { bytes: Vec<u8> },
    /// Ask the overlay client for a stream to `address`.
    Connect { address: String },
    /// Send these bytes, then splice the two streams until either side ends.
    SendAndRelay { bytes: Vec<u8> },
    /// Close the connection.
    Close,
}

/// One client connection of the local proxy: bytes not yet handled, and the phase.
pub struct ProxyConnection {
    pub buffer: Vec<u8>,
    pub phase: ProxyPhase,
}

impl ProxyConnection {
    pub fn new() -> (r: ProxyConnection)
        ensures
            r.phase == ProxyPhase::AwaitGreeting,
            r.buffer@.len() == 0,
    {
        ProxyConnection { buffer: Vec::new(), phase: ProxyPhase::AwaitGreeting }
    }

    /// Drops the first `n` buffered bytes.
    fn consume(&mut self, n: usize)
        requires
            n <= old(self).buffer@.len(),
        ensures
            final(self).buffer@ == old(self).buffer@.subrange(n as int, old(self).buffer@.len() as int),
            final(self).phase == old(self).phase,
    {
        let mut rest = Vec::new();
        let mut i = n;
        while i < self.buffer.len()
            invariant
                n <= i <= self.buffer@.len(),
                self.buffer@ == old(self).buffer@,
                self.phase == old(self).phase,
                rest@ == self.buffer@.subrange(n as int, i as int),
            decreases self.buffer@.len() - i,
        {
            rest.push(self.buffer[i]);
            i += 1;
            assert(rest@ =~= self.buffer@.subrange(n as int, i as int));
        }
        self.buffer = rest;
    }

    /// Takes bytes read from the client and decides the next step: answer
    /// the greeting, refuse or accept a request, or wait for more bytes.
    pub fn on_bytes(&mut self, data: &[u8]) -> (r: ProxyAction)
        ensures
            old(self).phase != ProxyPhase::AwaitGreeting && old(self).phase != ProxyPhase::AwaitRequest ==> r is Close
                && final(self).phase == ProxyPhase::Closed,
            old(self).phase == ProxyPhase::AwaitGreeting ==> match greeting_of(old(self).buffer@ + data@) {
                Greeting::Incomplete => r is Read && final(self).phase == ProxyPhase::AwaitGreeting
                    && final(self).buffer@ == old(self).buffer@ + data@,
                Greeting::BadVersion => r is Close && final(self).phase == ProxyPhase::Closed,
                Greeting::Accept { consumed } => r matches ProxyAction::Send { bytes } && bytes@ == seq![SOCKS_VERSION, METHOD_NO_AUTH]
                    && final(self).phase == ProxyPhase::AwaitRequest && final(self).buffer@ == (old(self).buffer@
                    + data@).subrange(consumed as int, (old(self).buffer@ + data@).len() as int),
                Greeting::Reject { .. } => r matches ProxyAction::SendAndClose { bytes } && bytes@ == seq![SOCKS_VERSION, METHOD_NONE_ACCEPTABLE]
                    && final(self).phase == ProxyPhase::Closed,
            },
            old(self).phase == ProxyPhase::AwaitRequest ==> match request_of(old(self).buffer@ + data@) {
                RequestView::Incomplete => r is Read && final(self).phase == ProxyPhase::AwaitRequest
                    && final(self).buffer@ == old(self).buffer@ + data@,
                RequestView::Refuse(code) => r matches ProxyAction::SendAndClose { bytes } && bytes@ == reply_bytes(code)
                    && final(self).phase == ProxyPhase::Closed,
                RequestView::BadDomain => r is Close && final(self).phase == ProxyPhase::Closed,
                RequestView::Connect(host, port, consumed) => r matches ProxyAction::Connect { address } && address@
                    == host + seq![':'] + decimal(port as nat) && final(self).phase == ProxyPhase::Connecting
                    && final(self).buffer@ == (old(self).buffer@ + data@).subrange(
                    consumed as int,
                    (old(self).buffer@ + data@).len() as int,
                ),
            },
    {
        match self.phase {
            ProxyPhase::AwaitGreeting | ProxyPhase::AwaitRequest => {},
            _ => {
                self.phase = ProxyPhase::Closed;
                return ProxyAction::Close;
            },
        }
        let mut i: usize = 0;
        while i < data.len()
            invariant
                i <= data@.len(),
                self.phase == old(self).phase,
                self.buffer@ == old(self).buffer@ + data@.subrange(0, i as int),
            decreases data@.len() - i,
        {
            self.buffer.push(data[i]);
            i += 1;
            assert(self.buffer@ =~= old(self).buffer@ + data@.subrange(0, i as int));
        }
        assert(data@.subrange(0, data@.len() as int) =~= data@);
        if self.phase == ProxyPhase::AwaitGreeting {
            match parse_greeting(self.buffer.as_slice()) {
                Greeting::Incomplete => ProxyAction::Read,
                Greeting::BadVersion => {
                    self.phase = ProxyPhase::Closed;
                    ProxyAction::Close
                },
                Greeting::Accept { consumed } => {
                    self.consume(consumed);
                    self.phase = ProxyPhase::AwaitRequest;
                    ProxyAction::Send { bytes: greeting_reply(true) }
                },
                Greeting::Reject { .. } => {
                    self.phase = ProxyPhase::Closed;
                    ProxyAction::SendAndClose { bytes: greeting_reply(false) }
                },
            }
        } else {
            match parse_request(self.buffer.as_slice()) {
                Request::Incomplete => ProxyAction::Read,
                Request::Refuse { reply: code } => {
                    self.phase = ProxyPhase::Closed;
                    ProxyAction::SendAndClose { bytes: reply(code) }
                },
                Request::BadDomain => {
                    self.phase = ProxyPhase::Closed;
                    ProxyAction::Close
                },
                Request::Connect { host, port, consumed } => {
                    self.consume(consumed);
                    self.phase = ProxyPhase::Connecting;
                    ProxyAction::Connect { address: connect_address(&host, port) }
                },
            }
        }
    }

    /// Takes the overlay client's answer to a connect: success starts the
    /// relay, failure answers "host unreachable" and closes.
    pub fn on_connected(&mut self, ok: bool) -> (r: ProxyAction)
        ensures
            old(self).phase != ProxyPhase::Connecting ==> r is Close && final(self).phase == ProxyPhase::Closed,
            old(self).phase == ProxyPhase::Connecting && ok ==> (r matches ProxyAction::SendAndRelay { bytes } && bytes@
                == reply_bytes(REP_SUCCEEDED) && final(self).phase == ProxyPhase::Relaying),
            old(self).phase == ProxyPhase::Connecting && !ok ==> (r matches ProxyAction::SendAndClose { bytes } && bytes@
                == reply_bytes(REP_HOST_UNREACHABLE) && final(self).phase == ProxyPhase::Closed),
    {
        if self.phase != ProxyPhase::Connecting {
            self.phase = ProxyPhase::Closed;
            return ProxyAction::Close;
        }
        if ok {
            self.phase = ProxyPhase::Relaying;
            ProxyAction::SendAndRelay { bytes: reply(REP_SUCCEEDED) }
        } else {
            self.phase = ProxyPhase::Closed;
            ProxyAction::SendAndClose { bytes: reply(REP_HOST_UNREACHABLE) }
        }
    }
}

} // verus!
