//! The SOCKS5 wire format (RFC 1928): replies, the client's greeting and
//! request, and the handshake with another SOCKS5 server.
//!
//! Incoming messages are read by functions over the bytes that have arrived
//! so far. Each says how many more bytes it needs, and never asks for a byte
//! beyond the end of the message.
use vstd::prelude::*;
use vstd::utf8::*;

use crate::text::text_from_utf8;

verus! {

pub const SOCKS_VERSION: u8 = 0x05;

pub const AUTH_NONE: u8 = 0x00;

pub const AUTH_UNACCEPTABLE: u8 = 0xff;

pub const CMD_CONNECT: u8 = 0x01;

pub const ATYP_IPV4: u8 = 0x01;

pub const ATYP_DOMAIN: u8 = 0x03;

pub const ATYP_IPV6: u8 = 0x04;

pub const REP_SUCCESS: u8 = 0x00;

pub const REP_GENERAL_FAILURE: u8 = 0x01;

pub const REP_NET_UNREACHABLE: u8 = 0x03;

pub const REP_HOST_UNREACHABLE: u8 = 0x04;

pub const REP_CONN_REFUSED: u8 = 0x05;

pub const REP_CMD_NOT_SUPPORTED: u8 = 0x07;

pub const REP_ATYP_NOT_SUPPORTED: u8 = 0x08;

// ── Destinations ─────────────────────────────────────────────────────────

/// Where a client wants to be connected to.
#[derive(Debug)]
pub enum Target {
    Ipv4([u8; 4], u16),
    Ipv6([u8; 16], u16),
    Domain(String, u16),
}

/// A destination by its contents.
pub enum TargetView {
    Ipv4(Seq<u8>, u16),
    Ipv6(Seq<u8>, u16),
    Domain(Seq<char>, u16),
}

impl View for Target {
    type V = TargetView;

    open spec fn view(&self) -> TargetView {
        match self {
            Target::Ipv4(ip, port) => TargetView::Ipv4(ip@, *port),
            Target::Ipv6(ip, port) => TargetView::Ipv6(ip@, *port),
            Target::Domain(name, port) => TargetView::Domain(name@, *port),
        }
    }
}

impl TargetView {
    /// An address has the length of its kind; a name fills between one and
    /// 255 bytes, as the wire format's length byte demands.
    pub open spec fn fits(self) -> bool {
        match self {
            TargetView::Ipv4(ip, _) => ip.len() == 4,
            TargetView::Ipv6(ip, _) => ip.len() == 16,
            TargetView::Domain(name, _) => 1 <= encode_utf8(name).len() <= 255,
        }
    }
}

/// A socket address.
#[derive(Debug, Clone, Copy)]
pub enum Endpoint {
    V4([u8; 4], u16),
    V6([u8; 16], u16),
}

// ── Replies ──────────────────────────────────────────────────────────────

/// A sixteen-bit number as two bytes, the high one first.
pub open spec fn be16(n: u16) -> Seq<u8> {
    seq![(n / 256) as u8, (n % 256) as u8]
}

/// The number that two bytes denote, the high one first.
pub open spec fn from_be16(hi: u8, lo: u8) -> u16 {
    (hi * 256 + lo) as u16
}

/// The reply that carries code `rep` and an all-zero bound address.
pub open spec fn reply_bytes(rep: u8) -> Seq<u8> {
    seq![SOCKS_VERSION, rep, 0, ATYP_IPV4, 0, 0, 0, 0, 0, 0]
}

/// The reply that carries code `rep` and the bound address `at`.
pub open spec fn bound_reply_bytes(rep: u8, at: Endpoint) -> Seq<u8> {
    match at {
        Endpoint::V4(ip, port) => seq![SOCKS_VERSION, rep, 0, ATYP_IPV4] + ip@ + be16(port),
        Endpoint::V6(ip, port) => seq![SOCKS_VERSION, rep, 0, ATYP_IPV6] + ip@ + be16(port),
    }
}

/// The reply with code `rep` and no bound address.
pub fn socks5_reply(rep: u8) -> (r: [u8; 10])
    ensures
        r@ == reply_bytes(rep),
{
    let r: [u8; 10] = [SOCKS_VERSION, rep, 0x00, ATYP_IPV4, 0, 0, 0, 0, 0, 0];
    assert(r@ =~= reply_bytes(rep));
    r
}

pub(crate) fn push_port(buf: &mut Vec<u8>, port: u16)
    ensures
        final(buf)@ == old(buf)@ + be16(port),
{
    buf.push((port / 256) as u8);
    buf.push((port % 256) as u8);
    assert(buf@ =~= old(buf)@ + be16(port));
}

pub(crate) fn push_bytes(buf: &mut Vec<u8>, bytes: &[u8])
    ensures
        final(buf)@ == old(buf)@ + bytes@,
{
    let mut i: usize = 0;
    assert(buf@ =~= old(buf)@ + bytes@.take(0));
    while i < bytes.len()
        invariant
            i <= bytes@.len(),
            buf@ == old(buf)@ + bytes@.take(i as int),
        decreases bytes@.len() - i,
    {
        buf.push(bytes[i]);
        i = i + 1;
        assert(buf@ =~= old(buf)@ + bytes@.take(i as int));
    }
    assert(bytes@.take(bytes@.len() as int) == bytes@);
}

/// The reply with code `rep` and the bound address `addr`.
pub fn socks5_reply_with_bind(rep: u8, addr: Endpoint) -> (r: Vec<u8>)
    ensures
        r@ == bound_reply_bytes(rep, addr),
{
    let mut buf: Vec<u8> = Vec::new();
    buf.push(SOCKS_VERSION);
    buf.push(rep);
    buf.push(0x00);
    match addr {
        Endpoint::V4(ip, port) => {
            buf.push(ATYP_IPV4);
            assert(buf@ =~= seq![SOCKS_VERSION, rep, 0, ATYP_IPV4]);
            push_bytes(&mut buf, &ip);
            push_port(&mut buf, port);
        },
        Endpoint::V6(ip, port) => {
            buf.push(ATYP_IPV6);
            assert(buf@ =~= seq![SOCKS_VERSION, rep, 0, ATYP_IPV6]);
            push_bytes(&mut buf, &ip);
            push_port(&mut buf, port);
        },
    }
    buf
}

// ── The client's greeting ────────────────────────────────────────────────

/// What the bytes of a greeting amount to so far.
#[derive(Debug, Clone, Copy, PartialEq, Eq, Structural)]
pub enum Greeting {
    /// This many bytes have to be read before anything can be said.
    Need(usize),
    /// The first byte is not the SOCKS5 version.
    BadVersion,
    /// The client does not offer to go without authentication.
    NoMethod,
    /// The client offers to go without authentication.
    Accepted,
}

/// The reading of a greeting: the version, the number of methods, and the
/// methods, of which one has to be "no authentication".
pub open spec fn greeting_of(buf: Seq<u8>) -> Greeting {
    if buf.len() == 0 {
        Greeting::Need(1)
    } else if buf[0] != SOCKS_VERSION {
        Greeting::BadVersion
    } else if buf.len() == 1 {
        Greeting::Need(1)
    } else if buf.len() < 2 + buf[1] {
        Greeting::Need((2 + buf[1] - buf.len()) as usize)
    } else if buf.subrange(2, 2 + buf[1]).contains(AUTH_NONE) {
        Greeting::Accepted
    } else {
        Greeting::NoMethod
    }
}

/// Reads a client's greeting from the bytes that have arrived.
pub fn client_greeting(buf: &Vec<u8>) -> (r: Greeting)
    ensures
        r == greeting_of(buf@),
{
    if buf.len() == 0 {
        return Greeting::Need(1);
    }
    if buf[0] != SOCKS_VERSION {
        return Greeting::BadVersion;
    }
    if buf.len() == 1 {
        return Greeting::Need(1);
    }
    let end: usize = 2 + buf[1] as usize;
    if buf.len() < end {
        return Greeting::Need(end - buf.len());
    }
    let ghost methods = buf@.subrange(2, end as int);
    let mut i: usize = 2;
    while i < end
        invariant
            2 <= i <= end <= buf@.len(),
            end == 2 + buf@[1],
            buf@[0] == SOCKS_VERSION,
            methods == buf@.subrange(2, end as int),
            forall|j: int| 2 <= j < i ==> buf@[j] != AUTH_NONE,
        decreases end - i,
    {
        if buf[i] == AUTH_NONE {
            assert(methods[i - 2] == AUTH_NONE);
            return Greeting::Accepted;
        }
        i = i + 1;
    }
    assert(!methods.contains(AUTH_NONE));
    Greeting::NoMethod
}

// ── The client's request ─────────────────────────────────────────────────

/// Why a request is turned down.
#[derive(Debug, Clone, Copy, PartialEq, Eq, Structural)]
pub enum RequestError {
    BadVersion,
    NotConnect,
    EmptyDomain,
    DomainNotUtf8,
    BadAddressType,
}

/// What the bytes of a request amount to so far.
#[derive(Debug)]
pub enum Request {
    /// This many bytes have to be read before anything can be said.
    Need(usize),
    /// The request is turned down.
    Refused(RequestError),
    /// The destination that the request names.
    Complete(Target),
}

/// A request's reading by its contents.
pub enum RequestView {
    Need(int),
    Refused(RequestError),
    Complete(TargetView),
}

impl View for Request {
    type V = RequestView;

    open spec fn view(&self) -> RequestView {
        match self {
            Request::Need(n) => RequestView::Need(*n as int),
            Request::Refused(e) => RequestView::Refused(*e),
            Request::Complete(t) => RequestView::Complete(t@),
        }
    }
}

/// The bytes of a CONNECT request for `t`.
pub open spec fn request_bytes(t: TargetView) -> Seq<u8> {
    match t {
        TargetView::Ipv4(ip, port) => seq![SOCKS_VERSION, CMD_CONNECT, 0, ATYP_IPV4] + ip + be16(
            port,
        ),
        TargetView::Ipv6(ip, port) => seq![SOCKS_VERSION, CMD_CONNECT, 0, ATYP_IPV6] + ip + be16(
            port,
        ),
        TargetView::Domain(name, port) => seq![
            SOCKS_VERSION,
            CMD_CONNECT,
            0,
            ATYP_DOMAIN,
            encode_utf8(name).len() as u8,
        ] + encode_utf8(name) + be16(port),
    }
}

/// The port in the two bytes at `at`.
pub open spec fn port_at(buf: Seq<u8>, at: int) -> u16 {
    from_be16(buf[at], buf[at + 1])
}

/// The reading of a CONNECT request. A wrong version, command or address
/// type, an empty name and a name that is not UTF-8 are each noticed as soon
/// as their bytes are there.
pub open spec fn request_of(buf: Seq<u8>) -> RequestView {
    if buf.len() == 0 {
        RequestView::Need(1)
    } else if buf[0] != SOCKS_VERSION {
        RequestView::Refused(RequestError::BadVersion)
    } else if buf.len() < 4 {
        RequestView::Need(4 - buf.len())
    } else if buf[1] != CMD_CONNECT {
        RequestView::Refused(RequestError::NotConnect)
    } else if buf[3] == ATYP_IPV4 {
        if buf.len() < 10 {
            RequestView::Need(10 - buf.len())
        } else {
            RequestView::Complete(TargetView::Ipv4(buf.subrange(4, 8), port_at(buf, 8)))
        }
    } else if buf[3] == ATYP_IPV6 {
        if buf.len() < 22 {
            RequestView::Need(22 - buf.len())
        } else {
            RequestView::Complete(TargetView::Ipv6(buf.subrange(4, 20), port_at(buf, 20)))
        }
    } else if buf[3] == ATYP_DOMAIN {
        if buf.len() == 4 {
            RequestView::Need(1)
        } else if buf[4] == 0 {
            RequestView::Refused(RequestError::EmptyDomain)
        } else {
            let end = 5 + buf[4];
            if buf.len() < end {
                RequestView::Need(end - buf.len())
            } else if !valid_utf8(buf.subrange(5, end)) {
                RequestView::Refused(RequestError::DomainNotUtf8)
            } else if buf.len() < end + 2 {
                RequestView::Need(end + 2 - buf.len())
            } else {
                RequestView::Complete(
                    TargetView::Domain(decode_utf8(buf.subrange(5, end)), port_at(buf, end)),
                )
            }
        }
    } else {
        RequestView::Refused(RequestError::BadAddressType)
    }
}

fn read_port(buf: &Vec<u8>, at: usize) -> (r: u16)
    requires
        at + 2 <= buf@.len(),
    ensures
        r == port_at(buf@, at as int),
{
    let n: usize = buf.len();
    assert(at + 1 < n);
    buf[at] as u16 * 256 + buf[at + 1] as u16
}

/// Reads a client's CONNECT request from the bytes that have arrived.
pub fn client_request(buf: &Vec<u8>) -> (r: Request)
    ensures
        r@ == request_of(buf@),
{
    if buf.len() == 0 {
        return Request::Need(1);
    }
    if buf[0] != SOCKS_VERSION {
        return Request::Refused(RequestError::BadVersion);
    }
    if buf.len() < 4 {
        return Request::Need(4 - buf.len());
    }
    if buf[1] != CMD_CONNECT {
        return Request::Refused(RequestError::NotConnect);
    }
    let atyp: u8 = buf[3];
    if atyp == ATYP_IPV4 {
        if buf.len() < 10 {
            return Request::Need(10 - buf.len());
        }
        let ip: [u8; 4] = [buf[4], buf[5], buf[6], buf[7]];
        assert(ip@ =~= buf@.subrange(4, 8));
        Request::Complete(Target::Ipv4(ip, read_port(buf, 8)))
    } else if atyp == ATYP_IPV6 {
        if buf.len() < 22 {
            return Request::Need(22 - buf.len());
        }
        let ip: [u8; 16] = [
            buf[4],
            buf[5],
            buf[6],
            buf[7],
            buf[8],
            buf[9],
            buf[10],
            buf[11],
            buf[12],
            buf[13],
            buf[14],
            buf[15],
            buf[16],
            buf[17],
            buf[18],
            buf[19],
        ];
        assert(ip@ =~= buf@.subrange(4, 20));
        Request::Complete(Target::Ipv6(ip, read_port(buf, 20)))
    } else if atyp == ATYP_DOMAIN {
        if buf.len() == 4 {
            return Request::Need(1);
        }
        if buf[4] == 0 {
            return Request::Refused(RequestError::EmptyDomain);
        }
        let end: usize = 5 + buf[4] as usize;
        if buf.len() < end {
            return Request::Need(end - buf.len());
        }
        let name = crate::text::copy_range(buf, 5, end);
        match text_from_utf8(name) {
            None => Request::Refused(RequestError::DomainNotUtf8),
            Some(domain) => {
                if buf.len() < end + 2 {
                    Request::Need(end + 2 - buf.len())
                } else {
                    Request::Complete(Target::Domain(domain, read_port(buf, end)))
                }
            },
        }
    } else {
        Request::Refused(RequestError::BadAddressType)
    }
}

// ── Requests of our own ──────────────────────────────────────────────────

/// Why no request can be made for a destination.
#[derive(Debug, Clone, Copy, PartialEq, Eq, Structural)]
pub enum EncodeError {
    NotADomain,
    DomainTooLong,
}

/// The CONNECT request that lets the server resolve the name itself: only
/// names are passed on, and only those whose length fits the length byte.
pub open spec fn connect_request_of(t: TargetView) -> Result<Seq<u8>, EncodeError> {
    match t {
        TargetView::Domain(name, _) => if encode_utf8(name).len() > 255 {
            Err(EncodeError::DomainTooLong)
        } else {
            Ok(request_bytes(t))
        },
        _ => Err(EncodeError::NotADomain),
    }
}

/// Encodes the CONNECT request for a named destination.
pub fn connect_request(target: &Target) -> (r: Result<Vec<u8>, EncodeError>)
    ensures
        match r {
            Ok(bytes) => connect_request_of(target@) == Ok::<Seq<u8>, EncodeError>(bytes@),
            Err(e) => connect_request_of(target@) == Err::<Seq<u8>, EncodeError>(e),
        },
{
    match target {
        Target::Domain(name, port) => {
            let bytes = name.as_str().as_bytes();
            if bytes.len() > 255 {
                return Err(EncodeError::DomainTooLong);
            }
            let mut req: Vec<u8> = Vec::new();
            req.push(SOCKS_VERSION);
            req.push(CMD_CONNECT);
            req.push(0x00);
            req.push(ATYP_DOMAIN);
            req.push(bytes.len() as u8);
            assert(req@ =~= seq![
                SOCKS_VERSION,
                CMD_CONNECT,
                0,
                ATYP_DOMAIN,
                encode_utf8(name@).len() as u8,
            ]);
            push_bytes(&mut req, bytes);
            push_port(&mut req, *port);
            Ok(req)
        },
        _ => Err(EncodeError::NotADomain),
    }
}

// ── The other server's reply ─────────────────────────────────────────────

/// What the bytes of a reply amount to so far.
#[derive(Debug, Clone, Copy, PartialEq, Eq, Structural)]
pub enum Reply {
    /// This many bytes have to be read before anything can be said.
    Need(usize),
    /// The bound address is of a kind that is not known.
    BadAddressType(u8),
    /// The whole reply is there and carries a code other than success.
    Failed(u8),
    /// The whole reply is there and reports success; it has this many bytes.
    Connected(usize),
}

/// How long a reply is, once its fifth byte is there, or its address type
/// makes the length known without it.
pub open spec fn reply_len(buf: Seq<u8>) -> int {
    if buf[3] == ATYP_IPV4 {
        10
    } else if buf[3] == ATYP_IPV6 {
        22
    } else {
        7 + buf[4]
    }
}

/// The reading of a reply. The code is looked at only when the whole reply
/// has been read.
pub open spec fn reply_of(buf: Seq<u8>) -> Reply {
    if buf.len() < 4 {
        Reply::Need((4 - buf.len()) as usize)
    } else if buf[3] != ATYP_IPV4 && buf[3] != ATYP_IPV6 && buf[3] != ATYP_DOMAIN {
        Reply::BadAddressType(buf[3])
    } else if buf[3] == ATYP_DOMAIN && buf.len() == 4 {
        Reply::Need(1)
    } else if buf.len() < reply_len(buf) {
        Reply::Need((reply_len(buf) - buf.len()) as usize)
    } else if buf[1] != REP_SUCCESS {
        Reply::Failed(buf[1])
    } else {
        Reply::Connected(reply_len(buf) as usize)
    }
}

/// Reads a server's reply to CONNECT from the bytes that have arrived.
pub fn connect_reply(buf: &Vec<u8>) -> (r: Reply)
    ensures
        r == reply_of(buf@),
{
    if buf.len() < 4 {
        return Reply::Need(4 - buf.len());
    }
    let atyp: u8 = buf[3];
    if atyp != ATYP_IPV4 && atyp != ATYP_IPV6 && atyp != ATYP_DOMAIN {
        return Reply::BadAddressType(atyp);
    }
    if atyp == ATYP_DOMAIN && buf.len() == 4 {
        return Reply::Need(1);
    }
    let len: usize = if atyp == ATYP_IPV4 {
        10
    } else if atyp == ATYP_IPV6 {
        22
    } else {
        7 + buf[4] as usize
    };
    if buf.len() < len {
        return Reply::Need(len - buf.len());
    }
    if buf[1] != REP_SUCCESS {
        return Reply::Failed(buf[1]);
    }
    Reply::Connected(len)
}

// ── The handshake with another server ────────────────────────────────────

/// How far a handshake has come.
#[derive(Debug, Clone, Copy, PartialEq, Eq, Structural)]
pub enum Stage {
    /// Nothing has been sent.
    Start,
    /// The greeting has been sent; its answer is being read.
    Greeted,
    /// The request has been sent; its answer is being read.
    Requested,
    /// Nothing is left to do.
    Over,
}

/// Why a handshake failed.
#[derive(Debug, Clone, Copy, PartialEq, Eq, Structural)]
pub enum HandshakeError {
    /// The greeting was answered with these two bytes.
    Greeting(u8, u8),
    /// The destination is not a name.
    NotADomain,
    /// The name does not fit the request.
    DomainTooLong,
    /// The reply's bound address is of this unknown kind.
    BadAddressType(u8),
    /// The reply carried this code.
    Refused(u8),
}

/// What has to be done next.
#[derive(Debug)]
pub enum Step {
    /// Send these bytes, then ask again.
    Send(Vec<u8>),
    /// Read exactly this many bytes, then ask again with them.
    Read(usize),
    /// The tunnel stands; this is the server's reply.
    Connected(Vec<u8>),
    /// There is no tunnel.
    Failed(HandshakeError),
}

/// A step by its contents.
pub enum StepView {
    Send(Seq<u8>),
    Read(int),
    Connected(Seq<u8>),
    Failed(HandshakeError),
}

impl View for Step {
    type V = StepView;

    open spec fn view(&self) -> StepView {
        match self {
            Step::Send(b) => StepView::Send(b@),
            Step::Read(n) => StepView::Read(*n as int),
            Step::Connected(b) => StepView::Connected(b@),
            Step::Failed(e) => StepView::Failed(*e),
        }
    }
}

/// A SOCKS5 handshake as the connecting side: greet, ask for the
/// destination, wait for the reply.
pub struct Handshake {
    target: Target,
    stage: Stage,
    buf: Vec<u8>,
}

/// A handshake by its contents.
pub struct HandshakeView {
    pub target: TargetView,
    pub stage: Stage,
    pub buf: Seq<u8>,
}

impl View for Handshake {
    type V = HandshakeView;

    closed spec fn view(&self) -> HandshakeView {
        HandshakeView { target: self.target@, stage: self.stage, buf: self.buf@ }
    }
}

/// What a handshake is exchanging with the other server.
#[derive(Debug, Clone, Copy, PartialEq, Eq, Structural)]
pub enum Exchange {
    /// The greeting is being sent.
    Greeting,
    /// The answer to the greeting is being read.
    GreetingAnswer,
    /// The request is being sent.
    Request,
    /// The head of the reply is being read.
    ReplyHead,
    /// The length of the name in the reply is being read.
    ReplyNameLength,
    /// The rest of the reply is being read.
    ReplyAddress,
}

/// What is being exchanged after a turn that asked for bytes to be sent
/// (`sending`) or read.
pub open spec fn exchange_of(h: HandshakeView, sending: bool) -> Exchange {
    match h.stage {
        Stage::Start | Stage::Greeted => if sending {
            Exchange::Greeting
        } else {
            Exchange::GreetingAnswer
        },
        Stage::Requested | Stage::Over => if sending {
            Exchange::Request
        } else if h.buf.len() < 4 {
            Exchange::ReplyHead
        } else if h.buf.len() == 4 && h.buf[3] == ATYP_DOMAIN {
            Exchange::ReplyNameLength
        } else {
            Exchange::ReplyAddress
        },
    }
}

/// The greeting of the connecting side: one method, no authentication.
pub open spec fn greeting_bytes() -> Seq<u8> {
    seq![SOCKS_VERSION, 1, AUTH_NONE]
}

/// What follows once the greeting has been answered with `a` and `b`.
pub open spec fn after_greeting(target: TargetView, a: u8, b: u8) -> StepView {
    if a != SOCKS_VERSION || b != AUTH_NONE {
        StepView::Failed(HandshakeError::Greeting(a, b))
    } else {
        match connect_request_of(target) {
            Ok(bytes) => StepView::Send(bytes),
            Err(EncodeError::NotADomain) => StepView::Failed(HandshakeError::NotADomain),
            Err(EncodeError::DomainTooLong) => StepView::Failed(HandshakeError::DomainTooLong),
        }
    }
}

/// What follows from the bytes of the reply.
pub open spec fn after_reply(buf: Seq<u8>) -> StepView {
    match reply_of(buf) {
        Reply::Need(n) => StepView::Read(n as int),
        Reply::BadAddressType(a) => StepView::Failed(HandshakeError::BadAddressType(a)),
        Reply::Failed(rep) => StepView::Failed(HandshakeError::Refused(rep)),
        Reply::Connected(len) => StepView::Connected(buf.take(len as int)),
    }
}

/// One turn of the handshake: the bytes that have just arrived lead to the
/// next step and to the state after it.
pub open spec fn handshake_turn(h: HandshakeView, received: Seq<u8>) -> (HandshakeView, StepView) {
    let buf = h.buf + received;
    match h.stage {
        Stage::Start => (
            HandshakeView { stage: Stage::Greeted, buf: Seq::empty(), ..h },
            StepView::Send(greeting_bytes()),
        ),
        Stage::Greeted => if buf.len() < 2 {
            (HandshakeView { buf, ..h }, StepView::Read(2 - buf.len()))
        } else {
            let step = after_greeting(h.target, buf[0], buf[1]);
            let stage = if step is Send {
                Stage::Requested
            } else {
                Stage::Over
            };
            (HandshakeView { stage, buf: Seq::empty(), ..h }, step)
        },
        Stage::Requested => {
            let step = after_reply(buf);
            let stage = if step is Read {
                Stage::Requested
            } else {
                Stage::Over
            };
            (HandshakeView { stage, buf, ..h }, step)
        },
        Stage::Over => (HandshakeView { buf, ..h }, StepView::Read(0)),
    }
}

impl Handshake {
    /// A handshake that will ask for `target`.
    pub fn new(target: Target) -> (r: Handshake)
        ensures
            r@ == (HandshakeView { target: target@, stage: Stage::Start, buf: Seq::empty() }),
    {
        let r = Handshake { target, stage: Stage::Start, buf: Vec::new() };
        assert(r.buf@ =~= Seq::empty());
        r
    }

    /// What is being exchanged after a turn that asked for bytes to be sent
    /// (`sending`) or read.
    pub fn exchange(&self, sending: bool) -> (r: Exchange)
        ensures
            r == exchange_of(self@, sending),
    {
        match self.stage {
            Stage::Start | Stage::Greeted => if sending {
                Exchange::Greeting
            } else {
                Exchange::GreetingAnswer
            },
            Stage::Requested | Stage::Over => if sending {
                Exchange::Request
            } else if self.buf.len() < 4 {
                Exchange::ReplyHead
            } else if self.buf.len() == 4 && self.buf[3] == ATYP_DOMAIN {
                Exchange::ReplyNameLength
            } else {
                Exchange::ReplyAddress
            },
        }
    }

    /// Takes the bytes that were read since the last turn and says what to do
    /// next.
    pub fn turn(&mut self, received: &Vec<u8>) -> (step: Step)
        ensures
            (final(self)@, step@) == handshake_turn(old(self)@, received@),
    {
        match self.stage {
            Stage::Start => {
                self.stage = Stage::Greeted;
                self.buf = Vec::new();
                let hello: Vec<u8> = vec![SOCKS_VERSION, 0x01, AUTH_NONE];
                assert(hello@ =~= greeting_bytes());
                assert(self.buf@ =~= Seq::empty());
                Step::Send(hello)
            },
            Stage::Greeted => {
                push_bytes(&mut self.buf, received.as_slice());
                if self.buf.len() < 2 {
                    return Step::Read(2 - self.buf.len());
                }
                let a: u8 = self.buf[0];
                let b: u8 = self.buf[1];
                self.stage = Stage::Over;
                self.buf = Vec::new();
                assert(self.buf@ =~= Seq::empty());
                if a != SOCKS_VERSION || b != AUTH_NONE {
                    return Step::Failed(HandshakeError::Greeting(a, b));
                }
                match connect_request(&self.target) {
                    Ok(bytes) => {
                        self.stage = Stage::Requested;
                        Step::Send(bytes)
                    },
                    Err(EncodeError::NotADomain) => Step::Failed(HandshakeError::NotADomain),
                    Err(EncodeError::DomainTooLong) => Step::Failed(HandshakeError::DomainTooLong),
                }
            },
            Stage::Requested => {
                push_bytes(&mut self.buf, received.as_slice());
                let reply = connect_reply(&self.buf);
                match reply {
                    Reply::Need(n) => Step::Read(n),
                    Reply::BadAddressType(a) => {
                        self.stage = Stage::Over;
                        Step::Failed(HandshakeError::BadAddressType(a))
                    },
                    Reply::Failed(rep) => {
                        self.stage = Stage::Over;
                        Step::Failed(HandshakeError::Refused(rep))
                    },
                    Reply::Connected(len) => {
                        self.stage = Stage::Over;
                        let bytes = crate::text::copy_range(&self.buf, 0, len);
                        assert(self.buf@.take(len as int) == self.buf@.subrange(0, len as int));
                        Step::Connected(bytes)
                    },
                }
            },
            Stage::Over => {
                push_bytes(&mut self.buf, received.as_slice());
                Step::Read(0)
            },
        }
    }
}

// ── Laws ─────────────────────────────────────────────────────────────────

/// Two bytes and the number they denote determine each other.
proof fn lemma_be16(n: u16)
    ensures
        from_be16(be16(n)[0], be16(n)[1]) == n,
{
}

/// A request that a client encodes is read back as the destination it was
/// made for.
pub proof fn law_request_round_trip(t: TargetView)
    requires
        t.fits(),
    ensures
        request_of(request_bytes(t)) == RequestView::Complete(t),
{
    let bytes = request_bytes(t);
    match t {
        TargetView::Ipv4(ip, port) => {
            lemma_be16(port);
            assert(bytes.subrange(4, 8) =~= ip);
        },
        TargetView::Ipv6(ip, port) => {
            lemma_be16(port);
            assert(bytes.subrange(4, 20) =~= ip);
        },
        TargetView::Domain(name, port) => {
            lemma_be16(port);
            let raw = encode_utf8(name);
            assert(bytes.subrange(5, 5 + raw.len() as int) =~= raw);
            encode_utf8_valid_utf8(name);
            encode_utf8_decode_utf8(name);
        },
    }
}

/// While a request is incomplete, what is asked for is at least one byte and
/// nothing beyond the request's end.
pub proof fn law_request_reads_no_further(t: TargetView, k: int)
    requires
        t.fits(),
        0 <= k < request_bytes(t).len(),
    ensures
        request_of(request_bytes(t).take(k)) matches RequestView::Need(n) && 1 <= n
            <= request_bytes(t).len() - k,
{
    let part = request_bytes(t).take(k);
    match t {
        TargetView::Domain(name, port) => {
            let raw = encode_utf8(name);
            encode_utf8_valid_utf8(name);
            if k >= 5 + raw.len() {
                assert(part.subrange(5, 5 + raw.len() as int) =~= raw);
            }
        },
        _ => {},
    }
}

/// While a greeting is incomplete, what is asked for is at least one byte and
/// nothing beyond the greeting's end.
pub proof fn law_greeting_reads_no_further(methods: Seq<u8>, k: int)
    requires
        methods.len() <= 255,
        0 <= k < 2 + methods.len(),
    ensures
        greeting_of((seq![SOCKS_VERSION, methods.len() as u8] + methods).take(k)) matches
            Greeting::Need(n) && 1 <= n <= 2 + methods.len() - k,
{
}

/// A greeting that is there to its last byte is answered, and it is accepted
/// exactly if it offers to go without authentication.
pub proof fn law_greeting_is_answered(methods: Seq<u8>)
    requires
        methods.len() <= 255,
    ensures
        greeting_of(seq![SOCKS_VERSION, methods.len() as u8] + methods) == if methods.contains(
            AUTH_NONE,
        ) {
            Greeting::Accepted
        } else {
            Greeting::NoMethod
        },
{
    let hello = seq![SOCKS_VERSION, methods.len() as u8] + methods;
    assert(hello.subrange(2, 2 + methods.len() as int) =~= methods);
}

/// While a server's reply is incomplete, what is asked for is at least one
/// byte and nothing beyond the reply's end.
pub proof fn law_reply_reads_no_further(reply: Seq<u8>, k: int)
    requires
        match reply_of(reply) {
            Reply::Connected(n) => n == reply.len(),
            Reply::Failed(_) => reply_len(reply) == reply.len(),
            _ => false,
        },
        0 <= k < reply.len(),
    ensures
        reply_of(reply.take(k)) matches Reply::Need(n) && 1 <= n <= reply.len() - k,
{
}

/// The reply to a successful direct connection is understood by the
/// connecting side: it is read as success, to its last byte.
pub proof fn law_bound_reply_is_success(at: Endpoint)
    ensures
        reply_of(bound_reply_bytes(REP_SUCCESS, at)) == Reply::Connected(
            bound_reply_bytes(REP_SUCCESS, at).len() as usize,
        ),
{
}

/// An error reply is understood by the connecting side as a failure with the
/// code that was sent.
pub proof fn law_error_reply_is_failure(rep: u8)
    requires
        rep != REP_SUCCESS,
    ensures
        reply_of(reply_bytes(rep)) == Reply::Failed(rep),
{
}

/// A named destination goes to the other server as a name, and the server's
/// reading of the request is that very destination.
pub proof fn law_names_are_resolved_remotely(name: Seq<char>, port: u16)
    requires
        1 <= encode_utf8(name).len() <= 255,
    ensures
        connect_request_of(TargetView::Domain(name, port)) matches Ok(bytes) && bytes[3]
            == ATYP_DOMAIN && request_of(bytes) == RequestView::Complete(
            TargetView::Domain(name, port),
        ),
{
    law_request_round_trip(TargetView::Domain(name, port));
}

/// Against a server that accepts the greeting and answers the request with
/// `reply`, whole and successful, the handshake sends the greeting and the
/// request, reads both answers to their last byte, and ends with the reply.
pub proof fn law_handshake_connects(name: Seq<char>, port: u16, reply: Seq<u8>)
    requires
        1 <= encode_utf8(name).len() <= 255,
        reply_of(reply) matches Reply::Connected(n) && n == reply.len(),
    ensures
        ({
            let t = TargetView::Domain(name, port);
            let h0 = HandshakeView { target: t, stage: Stage::Start, buf: Seq::empty() };
            let (h1, s1) = handshake_turn(h0, Seq::empty());
            let (h2, s2) = handshake_turn(h1, Seq::empty());
            let (h3, s3) = handshake_turn(h2, seq![SOCKS_VERSION, AUTH_NONE]);
            let (h4, s4) = handshake_turn(h3, Seq::empty());
            let (h5, s5) = handshake_turn(h4, reply);
            &&& s1 == StepView::Send(greeting_bytes())
            &&& s2 == StepView::Read(2)
            &&& s3 == StepView::Send(request_bytes(t))
            &&& s4 == StepView::Read(4)
            &&& s5 == StepView::Connected(reply)
            &&& h5.stage == Stage::Over
        }),
{
    let t = TargetView::Domain(name, port);
    let h0 = HandshakeView { target: t, stage: Stage::Start, buf: Seq::empty() };
    let (h1, s1) = handshake_turn(h0, Seq::empty());
    let e = Seq::<u8>::empty();
    assert(e + e =~= e);
    let (h2, s2) = handshake_turn(h1, e);
    let ok = seq![SOCKS_VERSION, AUTH_NONE];
    assert(e + ok =~= ok);
    let (h3, s3) = handshake_turn(h2, ok);
    let (h4, s4) = handshake_turn(h3, e);
    assert(e + reply =~= reply);
    assert(reply.take(reply.len() as int) =~= reply);
    let (h5, s5) = handshake_turn(h4, reply);
}

/// A handshake in progress asks for at least one byte, or goes on to its next
/// stage; for a named destination it never fails for want of a name.
pub proof fn law_handshake_makes_progress(h: HandshakeView, received: Seq<u8>)
    requires
        h.stage != Stage::Over,
    ensures
        ({
            let (after, step) = handshake_turn(h, received);
            &&& after.target == h.target
            &&& match step {
                StepView::Read(n) => n >= 1 && after.stage == h.stage,
                StepView::Send(_) => after.stage != h.stage && after.stage != Stage::Over,
                StepView::Connected(_) => h.stage == Stage::Requested && after.stage
                    == Stage::Over,
                StepView::Failed(e) => after.stage == Stage::Over && (h.target is Domain ==> e
                    != HandshakeError::NotADomain),
            }
        }),
{
}

/// The bytes of a request, one by one: version five, CONNECT, a zero, the kind
/// of address, the address itself (a name with its length before it), and the
/// port, the high byte first.
pub proof fn law_request_layout(t: TargetView)
    requires
        t.fits(),
    ensures
        ({
            let b = request_bytes(t);
            let n = b.len() as int;
            &&& b[0] == 5
            &&& b[1] == 1
            &&& b[2] == 0
            &&& match t {
                TargetView::Ipv4(ip, port) => n == 10 && b[3] == 1 && b.subrange(4, 8) == ip
                    && b[n - 2] * 256 + b[n - 1] == port,
                TargetView::Ipv6(ip, port) => n == 22 && b[3] == 4 && b.subrange(4, 20) == ip
                    && b[n - 2] * 256 + b[n - 1] == port,
                TargetView::Domain(name, port) => n == 7 + encode_utf8(name).len() && b[3] == 3
                    && b[4] == encode_utf8(name).len() && b.subrange(5, n - 2) == encode_utf8(name)
                    && b[n - 2] * 256 + b[n - 1] == port,
            }
        }),
{
    let b = request_bytes(t);
    match t {
        TargetView::Ipv4(ip, port) => {
            assert(b.subrange(4, 8) =~= ip);
        },
        TargetView::Ipv6(ip, port) => {
            assert(b.subrange(4, 20) =~= ip);
        },
        TargetView::Domain(name, port) => {
            assert(b.subrange(5, b.len() - 2) =~= encode_utf8(name));
        },
    }
}

/// What a whole request is read as, byte by byte: the address bytes as they
/// are and the port from its two bytes; whatever follows the request plays no
/// part.
pub proof fn law_request_is_read_from_its_bytes(buf: Vec<u8>, r: Request)
    requires
        call_ensures(client_request, (&buf,), r),
    ensures
        r matches Request::Complete(t) ==> {
            &&& buf@[0] == 5 && buf@[1] == 1
            &&& match t {
                Target::Ipv4(ip, port) => buf@[3] == 1 && buf@.len() >= 10 && ip@ == buf@.subrange(
                    4,
                    8,
                ) && port == buf@[8] * 256 + buf@[9],
                Target::Ipv6(ip, port) => buf@[3] == 4 && buf@.len() >= 22 && ip@ == buf@.subrange(
                    4,
                    20,
                ) && port == buf@[20] * 256 + buf@[21],
                Target::Domain(name, port) => buf@[3] == 3 && buf@.len() >= 7 + buf@[4] && name@
                    == decode_utf8(buf@.subrange(5, 5 + buf@[4])) && port == buf@[5 + buf@[4]] * 256
                    + buf@[6 + buf@[4]],
            }
        },
        buf@.len() >= 10 && buf@[0] == 5 && buf@[1] == 1 && buf@[3] == 1 ==> r is Complete,
        buf@.len() >= 22 && buf@[0] == 5 && buf@[1] == 1 && buf@[3] == 4 ==> r is Complete,
        buf@.len() >= 7 && buf@[0] == 5 && buf@[1] == 1 && buf@[3] == 3 && buf@[4] > 0
            && buf@.len() >= 7 + buf@[4] && valid_utf8(buf@.subrange(5, 5 + buf@[4])) ==> r
            is Complete,
{
}

/// Each fault of a request, and no other thing, has its own refusal.
pub proof fn law_request_faults(buf: Vec<u8>, r: Request)
    requires
        call_ensures(client_request, (&buf,), r),
    ensures
        r == Request::Refused(RequestError::BadVersion) <==> buf@.len() > 0 && buf@[0] != 5,
        r == Request::Refused(RequestError::NotConnect) <==> buf@.len() >= 4 && buf@[0] == 5
            && buf@[1] != 1,
        r == Request::Refused(RequestError::BadAddressType) <==> buf@.len() >= 4 && buf@[0] == 5
            && buf@[1] == 1 && buf@[3] != 1 && buf@[3] != 3 && buf@[3] != 4,
        r == Request::Refused(RequestError::EmptyDomain) <==> buf@.len() >= 5 && buf@[0] == 5
            && buf@[1] == 1 && buf@[3] == 3 && buf@[4] == 0,
        r == Request::Refused(RequestError::DomainNotUtf8) <==> buf@.len() >= 5 && buf@[0] == 5
            && buf@[1] == 1 && buf@[3] == 3 && buf@[4] > 0 && buf@.len() >= 5 + buf@[4]
            && !valid_utf8(buf@.subrange(5, 5 + buf@[4])),
        r matches Request::Need(n) ==> {
            let have = buf@.len();
            &&& have == 0 ==> n == 1
            &&& 0 < have < 4 ==> n == 4 - have
            &&& have >= 4 && buf@[3] == 1 ==> n == 10 - have
            &&& have >= 4 && buf@[3] == 4 ==> n == 22 - have
            &&& have == 4 && buf@[3] == 3 ==> n == 1
            &&& 4 < have && buf@[3] == 3 && have < 5 + buf@[4] ==> n == 5 + buf@[4] - have
            &&& 4 < have && buf@[3] == 3 && have >= 5 + buf@[4] ==> n == 7 + buf@[4] - have
        },
{
}

/// A greeting is accepted only in version five and with zero among the methods
/// that it counts; methods behind those play no part.
pub proof fn law_greeting_is_read_from_its_bytes(buf: Vec<u8>, r: Greeting)
    requires
        call_ensures(client_greeting, (&buf,), r),
    ensures
        r == Greeting::BadVersion <==> buf@.len() > 0 && buf@[0] != 5,
        r is Need <==> buf@.len() == 0 || buf@[0] == 5 && (buf@.len() < 2 || buf@.len() < 2
            + buf@[1]),
        r matches Greeting::Need(n) ==> (buf@.len() < 2 ==> n == 1) && (buf@.len() >= 2 ==> n == 2
            + buf@[1] - buf@.len()),
        r == Greeting::Accepted <==> buf@.len() >= 2 && buf@[0] == 5 && buf@.len() >= 2 + buf@[1]
            && exists|i: int| 2 <= i < 2 + buf@[1] && #[trigger] buf@[i] == 0,
{
    if buf@.len() >= 2 && buf@[0] == 5 && buf@.len() >= 2 + buf@[1] {
        let methods = buf@.subrange(2, 2 + buf@[1]);
        if methods.contains(0u8) {
            let j = choose|j: int| 0 <= j < methods.len() && methods[j] == 0;
            assert(buf@[j + 2] == 0);
        }
        if exists|i: int| 2 <= i < 2 + buf@[1] && #[trigger] buf@[i] == 0 {
            let i = choose|i: int| 2 <= i < 2 + buf@[1] && #[trigger] buf@[i] == 0;
            assert(methods[i - 2] == 0);
        }
    }
}

/// The bytes of the replies: version five, the code, a zero, the kind of
/// address, the address, and the port, the high byte first.
pub proof fn law_reply_layout(rep: u8, at: Endpoint, plain: [u8; 10], bound: Vec<u8>)
    requires
        call_ensures(socks5_reply, (rep,), plain),
        call_ensures(socks5_reply_with_bind, (rep, at), bound),
    ensures
        plain@[0] == 5 && plain@[1] == rep && plain@[2] == 0 && plain@[3] == 1,
        forall|i: int| 4 <= i < 10 ==> #[trigger] plain@[i] == 0,
        bound@[0] == 5 && bound@[1] == rep && bound@[2] == 0,
        match at {
            Endpoint::V4(ip, port) => bound@.len() == 10 && bound@[3] == 1 && bound@.subrange(4, 8)
                == ip@ && bound@[8] * 256 + bound@[9] == port,
            Endpoint::V6(ip, port) => bound@.len() == 22 && bound@[3] == 4 && bound@.subrange(4, 20)
                == ip@ && bound@[20] * 256 + bound@[21] == port,
        },
{
    match at {
        Endpoint::V4(ip, port) => {
            assert(bound@.subrange(4, 8) =~= ip@);
        },
        Endpoint::V6(ip, port) => {
            assert(bound@.subrange(4, 20) =~= ip@);
        },
    }
}

/// Only names are passed on, and only those that fit; the request is then that
/// of the name and the port.
pub proof fn law_only_names_are_passed_on(t: Target, r: Result<Vec<u8>, EncodeError>)
    requires
        call_ensures(connect_request, (&t,), r),
    ensures
        r == Err::<Vec<u8>, EncodeError>(EncodeError::NotADomain) <==> !(t is Domain),
        t matches Target::Domain(name, port) ==> {
            &&& r is Ok <==> encode_utf8(name@).len() <= 255
            &&& r matches Ok(b) ==> {
                &&& b@.len() == 7 + encode_utf8(name@).len()
                &&& b@[0] == 5 && b@[1] == 1 && b@[2] == 0 && b@[3] == 3
                &&& b@[4] == encode_utf8(name@).len()
                &&& b@.subrange(5, b@.len() - 2) == encode_utf8(name@)
                &&& b@[b@.len() - 2] * 256 + b@[b@.len() - 1] == port
            }
        },
{
    if let Target::Domain(name, port) = t {
        if let Ok(b) = r {
            assert(b@.subrange(5, b@.len() - 2) =~= encode_utf8(name@));
        }
    }
}

/// A reply, once it is there to its last byte, is a success exactly if its
/// code is zero, whatever address it carries; any other code is reported as
/// the failure that it is.
pub proof fn law_reply_code_decides(buf: Vec<u8>, len: int, r: Reply)
    requires
        call_ensures(connect_reply, (&buf,), r),
        buf@.len() >= 5,
        buf@[3] == 1 && len == 10 || buf@[3] == 4 && len == 22 || buf@[3] == 3 && len == 7 + buf@[4],
        buf@.len() >= len,
    ensures
        buf@[1] == 0 ==> r == Reply::Connected(len as usize),
        buf@[1] != 0 ==> r == Reply::Failed(buf@[1]),
{
}

/// An unknown kind of address is refused as soon as its byte is there.
pub proof fn law_unknown_address_kind(buf: Vec<u8>, r: Reply)
    requires
        call_ensures(connect_reply, (&buf,), r),
    ensures
        r == Reply::BadAddressType(buf@[3]) <==> buf@.len() >= 4 && buf@[3] != 1 && buf@[3] != 3
            && buf@[3] != 4,
        r matches Reply::Need(n) ==> {
            let have = buf@.len();
            &&& have < 4 ==> n == 4 - have
            &&& have >= 4 && buf@[3] == 1 ==> n == 10 - have
            &&& have >= 4 && buf@[3] == 4 ==> n == 22 - have
            &&& have == 4 && buf@[3] == 3 ==> n == 1
            &&& have > 4 && buf@[3] == 3 ==> n == 7 + buf@[4] - have
        },
        buf@.len() < 4 ==> r is Need,
{
}

/// How the bytes of an answer come in plays no part: where a turn asks for
/// more, going on with the rest leads to what all of it at once leads to.
pub proof fn law_handshake_takes_bytes_piecemeal(h: HandshakeView, a: Seq<u8>, b: Seq<u8>)
    requires
        h.stage == Stage::Greeted || h.stage == Stage::Requested,
        handshake_turn(h, a).1 is Read,
    ensures
        handshake_turn(handshake_turn(h, a).0, b) == handshake_turn(h, a + b),
{
    assert(h.buf + a + b =~= h.buf + (a + b));
}

/// A server that does not go without authentication ends the handshake, and so
/// does one that refuses the request; each is reported with the bytes that it
/// sent.
pub proof fn law_handshake_reports_refusals(h: HandshakeView, a: u8, b: u8, reply: Seq<u8>)
    requires
        h.buf.len() == 0,
    ensures
        h.stage == Stage::Greeted && !(a == 5 && b == 0) ==> handshake_turn(h, seq![a, b]).1
            == StepView::Failed(HandshakeError::Greeting(a, b)),
        h.stage == Stage::Requested && reply.len() >= 10 && reply[3] == 1 && reply[1] != 0
            ==> handshake_turn(h, reply).1 == StepView::Failed(HandshakeError::Refused(reply[1])),
        h.stage == Stage::Requested && reply.len() >= 4 && reply[3] != 1 && reply[3] != 3
            && reply[3] != 4 ==> handshake_turn(h, reply).1 == StepView::Failed(
            HandshakeError::BadAddressType(reply[3]),
        ),
{
    assert(h.buf + seq![a, b] =~= seq![a, b]);
    assert(h.buf + reply =~= reply);
}

/// What an exchange is called tells where a handshake stands.
pub proof fn law_exchanges_are_named(h: Handshake, sending: bool, r: Exchange)
    requires
        call_ensures(Handshake::exchange, (&h, sending), r),
    ensures
        r == Exchange::Greeting || r == Exchange::Request <==> sending,
        h@.stage == Stage::Greeted ==> r == Exchange::Greeting || r == Exchange::GreetingAnswer,
        h@.stage == Stage::Requested ==> r != Exchange::Greeting && r != Exchange::GreetingAnswer,
        h@.stage == Stage::Requested && !sending ==> {
            &&& r == Exchange::ReplyHead <==> h@.buf.len() < 4
            &&& r == Exchange::ReplyNameLength <==> h@.buf.len() == 4 && h@.buf[3] == 3
        },
{
}

/// What the program does at each turn is what the laws of the handshake speak
/// of.
pub proof fn law_handshakes_are_the_laws(
    h: &mut Handshake,
    received: Vec<u8>,
    step: Step,
    target: Target,
    fresh: Handshake,
)
    requires
        call_ensures(Handshake::turn, (h, &received), step),
        call_ensures(Handshake::new, (target,), fresh),
    ensures
        final(h)@ == handshake_turn(old(h)@, received@).0,
        step@ == handshake_turn(old(h)@, received@).1,
        fresh@.target == target@ && fresh@.stage == Stage::Start && fresh@.buf.len() == 0,
        old(h)@.stage == Stage::Start ==> step@ == StepView::Send(seq![5u8, 1u8, 0u8]),
{
}

} // verus!
