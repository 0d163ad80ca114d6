//! The routing proxy: which way a destination is reached, and what a client
//! is told on the way there.
//!
//! - Direct domains, checked first, are reached directly.
//! - Proxy domains go to the upstream SOCKS5 server as names, so that they
//!   are resolved at the far end of the VPN.
//! - Raw addresses and everything else are reached directly.
use vstd::prelude::*;
use vstd::string::*;
use vstd::utf8::*;

use crate::config::{
    direct_domains, direct_list, proxy_domains, proxy_list, route_label_for_host,
};
use crate::config_file::FileConfig;
use crate::domains::{any_match, goes_through_tunnel, is_tunnelled, is_within, lemma_lists};
use crate::http_connect::{
    bad_gateway_answer, bad_gateway_text, connect_line, established_answer, established_text,
    gap_from, group_bytes, group_of, hex_number, host_target, http_request, http_request_of,
    ipv4_of, ipv6_of, is_hex, law_connect_line_is_read, law_first_line_decides, octet_of,
    part_bytes, refusal_answer, refusal_message, refusal_reason, refusal_text, unbracketed,
    HttpRefusal, HttpRequest, HttpRequestView,
};
use crate::socks::{
    after_greeting, be16, bound_reply_bytes, client_greeting, client_request, greeting_bytes, greeting_of,
    law_greeting_is_answered, law_request_round_trip, push_bytes, reply_bytes, reply_of, request_bytes, request_of,
    socks5_reply, socks5_reply_with_bind, Endpoint, Greeting, HandshakeError, Reply, Request,
    RequestError, RequestView, StepView, Target, TargetView, AUTH_NONE, AUTH_UNACCEPTABLE,
    REP_ATYP_NOT_SUPPORTED, REP_CMD_NOT_SUPPORTED, REP_CONN_REFUSED, REP_GENERAL_FAILURE,
    REP_HOST_UNREACHABLE, REP_NET_UNREACHABLE, REP_SUCCESS, SOCKS_VERSION,
};
use crate::text::{
    decimal, decimal_of, finishes_with, hex_pair, hex_pair_of, hexadecimal, hexadecimal_of, is_digit,
    joined, law_joined_texts_are_split_again, law_joining, law_pieces_make_up_the_text, lemma_decimal_digits,
    lemma_more_pieces, lemma_one_piece, lemma_port_round_trip, pieces,
};

verus! {

// ── The way to a destination ─────────────────────────────────────────────

/// How a destination is reached.
#[derive(Debug, Clone, Copy, PartialEq, Eq, Structural)]
pub enum Route {
    Direct,
    Upstream,
}

/// The route to a destination: upstream for a name that the lists tunnel,
/// direct for anything else.
pub open spec fn route_of(
    t: TargetView,
    direct: Seq<Seq<char>>,
    proxy: Seq<Seq<char>>,
) -> Route {
    match t {
        TargetView::Domain(name, _) if is_tunnelled(name, direct, proxy) => Route::Upstream,
        _ => Route::Direct,
    }
}

/// Decides how to reach `target`.
pub fn route_for(cfg: &FileConfig, target: &Target) -> (r: Route)
    ensures
        r == route_of(target@, direct_list(*cfg), proxy_list(*cfg)),
{
    match target {
        Target::Ipv4(..) | Target::Ipv6(..) => Route::Direct,
        Target::Domain(hostname, _) => if goes_through_tunnel(
            hostname.as_str(),
            &direct_domains(cfg),
            &proxy_domains(cfg),
        ) {
            Route::Upstream
        } else {
            Route::Direct
        },
    }
}

// ── Destinations as text ─────────────────────────────────────────────────

/// Four octets with dots between them.
pub open spec fn dotted(ip: Seq<u8>) -> Seq<char> {
    decimal(ip[0] as nat) + "."@ + decimal(ip[1] as nat) + "."@ + decimal(ip[2] as nat) + "."@
        + decimal(ip[3] as nat)
}

/// The eight sixteen-bit groups of an IPv6 address.
pub open spec fn groups(ip: Seq<u8>) -> Seq<u16> {
    Seq::new(8, |i: int| (ip[2 * i] * 256 + ip[2 * i + 1]) as u16)
}

/// How many groups from `at` on are zero without a break.
pub open spec fn zeros_from(g: Seq<u16>, at: int) -> int
    decreases g.len() - at,
{
    if 0 <= at < g.len() && g[at] == 0 {
        1 + zeros_from(g, at + 1)
    } else {
        0
    }
}

/// Among the first `upto` positions the first one with the longest row of
/// zeros from it on.
pub open spec fn longest_zeros(g: Seq<u16>, upto: int) -> int
    decreases upto,
{
    if upto <= 1 {
        0
    } else {
        let best = longest_zeros(g, upto - 1);
        if zeros_from(g, upto - 1) > zeros_from(g, best) {
            upto - 1
        } else {
            best
        }
    }
}

/// Groups in hexadecimal with colons between them.
pub open spec fn hex_groups(g: Seq<u16>) -> Seq<char> {
    joined(g.map_values(|n: u16| hexadecimal(n as nat)), ":"@)
}

/// An address that maps an IPv4 address: ten zero bytes, then two of ones.
pub open spec fn maps_v4(ip: Seq<u8>) -> bool {
    &&& forall|i: int| 0 <= i < 10 ==> ip[i] == 0
    &&& ip[10] == 0xff
    &&& ip[11] == 0xff
}

/// The text form of an IPv6 address: a mapped IPv4 address in dotted form,
/// else hexadecimal groups, of which the first longest row of two or more
/// zeros is left out.
pub open spec fn ipv6_text(ip: Seq<u8>) -> Seq<char> {
    let g = groups(ip);
    let at = longest_zeros(g, 8);
    let len = zeros_from(g, at);
    if maps_v4(ip) {
        "::ffff:"@ + dotted(ip.subrange(12, 16))
    } else if len > 1 {
        hex_groups(g.take(at)) + "::"@ + hex_groups(g.skip(at + len))
    } else {
        hex_groups(g)
    }
}

/// A destination as `host:port`, with brackets round an IPv6 address.
pub open spec fn target_text(t: TargetView) -> Seq<char> {
    match t {
        TargetView::Ipv4(ip, port) => dotted(ip) + ":"@ + decimal(port as nat),
        TargetView::Ipv6(ip, port) => "["@ + ipv6_text(ip) + "]:"@ + decimal(port as nat),
        TargetView::Domain(name, port) => name + ":"@ + decimal(port as nat),
    }
}

fn push_dotted(out: &mut String, a: u8, b: u8, c: u8, d: u8)
    ensures
        final(out)@ == old(out)@ + dotted(seq![a, b, c, d]),
{
    out.append(decimal_of(a as u128).as_str());
    out.append(".");
    out.append(decimal_of(b as u128).as_str());
    out.append(".");
    out.append(decimal_of(c as u128).as_str());
    out.append(".");
    out.append(decimal_of(d as u128).as_str());
    assert(out@ =~= old(out)@ + dotted(seq![a, b, c, d]));
}

fn push_groups(out: &mut String, g: &Vec<u16>, from: usize, to: usize)
    requires
        from <= to <= g@.len(),
    ensures
        final(out)@ == old(out)@ + hex_groups(g@.subrange(from as int, to as int)),
{
    let ghost f = |n: u16| hexadecimal(n as nat);
    let ghost all = g@.subrange(from as int, to as int).map_values(f);
    let mut i: usize = from;
    assert(out@ =~= old(out)@ + joined(all.take(0), ":"@));
    while i < to
        invariant
            from <= i <= to <= g@.len(),
            f == (|n: u16| hexadecimal(n as nat)),
            all == g@.subrange(from as int, to as int).map_values(f),
            out@ == old(out)@ + joined(all.take(i - from), ":"@),
        decreases to - i,
    {
        if i > from {
            out.append(":");
        }
        out.append(hexadecimal_of(g[i]).as_str());
        assert(all.take(i + 1 - from).drop_last() == all.take(i - from));
        assert(all[i - from] == hexadecimal(g@[i as int] as nat));
        assert(out@ =~= old(out)@ + joined(all.take(i + 1 - from), ":"@));
        i = i + 1;
    }
    assert(all.take(to - from) == all);
}

fn count_zeros(g: &Vec<u16>, at: usize) -> (r: usize)
    requires
        at <= g@.len(),
    ensures
        r == zeros_from(g@, at as int),
        at + r <= g@.len(),
    decreases g@.len() - at,
{
    if at < g.len() && g[at] == 0 {
        1 + count_zeros(g, at + 1)
    } else {
        0
    }
}

fn push_ipv6(out: &mut String, ip: &[u8; 16])
    ensures
        final(out)@ == old(out)@ + ipv6_text(ip@),
{
    let mut mapped: bool = ip[10] == 0xff && ip[11] == 0xff;
    let mut i: usize = 0;
    while i < 10
        invariant
            i <= 10,
            mapped == (ip@[10] == 0xff && ip@[11] == 0xff && forall|j: int|
                0 <= j < i ==> ip@[j] == 0),
        decreases 10 - i,
    {
        mapped = mapped && ip[i] == 0;
        i = i + 1;
    }
    if mapped {
        out.append("::ffff:");
        push_dotted(out, ip[12], ip[13], ip[14], ip[15]);
        assert(seq![ip@[12], ip@[13], ip@[14], ip@[15]] =~= ip@.subrange(12, 16));
        assert(out@ =~= old(out)@ + ipv6_text(ip@));
        return;
    }
    let mut g: Vec<u16> = Vec::new();
    let mut k: usize = 0;
    while k < 8
        invariant
            k <= 8,
            g@ == groups(ip@).take(k as int),
        decreases 8 - k,
    {
        g.push(ip[2 * k] as u16 * 256 + ip[2 * k + 1] as u16);
        k = k + 1;
        assert(g@ =~= groups(ip@).take(k as int));
    }
    assert(g@ =~= groups(ip@));
    let mut at: usize = 0;
    let mut len: usize = count_zeros(&g, 0);
    let mut j: usize = 1;
    while j < 8
        invariant
            1 <= j <= 8,
            g@.len() == 8,
            at == longest_zeros(g@, j as int),
            len == zeros_from(g@, at as int),
            at + len <= 8,
        decreases 8 - j,
    {
        let here: usize = count_zeros(&g, j);
        if here > len {
            at = j;
            len = here;
        }
        j = j + 1;
    }
    if len > 1 {
        push_groups(out, &g, 0, at);
        out.append("::");
        push_groups(out, &g, at + len, 8);
        assert(g@.subrange(0, at as int) =~= g@.take(at as int));
        assert(g@.subrange(at + len, 8) =~= g@.skip(at + len));
    } else {
        push_groups(out, &g, 0, 8);
        assert(g@.subrange(0, 8) =~= g@);
    }
    assert(out@ =~= old(out)@ + ipv6_text(ip@));
}

impl Target {
    /// The destination as `host:port`.
    pub fn to_text(&self) -> (r: String)
        ensures
            r@ == target_text(self@),
    {
        let mut out = String::new();
        match self {
            Target::Ipv4(ip, port) => {
                push_dotted(&mut out, ip[0], ip[1], ip[2], ip[3]);
                assert(seq![ip@[0], ip@[1], ip@[2], ip@[3]] =~= ip@);
                out.append(":");
                out.append(decimal_of(*port as u128).as_str());
            },
            Target::Ipv6(ip, port) => {
                out.append("[");
                push_ipv6(&mut out, ip);
                out.append("]:");
                out.append(decimal_of(*port as u128).as_str());
            },
            Target::Domain(name, port) => {
                out.append(name.as_str());
                out.append(":");
                out.append(decimal_of(*port as u128).as_str());
            },
        }
        assert(out@ =~= target_text(self@));
        out
    }
}

// ── Failure codes ────────────────────────────────────────────────────────

/// The kinds of connection failure that clients can tell apart.
#[derive(Debug, Clone, Copy, PartialEq, Eq, Structural)]
pub enum IoErrorKind {
    ConnectionRefused,
    AddrNotAvailable,
    ConnectionReset,
    TimedOut,
    Other,
}

/// The reply code for a failed connection. The operating system's number is
/// asked only where the kind says nothing; 101 and 51 are `ENETUNREACH` on
/// Linux and on macOS.
pub open spec fn failure_code(kind: IoErrorKind, raw_os_error: Option<i32>) -> u8 {
    match kind {
        IoErrorKind::ConnectionRefused => REP_CONN_REFUSED,
        IoErrorKind::AddrNotAvailable | IoErrorKind::ConnectionReset
        | IoErrorKind::TimedOut => REP_HOST_UNREACHABLE,
        IoErrorKind::Other => if raw_os_error == Some(101i32) || raw_os_error == Some(51i32) {
            REP_NET_UNREACHABLE
        } else {
            REP_GENERAL_FAILURE
        },
    }
}

/// The reply code for a failed connection.
pub fn rep_for_io_error(kind: IoErrorKind, raw_os_error: Option<i32>) -> (r: u8)
    ensures
        r == failure_code(kind, raw_os_error),
{
    match kind {
        IoErrorKind::ConnectionRefused => REP_CONN_REFUSED,
        IoErrorKind::AddrNotAvailable | IoErrorKind::ConnectionReset
        | IoErrorKind::TimedOut => REP_HOST_UNREACHABLE,
        IoErrorKind::Other => {
            if let Some(raw) = raw_os_error {
                if raw == 101 || raw == 51 {
                    return REP_NET_UNREACHABLE;
                }
            }
            REP_GENERAL_FAILURE
        },
    }
}

// ── A client's session ───────────────────────────────────────────────────

/// The protocol that a client speaks.
#[derive(Debug, Clone, Copy, PartialEq, Eq, Structural)]
pub enum Protocol {
    Socks5,
    HttpConnect,
}

/// How far a client's session has come.
#[derive(Debug, Clone, Copy, PartialEq, Eq, Structural)]
pub enum ClientStage {
    /// The protocol is being told and the greeting read.
    Opening,
    /// The greeting has been answered; the SOCKS5 request is being read.
    Request,
    /// The head of an HTTP request is being read.
    HttpHead,
    /// Nothing is left to read.
    Over,
}

/// What has to be done next for a client.
pub enum ClientStep {
    /// Read exactly this many bytes, then ask again with them.
    Read(usize),
    /// Send these bytes, then ask again.
    Write(Vec<u8>),
    /// Send these bytes, if any, and close, for the reason given.
    Refuse(Vec<u8>, &'static str),
    /// Connect to the destination by the route given.
    Dial(Target, Route, Protocol),
}

/// A step by its contents.
pub enum ClientStepView {
    Read(int),
    Write(Seq<u8>),
    Refuse(Seq<u8>, Seq<char>),
    Dial(TargetView, Route, Protocol),
}

impl View for ClientStep {
    type V = ClientStepView;

    open spec fn view(&self) -> ClientStepView {
        match self {
            ClientStep::Read(n) => ClientStepView::Read(*n as int),
            ClientStep::Write(b) => ClientStepView::Write(b@),
            ClientStep::Refuse(b, why) => ClientStepView::Refuse(b@, why@),
            ClientStep::Dial(t, route, protocol) => ClientStepView::Dial(t@, *route, *protocol),
        }
    }
}

/// The serving side of a client's connection, up to the point where its
/// destination is known.
pub struct ClientSession {
    stage: ClientStage,
    buf: Vec<u8>,
}

/// A session by its contents.
pub struct ClientSessionView {
    pub stage: ClientStage,
    pub buf: Seq<u8>,
}

impl View for ClientSession {
    type V = ClientSessionView;

    closed spec fn view(&self) -> ClientSessionView {
        ClientSessionView { stage: self.stage, buf: self.buf@ }
    }
}

/// The bytes with which a SOCKS5 request is turned down, if any, and the
/// reason that is logged.
pub open spec fn request_refusal(e: RequestError) -> (Seq<u8>, Seq<char>) {
    match e {
        RequestError::BadVersion => (
            reply_bytes(REP_GENERAL_FAILURE),
            "bad SOCKS version in request"@,
        ),
        RequestError::NotConnect => (
            reply_bytes(REP_CMD_NOT_SUPPORTED),
            "only CONNECT is supported"@,
        ),
        RequestError::EmptyDomain => (reply_bytes(REP_GENERAL_FAILURE), "empty domain name"@),
        RequestError::DomainNotUtf8 => (Seq::empty(), "domain name is not valid UTF-8"@),
        RequestError::BadAddressType => (
            reply_bytes(REP_ATYP_NOT_SUPPORTED),
            "unsupported address type"@,
        ),
    }
}

/// The step that an HTTP request head leads to.
pub open spec fn http_step(
    buf: Seq<u8>,
    direct: Seq<Seq<char>>,
    proxy: Seq<Seq<char>>,
) -> ClientStepView {
    match http_request_of(buf) {
        HttpRequestView::Need(n) => ClientStepView::Read(n),
        HttpRequestView::Refused(e) => ClientStepView::Refuse(
            encode_utf8(refusal_text(e)),
            refusal_reason(e),
        ),
        HttpRequestView::Complete(t) => ClientStepView::Dial(
            t,
            route_of(t, direct, proxy),
            Protocol::HttpConnect,
        ),
    }
}

/// The step that a SOCKS5 request leads to.
pub open spec fn socks_step(
    buf: Seq<u8>,
    direct: Seq<Seq<char>>,
    proxy: Seq<Seq<char>>,
) -> ClientStepView {
    match request_of(buf) {
        RequestView::Need(n) => ClientStepView::Read(n),
        RequestView::Refused(e) => ClientStepView::Refuse(
            request_refusal(e).0,
            request_refusal(e).1,
        ),
        RequestView::Complete(t) => ClientStepView::Dial(
            t,
            route_of(t, direct, proxy),
            Protocol::Socks5,
        ),
    }
}

/// The step that a SOCKS5 greeting leads to.
pub open spec fn greeting_step(buf: Seq<u8>) -> ClientStepView {
    match greeting_of(buf) {
        Greeting::Need(n) => ClientStepView::Read(n as int),
        Greeting::BadVersion => ClientStepView::Refuse(
            reply_bytes(REP_GENERAL_FAILURE),
            "unsupported SOCKS version"@,
        ),
        Greeting::NoMethod => ClientStepView::Refuse(
            seq![SOCKS_VERSION, AUTH_UNACCEPTABLE],
            "no acceptable auth method"@,
        ),
        Greeting::Accepted => ClientStepView::Write(seq![SOCKS_VERSION, AUTH_NONE]),
    }
}

/// An HTTP method starts with an ASCII letter.
pub open spec fn is_letter(b: u8) -> bool {
    65 <= b <= 90 || 97 <= b <= 122
}

/// Where a session stands after a step: unless more is to be read, it is
/// over.
pub open spec fn stage_after(stage: ClientStage, step: ClientStepView) -> ClientStage {
    if step is Read {
        stage
    } else {
        ClientStage::Over
    }
}

/// One turn of a session: the bytes that have just arrived lead to the next
/// step and to the state after it. The first byte tells the protocol.
pub open spec fn session_turn(
    s: ClientSessionView,
    received: Seq<u8>,
    direct: Seq<Seq<char>>,
    proxy: Seq<Seq<char>>,
) -> (ClientSessionView, ClientStepView) {
    let buf = s.buf + received;
    match s.stage {
        ClientStage::Opening => if buf.len() > 0 && is_letter(buf[0]) {
            let step = http_step(buf, direct, proxy);
            (
                ClientSessionView { stage: stage_after(ClientStage::HttpHead, step), buf },
                step,
            )
        } else {
            let step = greeting_step(buf);
            if step is Write {
                (ClientSessionView { stage: ClientStage::Request, buf: Seq::empty() }, step)
            } else {
                (ClientSessionView { stage: stage_after(s.stage, step), buf }, step)
            }
        },
        ClientStage::Request => {
            let step = socks_step(buf, direct, proxy);
            (ClientSessionView { stage: stage_after(s.stage, step), buf }, step)
        },
        ClientStage::HttpHead => {
            let step = http_step(buf, direct, proxy);
            (ClientSessionView { stage: stage_after(s.stage, step), buf }, step)
        },
        ClientStage::Over => (ClientSessionView { stage: s.stage, buf }, ClientStepView::Read(0)),
    }
}

/// A session with a client that has just connected.
pub open spec fn new_session() -> ClientSessionView {
    ClientSessionView { stage: ClientStage::Opening, buf: Seq::empty() }
}

fn bytes_of(a: &[u8]) -> (r: Vec<u8>)
    ensures
        r@ == a@,
{
    let mut v: Vec<u8> = Vec::new();
    push_bytes(&mut v, a);
    assert(v@ =~= a@);
    v
}

fn refuse_request(e: RequestError) -> (r: ClientStep)
    ensures
        r@ == ClientStepView::Refuse(request_refusal(e).0, request_refusal(e).1),
{
    match e {
        RequestError::BadVersion => ClientStep::Refuse(
            bytes_of(&socks5_reply(REP_GENERAL_FAILURE)),
            "bad SOCKS version in request",
        ),
        RequestError::NotConnect => ClientStep::Refuse(
            bytes_of(&socks5_reply(REP_CMD_NOT_SUPPORTED)),
            "only CONNECT is supported",
        ),
        RequestError::EmptyDomain => ClientStep::Refuse(
            bytes_of(&socks5_reply(REP_GENERAL_FAILURE)),
            "empty domain name",
        ),
        RequestError::DomainNotUtf8 => {
            let none: Vec<u8> = Vec::new();
            assert(none@ =~= Seq::empty());
            ClientStep::Refuse(none, "domain name is not valid UTF-8")
        },
        RequestError::BadAddressType => ClientStep::Refuse(
            bytes_of(&socks5_reply(REP_ATYP_NOT_SUPPORTED)),
            "unsupported address type",
        ),
    }
}

fn take_greeting(buf: &Vec<u8>) -> (r: ClientStep)
    ensures
        r@ == greeting_step(buf@),
{
    match client_greeting(buf) {
        Greeting::Need(n) => ClientStep::Read(n),
        Greeting::BadVersion => ClientStep::Refuse(
            bytes_of(&socks5_reply(REP_GENERAL_FAILURE)),
            "unsupported SOCKS version",
        ),
        Greeting::NoMethod => {
            let no: Vec<u8> = vec![SOCKS_VERSION, AUTH_UNACCEPTABLE];
            assert(no@ =~= seq![SOCKS_VERSION, AUTH_UNACCEPTABLE]);
            ClientStep::Refuse(no, "no acceptable auth method")
        },
        Greeting::Accepted => {
            let yes: Vec<u8> = vec![SOCKS_VERSION, AUTH_NONE];
            assert(yes@ =~= seq![SOCKS_VERSION, AUTH_NONE]);
            ClientStep::Write(yes)
        },
    }
}

fn take_request(buf: &Vec<u8>, cfg: &FileConfig) -> (r: ClientStep)
    ensures
        r@ == socks_step(buf@, direct_list(*cfg), proxy_list(*cfg)),
{
    match client_request(buf) {
        Request::Need(n) => ClientStep::Read(n),
        Request::Refused(e) => refuse_request(e),
        Request::Complete(t) => {
            let route = route_for(cfg, &t);
            ClientStep::Dial(t, route, Protocol::Socks5)
        },
    }
}

fn take_http(buf: &Vec<u8>, cfg: &FileConfig) -> (r: ClientStep)
    ensures
        r@ == http_step(buf@, direct_list(*cfg), proxy_list(*cfg)),
{
    match http_request(buf) {
        HttpRequest::Need(n) => ClientStep::Read(n),
        HttpRequest::Refused(e) => ClientStep::Refuse(refusal_answer(e), refusal_message(e)),
        HttpRequest::Complete(t) => {
            let route = route_for(cfg, &t);
            ClientStep::Dial(t, route, Protocol::HttpConnect)
        },
    }
}

impl ClientSession {
    /// A session with a client that has just connected.
    pub fn new() -> (r: ClientSession)
        ensures
            r@ == new_session(),
    {
        let r = ClientSession { stage: ClientStage::Opening, buf: Vec::new() };
        assert(r.buf@ =~= Seq::empty());
        r
    }

    /// Takes the bytes that were read since the last turn and says what to do
    /// next.
    pub fn turn(&mut self, received: &Vec<u8>, cfg: &FileConfig) -> (step: ClientStep)
        ensures
            (final(self)@, step@) == session_turn(
                old(self)@,
                received@,
                direct_list(*cfg),
                proxy_list(*cfg),
            ),
    {
        push_bytes(&mut self.buf, received.as_slice());
        let step = match self.stage {
            ClientStage::Opening => {
                let letter: bool = self.buf.len() > 0 && {
                    let b: u8 = self.buf[0];
                    (65 <= b && b <= 90) || (97 <= b && b <= 122)
                };
                if letter {
                    self.stage = ClientStage::HttpHead;
                    take_http(&self.buf, cfg)
                } else {
                    take_greeting(&self.buf)
                }
            },
            ClientStage::Request => take_request(&self.buf, cfg),
            ClientStage::HttpHead => take_http(&self.buf, cfg),
            ClientStage::Over => ClientStep::Read(0),
        };
        match &step {
            ClientStep::Read(_) => {},
            ClientStep::Write(_) => {
                self.stage = ClientStage::Request;
                self.buf = Vec::new();
                assert(self.buf@ =~= Seq::empty());
            },
            _ => {
                self.stage = ClientStage::Over;
            },
        }
        step
    }
}

// ── The answer once the destination was tried ────────────────────────────

/// What a client is told once a direct connection stands; without a local
/// address, the all-zero one is reported.
pub open spec fn direct_answer(protocol: Protocol, bound: Option<Endpoint>) -> Seq<u8> {
    match protocol {
        Protocol::Socks5 => match bound {
            Some(at) => bound_reply_bytes(REP_SUCCESS, at),
            None => reply_bytes(REP_SUCCESS),
        },
        Protocol::HttpConnect => encode_utf8(established_text()),
    }
}

/// What a client is told once a direct connection stands.
pub fn direct_reply(protocol: Protocol, bound: Option<Endpoint>) -> (r: Vec<u8>)
    ensures
        r@ == direct_answer(protocol, bound),
{
    match protocol {
        Protocol::Socks5 => match bound {
            Some(at) => socks5_reply_with_bind(REP_SUCCESS, at),
            None => bytes_of(&socks5_reply(REP_SUCCESS)),
        },
        Protocol::HttpConnect => established_answer(),
    }
}

/// What a client is told once the upstream server has connected: a SOCKS5
/// client gets that server's own reply.
pub fn upstream_reply(protocol: Protocol, reply: Vec<u8>) -> (r: Vec<u8>)
    ensures
        r@ == (match protocol {
            Protocol::Socks5 => reply@,
            Protocol::HttpConnect => encode_utf8(established_text()),
        }),
{
    match protocol {
        Protocol::Socks5 => reply,
        Protocol::HttpConnect => established_answer(),
    }
}

/// What a client is told when its destination could not be reached.
pub open spec fn failure_answer(
    protocol: Protocol,
    kind: IoErrorKind,
    raw_os_error: Option<i32>,
) -> Seq<u8> {
    match protocol {
        Protocol::Socks5 => reply_bytes(failure_code(kind, raw_os_error)),
        Protocol::HttpConnect => encode_utf8(bad_gateway_text()),
    }
}

/// What a client is told when its destination could not be reached.
pub fn failure_reply(protocol: Protocol, kind: IoErrorKind, raw_os_error: Option<i32>) -> (r: Vec<
    u8,
>)
    ensures
        r@ == failure_answer(protocol, kind, raw_os_error),
{
    match protocol {
        Protocol::Socks5 => bytes_of(&socks5_reply(rep_for_io_error(kind, raw_os_error))),
        Protocol::HttpConnect => bad_gateway_answer(),
    }
}

/// The words for a failed handshake with the upstream server.
pub open spec fn upstream_error_text(e: HandshakeError) -> Seq<char> {
    match e {
        HandshakeError::Greeting(a, b) => "upstream SOCKS5 greeting failed: got "@ + hex_pair(a)
            + " "@ + hex_pair(b),
        HandshakeError::NotADomain => "upstream routing requires a domain target"@,
        HandshakeError::DomainTooLong => "domain name exceeds 255 bytes"@,
        HandshakeError::BadAddressType(a) => "upstream returned unsupported ATYP: 0x"@ + hex_pair(
            a,
        ),
        HandshakeError::Refused(rep) => "upstream SOCKS5 CONNECT failed with REP=0x"@ + hex_pair(
            rep,
        ),
    }
}

/// The words for a failed handshake with the upstream server.
pub fn upstream_error(e: HandshakeError) -> (r: String)
    ensures
        r@ == upstream_error_text(e),
{
    let mut out = String::new();
    match e {
        HandshakeError::Greeting(a, b) => {
            out.append("upstream SOCKS5 greeting failed: got ");
            out.append(hex_pair_of(a).as_str());
            out.append(" ");
            out.append(hex_pair_of(b).as_str());
        },
        HandshakeError::NotADomain => {
            out.append("upstream routing requires a domain target");
        },
        HandshakeError::DomainTooLong => {
            out.append("domain name exceeds 255 bytes");
        },
        HandshakeError::BadAddressType(a) => {
            out.append("upstream returned unsupported ATYP: 0x");
            out.append(hex_pair_of(a).as_str());
        },
        HandshakeError::Refused(rep) => {
            out.append("upstream SOCKS5 CONNECT failed with REP=0x");
            out.append(hex_pair_of(rep).as_str());
        },
    }
    assert(out@ =~= upstream_error_text(e));
    out
}

// ── Laws ─────────────────────────────────────────────────────────────────

/// A raw address is reached directly, whatever the lists hold.
pub proof fn law_raw_addresses_are_direct(
    t: TargetView,
    direct: Seq<Seq<char>>,
    proxy: Seq<Seq<char>>,
)
    requires
        !(t is Domain),
    ensures
        route_of(t, direct, proxy) == Route::Direct,
{
}

/// A client that asks over HTTP for an address in text form, with brackets
/// round it or not, is connected to it directly, whatever the lists hold.
pub proof fn law_http_addresses_are_direct(
    host: Seq<char>,
    port: u16,
    direct: Seq<Seq<char>>,
    proxy: Seq<Seq<char>>,
)
    requires
        ipv4_of(unbracketed(host)) is Some || ipv6_of(unbracketed(host)) is Some,
    ensures
        route_of(host_target(unbracketed(host), port), direct, proxy) == Route::Direct,
{
}

/// A name goes upstream exactly if no direct pattern matches it and a proxy
/// pattern does, which is also when probe output calls its route a tunnel.
pub proof fn law_names_follow_the_lists(
    name: Seq<char>,
    port: u16,
    direct: Seq<Seq<char>>,
    proxy: Seq<Seq<char>>,
)
    ensures
        route_of(TargetView::Domain(name, port), direct, proxy) == Route::Upstream <==> !any_match(
            name,
            direct,
        ) && any_match(name, proxy),
        route_of(TargetView::Domain(name, port), direct, proxy) == Route::Upstream
            <==> is_tunnelled(name, direct, proxy),
{
}

/// A SOCKS5 client that offers to go without authentication and asks for
/// `t` is answered, and its destination is dialled by the route of `t`.
pub proof fn law_socks_client_is_dialled(
    t: TargetView,
    direct: Seq<Seq<char>>,
    proxy: Seq<Seq<char>>,
)
    requires
        t.fits(),
    ensures
        ({
            let (s1, step1) = session_turn(new_session(), greeting_bytes(), direct, proxy);
            let (s2, step2) = session_turn(s1, request_bytes(t), direct, proxy);
            &&& step1 == ClientStepView::Write(seq![SOCKS_VERSION, AUTH_NONE])
            &&& step2 == ClientStepView::Dial(t, route_of(t, direct, proxy), Protocol::Socks5)
            &&& s2.stage == ClientStage::Over
        }),
{
    let hello = greeting_bytes();
    assert(Seq::<u8>::empty() + hello =~= hello);
    assert(hello.subrange(2, 3)[0] == AUTH_NONE);
    assert(Seq::<u8>::empty() + request_bytes(t) =~= request_bytes(t));
    law_request_round_trip(t);
}

/// A name that goes upstream is not resolved here: the upstream server is
/// asked for it with the very bytes with which the client asked.
pub proof fn law_tunnelled_names_are_forwarded_unchanged(
    name: Seq<char>,
    port: u16,
    direct: Seq<Seq<char>>,
    proxy: Seq<Seq<char>>,
)
    requires
        TargetView::Domain(name, port).fits(),
        is_tunnelled(name, direct, proxy),
    ensures
        ({
            let t = TargetView::Domain(name, port);
            let asked = session_turn(
                session_turn(new_session(), greeting_bytes(), direct, proxy).0,
                request_bytes(t),
                direct,
                proxy,
            ).1;
            &&& asked == ClientStepView::Dial(t, Route::Upstream, Protocol::Socks5)
            &&& after_greeting(t, SOCKS_VERSION, AUTH_NONE) == StepView::Send(request_bytes(t))
        }),
{
    law_socks_client_is_dialled(TargetView::Domain(name, port), direct, proxy);
}

/// The first byte tells the protocol: the SOCKS5 version leads to the reading
/// of a greeting, a letter to the reading of an HTTP head, and anything else
/// is refused.
pub proof fn law_first_byte_tells_the_protocol(
    received: Seq<u8>,
    direct: Seq<Seq<char>>,
    proxy: Seq<Seq<char>>,
)
    requires
        received.len() > 0,
    ensures
        session_turn(new_session(), received, direct, proxy).1 == if received[0] == SOCKS_VERSION {
            greeting_step(received)
        } else if is_letter(received[0]) {
            http_step(received, direct, proxy)
        } else {
            ClientStepView::Refuse(
                reply_bytes(REP_GENERAL_FAILURE),
                "unsupported SOCKS version"@,
            )
        },
{
    assert(Seq::<u8>::empty() + received =~= received);
}

/// A session in progress asks for at least one byte, or ends its part.
pub proof fn law_session_makes_progress(
    s: ClientSessionView,
    received: Seq<u8>,
    direct: Seq<Seq<char>>,
    proxy: Seq<Seq<char>>,
)
    requires
        s.stage != ClientStage::Over,
    ensures
        ({
            let (after, step) = session_turn(s, received, direct, proxy);
            match step {
                ClientStepView::Read(n) => n >= 1 && after.stage != ClientStage::Over,
                ClientStepView::Write(_) => after.stage == ClientStage::Request,
                _ => after.stage == ClientStage::Over,
            }
        }),
{
}

/// No refusal of a SOCKS5 request reads as success to the client.
pub proof fn law_refusals_are_failures(e: RequestError)
    ensures
        request_refusal(e).0.len() > 0 ==> (reply_of(request_refusal(e).0) is Failed),
{
}

/// A destination that could not be reached is never reported as connected.
pub proof fn law_failures_are_reported(kind: IoErrorKind, raw_os_error: Option<i32>)
    ensures
        reply_of(failure_answer(Protocol::Socks5, kind, raw_os_error)) == Reply::Failed(
            failure_code(kind, raw_os_error),
        ),
{
}

/// A direct connection is reported to a SOCKS5 client as connected.
pub proof fn law_direct_connections_are_reported(bound: Option<Endpoint>)
    ensures
        reply_of(direct_answer(Protocol::Socks5, bound)) is Connected,
{
}

/// The route as the configuration has it: upstream exactly for a name that is
/// within some configured proxy domain, whichever of them, and within no
/// configured direct domain. The label in probe output tells the same.
pub proof fn law_route_follows_the_configuration(
    cfg: FileConfig,
    target: Target,
    r: Route,
    name: &str,
    label: &'static str,
)
    requires
        call_ensures(route_for, (&cfg, &target), r),
        call_ensures(route_label_for_host, (&cfg, name), label),
    ensures
        ({
            let proxied = |host: Seq<char>|
                cfg.domains matches Some(d) && d.proxy matches Some(list) && exists|i: int|
                    0 <= i < list@.len() && is_within(host, (#[trigger] list@[i])@);
            let kept = |host: Seq<char>|
                cfg.domains matches Some(d) && d.direct matches Some(list) && exists|i: int|
                    0 <= i < list@.len() && is_within(host, (#[trigger] list@[i])@);
            &&& r == Route::Upstream <==> (target matches Target::Domain(host, _) && proxied(host@)
                && !kept(host@))
            &&& label@ == (if proxied(name@) && !kept(name@) {
                "tunnel"@
            } else {
                "direct"@
            })
        }),
{
    match target {
        Target::Domain(host, port) => lemma_configured_lists(cfg, host@),
        _ => {},
    }
    lemma_configured_lists(cfg, name@);
}

proof fn lemma_configured_lists(cfg: FileConfig, host: Seq<char>)
    ensures
        any_match(host, proxy_list(cfg)) <==> (cfg.domains matches Some(d) && d.proxy matches Some(
            list,
        ) && exists|i: int| 0 <= i < list@.len() && is_within(host, (#[trigger] list@[i])@)),
        any_match(host, direct_list(cfg)) <==> (cfg.domains matches Some(d)
            && d.direct matches Some(list) && exists|i: int|
            0 <= i < list@.len() && is_within(host, (#[trigger] list@[i])@)),
{
    if let Some(d) = cfg.domains {
        if let Some(list) = d.proxy {
            lemma_lists(host, list@);
        }
        if let Some(list) = d.direct {
            lemma_lists(host, list@);
        }
    }
}

/// How a client's bytes come in plays no part: where a turn asks for more,
/// going on with the rest leads to what all of it at once leads to.
pub proof fn law_session_takes_bytes_piecemeal(
    s: ClientSessionView,
    a: Seq<u8>,
    b: Seq<u8>,
    direct: Seq<Seq<char>>,
    proxy: Seq<Seq<char>>,
)
    requires
        s.stage != ClientStage::Over,
        a.len() > 0 || s.buf.len() > 0,
        session_turn(s, a, direct, proxy).1 is Read,
    ensures
        session_turn(session_turn(s, a, direct, proxy).0, b, direct, proxy) == session_turn(
            s,
            a + b,
            direct,
            proxy,
        ),
{
    assert(s.buf + a + b =~= s.buf + (a + b));
    assert((s.buf + a)[0] == (s.buf + (a + b))[0]);
}

/// A client that asks over HTTP is dialled: a head whose first line asks for a
/// host and a port leads to that destination by its route, whatever the lines
/// behind the first.
pub proof fn law_http_client_is_dialled(
    line: Seq<u8>,
    rest: Seq<u8>,
    host: Seq<char>,
    port: u16,
    direct: Seq<Seq<char>>,
    proxy: Seq<Seq<char>>,
)
    requires
        line.len() > 0,
        is_letter(line[0]),
        forall|i: int| 0 <= i < line.len() ==> line[i] != 13,
        valid_utf8(line),
        decode_utf8(line) == connect_line(host, port),
        host.len() > 0,
        forall|i: int| 0 <= i < host.len() ==> host[i] != ' ',
        finishes_with(line + seq![13u8, 10u8] + rest, seq![13u8, 10u8, 13u8, 10u8]),
    ensures
        ({
            let t = host_target(unbracketed(host), port);
            let (s, step) = session_turn(
                new_session(),
                line + seq![13u8, 10u8] + rest,
                direct,
                proxy,
            );
            &&& step == ClientStepView::Dial(t, route_of(t, direct, proxy), Protocol::HttpConnect)
            &&& s.stage == ClientStage::Over
        }),
{
    let head = line + seq![13u8, 10u8] + rest;
    law_first_line_decides(line, rest);
    law_connect_line_is_read(host, port);
    assert(Seq::<u8>::empty() + head =~= head);
    assert(head[0] == line[0]);
}

/// What a SOCKS5 client is told on each refusal, byte by byte, and that a
/// refusal ends its session.
pub proof fn law_refusals_as_sent(
    received: Seq<u8>,
    buf: Seq<u8>,
    direct: Seq<Seq<char>>,
    proxy: Seq<Seq<char>>,
)
    requires
        received.len() > 0,
    ensures
        ({
            let opening = session_turn(new_session(), received, direct, proxy).1;
            let asking = session_turn(
                ClientSessionView { stage: ClientStage::Request, buf: Seq::empty() },
                received,
                direct,
                proxy,
            ).1;
            let failure = |code: u8| seq![5u8, code, 0u8, 1u8, 0u8, 0u8, 0u8, 0u8, 0u8, 0u8];
            &&& received[0] != 5 && !is_letter(received[0]) ==> (opening matches ClientStepView::Refuse(
                bytes,
                _,
            ) && bytes == failure(1))
            &&& received[0] == 5 && received.len() >= 2 && received.len() >= 2 + received[1] && !(
            exists|i: int| 2 <= i < 2 + received[1] && #[trigger] received[i] == 0) ==> (
            opening matches ClientStepView::Refuse(bytes, _) && bytes == seq![5u8, 0xffu8])
            &&& received[0] != 5 ==> (asking matches ClientStepView::Refuse(bytes, _) && bytes
                == failure(1))
            &&& received.len() >= 4 && received[0] == 5 && received[1] != 1 ==> (
            asking matches ClientStepView::Refuse(bytes, _) && bytes == failure(7))
            &&& received.len() >= 4 && received[0] == 5 && received[1] == 1 && received[3] != 1
                && received[3] != 3 && received[3] != 4 ==> (asking matches ClientStepView::Refuse(
                bytes,
                _,
            ) && bytes == failure(8))
            &&& received.len() >= 5 && received[0] == 5 && received[1] == 1 && received[3] == 3
                && received[4] == 0 ==> (asking matches ClientStepView::Refuse(bytes, _) && bytes
                == failure(1))
            &&& received.len() >= 5 && received[0] == 5 && received[1] == 1 && received[3] == 3
                && received[4] > 0 && received.len() >= 5 + received[4] && !valid_utf8(
                received.subrange(5, 5 + received[4]),
            ) ==> (asking matches ClientStepView::Refuse(bytes, _) && bytes.len() == 0)
        }),
{
    assert(Seq::<u8>::empty() + received =~= received);
    if received[0] == 5 && received.len() >= 2 && received.len() >= 2 + received[1] {
        let methods = received.subrange(2, 2 + received[1]);
        if methods.contains(0u8) {
            let j = choose|j: int| 0 <= j < methods.len() && methods[j] == 0;
            assert(received[j + 2] == 0);
        }
    }
}

/// The code for a failed connection: refused is five, unreachable hosts are
/// four, an unreachable network is three, and anything else is one.
pub proof fn law_failure_codes(kind: IoErrorKind, raw: Option<i32>, r: u8)
    requires
        call_ensures(rep_for_io_error, (kind, raw), r),
    ensures
        r == 5 <==> kind == IoErrorKind::ConnectionRefused,
        r == 4 <==> kind == IoErrorKind::AddrNotAvailable || kind == IoErrorKind::ConnectionReset
            || kind == IoErrorKind::TimedOut,
        r == 3 <==> kind == IoErrorKind::Other && (raw == Some(101i32) || raw == Some(51i32)),
        r == 1 || 3 <= r <= 5,
{
}

/// What a client is told once its destination was tried. A SOCKS5 client gets
/// the upstream server's reply as it is, or one with the address that was
/// bound, or one with the code of the failure; an HTTP client gets the status
/// that says the same.
pub proof fn law_clients_are_told_the_outcome(
    reply: Vec<u8>,
    kind: IoErrorKind,
    raw: Option<i32>,
    bound: Option<Endpoint>,
    up_socks: Vec<u8>,
    up_http: Vec<u8>,
    direct_socks: Vec<u8>,
    direct_http: Vec<u8>,
    fail_socks: Vec<u8>,
    fail_http: Vec<u8>,
    code: u8,
)
    requires
        call_ensures(upstream_reply, (Protocol::Socks5, reply), up_socks),
        call_ensures(upstream_reply, (Protocol::HttpConnect, reply), up_http),
        call_ensures(direct_reply, (Protocol::Socks5, bound), direct_socks),
        call_ensures(direct_reply, (Protocol::HttpConnect, bound), direct_http),
        call_ensures(failure_reply, (Protocol::Socks5, kind, raw), fail_socks),
        call_ensures(failure_reply, (Protocol::HttpConnect, kind, raw), fail_http),
        call_ensures(rep_for_io_error, (kind, raw), code),
    ensures
        up_socks@ == reply@,
        up_http@ == encode_utf8("HTTP/1.1 200 Connection Established\r\n\r\n"@),
        direct_http@ == encode_utf8("HTTP/1.1 200 Connection Established\r\n\r\n"@),
        fail_http@ == encode_utf8("HTTP/1.1 502 Bad Gateway\r\n\r\n"@),
        fail_socks@.len() == 10 && fail_socks@[0] == 5 && fail_socks@[1] == code && code != 0,
        direct_socks@[0] == 5 && direct_socks@[1] == 0,
        match bound {
            Some(Endpoint::V4(ip, port)) => direct_socks@.len() == 10 && direct_socks@[3] == 1
                && direct_socks@.subrange(4, 8) == ip@ && direct_socks@[8] * 256 + direct_socks@[9]
                == port,
            Some(Endpoint::V6(ip, port)) => direct_socks@.len() == 22 && direct_socks@[3] == 4
                && direct_socks@.subrange(4, 20) == ip@ && direct_socks@[20] * 256
                + direct_socks@[21] == port,
            None => direct_socks@ == seq![5u8, 0u8, 0u8, 1u8, 0u8, 0u8, 0u8, 0u8, 0u8, 0u8],
        },
{
    match bound {
        Some(Endpoint::V4(ip, port)) => {
            assert(direct_socks@.subrange(4, 8) =~= ip@);
        },
        Some(Endpoint::V6(ip, port)) => {
            assert(direct_socks@.subrange(4, 20) =~= ip@);
        },
        None => {},
    }
}

proof fn lemma_octet(n: u8)
    ensures
        octet_of(decimal(n as nat)) == Some(n),
        forall|i: int|
            0 <= i < decimal(n as nat).len() ==> #[trigger] decimal(n as nat)[i] != '.' && decimal(
                n as nat,
            )[i] != ':',
        decimal(n as nat).len() > 0,
{
    lemma_port_round_trip(n as u16);
    lemma_decimal_digits(n as nat);
    assert forall|i: int| 0 <= i < decimal(n as nat).len() implies #[trigger] decimal(n as nat)[i]
        != '.' && decimal(n as nat)[i] != ':' by {
        assert(is_digit(decimal(n as nat)[i]));
    }
}

/// An IPv4 address and its dotted form determine each other.
pub proof fn law_dotted_form(ip: Seq<u8>, s: Seq<char>)
    requires
        ip.len() == 4,
    ensures
        ipv4_of(s) == Some(ip) <==> s == dotted(ip),
{
    reveal_strlit(".");
    let d = Seq::new(4, |i: int| decimal(ip[i] as nat));
    lemma_octet(ip[0]);
    lemma_octet(ip[1]);
    lemma_octet(ip[2]);
    lemma_octet(ip[3]);
    assert("."@ =~= seq!['.']);
    let t = dotted(ip);
    lemma_one_piece(d[0], '.');
    lemma_more_pieces(d[0], '.', d[1]);
    lemma_more_pieces(d[0] + seq!['.'] + d[1], '.', d[2]);
    lemma_more_pieces(d[0] + seq!['.'] + d[1] + seq!['.'] + d[2], '.', d[3]);
    assert(pieces(t, '.') =~= d);
    assert(seq![ip[0], ip[1], ip[2], ip[3]] =~= ip);
    assert(ipv4_of(t) == Some(ip));
    if ipv4_of(s) == Some(ip) {
        let p = pieces(s, '.');
        law_pieces_make_up_the_text(s, '.');
        law_pieces_make_up_the_text(t, '.');
        let q = seq![octet_of(p[0])->0, octet_of(p[1])->0, octet_of(p[2])->0, octet_of(p[3])->0];
        assert(q == ip);
        assert(q[0] == ip[0] && q[1] == ip[1] && q[2] == ip[2] && q[3] == ip[3]);
        assert(p =~= d);
    }
}

proof fn lemma_hexadecimal(n: nat)
    ensures
        hexadecimal(n).len() > 0,
        forall|i: int| 0 <= i < hexadecimal(n).len() ==> is_hex(#[trigger] hexadecimal(n)[i]),
        hex_number(hexadecimal(n)) == n,
        n < 0x10 ==> hexadecimal(n).len() == 1,
        n < 0x100 ==> hexadecimal(n).len() <= 2,
        n < 0x1000 ==> hexadecimal(n).len() <= 3,
        n < 0x10000 ==> hexadecimal(n).len() <= 4,
    decreases n,
{
    if n >= 16 {
        lemma_hexadecimal(n / 16);
        assert(hexadecimal(n).drop_last() =~= hexadecimal(n / 16));
        assert forall|i: int| 0 <= i < hexadecimal(n).len() implies is_hex(
            #[trigger] hexadecimal(n)[i],
        ) by {
            if i < hexadecimal(n / 16).len() {
                assert(hexadecimal(n)[i] == hexadecimal(n / 16)[i]);
            }
        }
    } else {
        assert(hexadecimal(n).drop_last() =~= Seq::<char>::empty());
        assert(hex_number(Seq::<char>::empty()) == 0);
    }
}

/// The texts of a list of groups.
pub open spec fn group_texts(g: Seq<u16>) -> Seq<Seq<char>> {
    g.map_values(|n: u16| hexadecimal(n as nat))
}

/// The bytes of a list of groups.
pub open spec fn bytes_of_groups(g: Seq<u16>) -> Seq<u8> {
    Seq::new(2 * g.len(), |i: int| if i % 2 == 0 {
        (g[i / 2] / 256) as u8
    } else {
        (g[i / 2] % 256) as u8
    })
}

proof fn lemma_group_texts(g: Seq<u16>, v4: bool)
    ensures
        group_bytes(group_texts(g), v4) == Some(bytes_of_groups(g)),
        forall|i: int, j: int|
            0 <= i < g.len() && 0 <= j < group_texts(g)[i].len() ==> #[trigger] group_texts(
                g,
            )[i][j] != ':',
        forall|i: int| 0 <= i < g.len() ==> (#[trigger] group_texts(g)[i]).len() > 0,
    decreases g.len(),
{
    let t = group_texts(g);
    if g.len() > 0 {
        let head = g.drop_last();
        lemma_group_texts(head, false);
        assert(t.drop_last() =~= group_texts(head));
        let n = g.last();
        lemma_hexadecimal(n as nat);
        assert(t.last() == hexadecimal(n as nat));
        assert(group_of(t.last()) == Some(n));
        assert(bytes_of_groups(head) + be16(n) =~= bytes_of_groups(g));
        assert forall|i: int, j: int| 0 <= i < g.len() && 0 <= j < t[i].len() implies
            #[trigger] t[i][j] != ':' by {
            lemma_hexadecimal(g[i] as nat);
            assert(is_hex(hexadecimal(g[i] as nat)[j]));
        }
        assert forall|i: int| 0 <= i < g.len() implies (#[trigger] t[i]).len() > 0 by {
            lemma_hexadecimal(g[i] as nat);
        }
    } else {
        assert(bytes_of_groups(g) =~= Seq::<u8>::empty());
    }
}

/// No two colons in a row, and none at either end.
spec fn colons_apart(s: Seq<char>) -> bool {
    &&& s.len() > 0 ==> s[0] != ':' && s.last() != ':'
    &&& forall|i: int| 0 <= i < s.len() - 1 ==> !(#[trigger] s[i] == ':' && s[i + 1] == ':')
}

proof fn lemma_colons_apart(g: Seq<u16>)
    ensures
        colons_apart(hex_groups(g)),
        hex_groups(g).len() == 0 <==> g.len() == 0,
    decreases g.len(),
{
    reveal_strlit(":");
    assert(":"@ =~= seq![':']);
    let t = group_texts(g);
    lemma_group_texts(g, false);
    assert(hex_groups(g) == joined(t, ":"@));
    if g.len() == 1 {
        assert forall|i: int| 0 <= i < t[0].len() implies #[trigger] t[0][i] != ':' by {
        }
        assert(t[0].len() > 0);
    } else if g.len() > 1 {
        let head = g.drop_last();
        lemma_colons_apart(head);
        assert(t.drop_last() =~= group_texts(head));
        let h = hex_groups(head);
        let l = t.last();
        assert(t[t.len() - 1].len() > 0);
        assert forall|j: int| 0 <= j < l.len() implies #[trigger] l[j] != ':' by {
            assert(t[t.len() - 1][j] != ':');
        }
        let s = hex_groups(g);
        assert(s == h + ":"@ + l);
        assert(s.last() == l.last());
        assert(s[0] == h[0]);
        assert forall|i: int| 0 <= i < s.len() - 1 implies !(#[trigger] s[i] == ':' && s[i + 1]
            == ':') by {
            if i < h.len() - 1 {
                assert(s[i] == h[i] && s[i + 1] == h[i + 1]);
            } else if i == h.len() - 1 {
                assert(s[i] == h.last());
            } else if i == h.len() {
                assert(s[i + 1] == l[0]);
            } else {
                assert(s[i] == l[i - h.len() - 1]);
            }
        }
    }
}

proof fn lemma_hex_groups_are_read(g: Seq<u16>, v4: bool)
    ensures
        part_bytes(hex_groups(g), v4) == Some(bytes_of_groups(g)),
{
    reveal_strlit(":");
    assert(":"@ =~= seq![':']);
    lemma_group_texts(g, v4);
    lemma_colons_apart(g);
    if g.len() > 0 {
        law_joined_texts_are_split_again(group_texts(g), ':');
    } else {
        assert(bytes_of_groups(g) =~= Seq::<u8>::empty());
    }
}

proof fn lemma_first_gap(s: Seq<char>, from: int, at: int)
    requires
        0 <= from <= at < s.len() - 1,
        s[at] == ':' && s[at + 1] == ':',
        forall|i: int| from <= i < at ==> !(#[trigger] s[i] == ':' && s[i + 1] == ':'),
    ensures
        gap_from(s, from) == at,
    decreases at - from,
{
    if from < at {
        assert(!(s[from] == ':' && s[from + 1] == ':'));
        lemma_first_gap(s, from + 1, at);
    }
}

proof fn lemma_no_gap(s: Seq<char>, from: int)
    requires
        0 <= from,
        colons_apart(s),
    ensures
        gap_from(s, from) == -1,
    decreases s.len() - from,
{
    if from + 1 < s.len() {
        assert(!(s[from] == ':' && s[from + 1] == ':'));
        lemma_no_gap(s, from + 1);
    }
}

proof fn lemma_zeros(g: Seq<u16>, at: int)
    requires
        0 <= at <= g.len(),
    ensures
        0 <= zeros_from(g, at) <= g.len() - at,
        forall|i: int| at <= i < at + zeros_from(g, at) ==> #[trigger] g[i] == 0,
    decreases g.len() - at,
{
    if at < g.len() && g[at] == 0 {
        lemma_zeros(g, at + 1);
    }
}

proof fn lemma_longest_zeros(g: Seq<u16>, upto: int)
    requires
        1 <= upto <= g.len(),
    ensures
        0 <= longest_zeros(g, upto) < upto,
        forall|i: int| 0 <= i < upto ==> #[trigger] zeros_from(g, i) <= zeros_from(g, longest_zeros(g, upto)),
        forall|i: int| 0 <= i < longest_zeros(g, upto) ==> #[trigger] zeros_from(g, i) < zeros_from(g, longest_zeros(g, upto)),
    decreases upto,
{
    if upto > 1 {
        lemma_longest_zeros(g, upto - 1);
    }
}

proof fn lemma_groups_are_the_bytes(ip: Seq<u8>)
    requires
        ip.len() == 16,
    ensures
        bytes_of_groups(groups(ip)) == ip,
{
    let g = groups(ip);
    assert forall|i: int| 0 <= i < 16 implies #[trigger] bytes_of_groups(g)[i] == ip[i] by {
        let k = i / 2;
        let n = ip[2 * k] * 256 + ip[2 * k + 1];
        assert(g[k] == n);
    }
    assert(bytes_of_groups(g) =~= ip);
}

proof fn lemma_ffff()
    ensures
        hex_groups(seq![0xffffu16]) == "ffff"@,
{
    reveal_strlit("ffff");
    reveal_with_fuel(hexadecimal, 5);
    let h = hexadecimal(0xffff);
    assert(hexadecimal(0xf) =~= seq!['f']);
    assert(hexadecimal(0xff) =~= seq!['f', 'f']);
    assert(hexadecimal(0xfff) =~= seq!['f', 'f', 'f']);
    assert(h =~= "ffff"@);
    let t = group_texts(seq![0xffffu16]);
    assert(t.len() == 1 && t[0] == h);
    assert(hex_groups(seq![0xffffu16]) == joined(t, ":"@));
}

/// Groups, and an IPv4 address behind them with a colon between.
pub open spec fn groups_and_v4(g: Seq<u16>, v4: Seq<u8>) -> Seq<char> {
    if g.len() == 0 {
        dotted(v4)
    } else {
        hex_groups(g) + ":"@ + dotted(v4)
    }
}

proof fn lemma_v4_tail(g: Seq<u16>, v4: Seq<u8>)
    requires
        v4.len() == 4,
    ensures
        part_bytes(groups_and_v4(g, v4), true) == Some(bytes_of_groups(g) + v4),
        groups_and_v4(g, v4).len() > 0,
        groups_and_v4(g, v4)[0] != ':',
{
    reveal_strlit(":");
    assert(":"@ =~= seq![':']);
    law_dotted_form(v4, dotted(v4));
    lemma_dotted_has_no_colon(v4);
    lemma_group_texts(g, false);
    lemma_colons_apart(g);
    let d = dotted(v4);
    let t = group_texts(g);
    let list = t.push(d);
    assert forall|i: int, j: int| 0 <= i < list.len() && 0 <= j < list[i].len() implies
        #[trigger] list[i][j] != ':' by {
        if i < t.len() {
            assert(t[i][j] != ':');
        }
    }
    law_joined_texts_are_split_again(list, ':');
    law_joining(t, d, seq![':']);
    lemma_dotted_is_something(v4);
    assert(list.drop_last() =~= t);
    assert(list.last() == d);
    let s = groups_and_v4(g, v4);
    if g.len() == 0 {
        assert(list =~= seq![d]);
        assert(s[0] == d[0]);
    } else {
        assert(hex_groups(g) == joined(t, ":"@));
        assert(s == joined(list, seq![':']));
        assert(s[0] == hex_groups(g)[0]);
    }
}

proof fn lemma_dotted_is_something(ip: Seq<u8>)
    requires
        ip.len() == 4,
    ensures
        dotted(ip).len() > 0,
{
    reveal_strlit(".");
    assert("."@.len() == 1);
}

/// A text of which the first part is a list of groups and the rest follows two
/// colons is read in these two parts.
proof fn lemma_two_parts(a: Seq<u16>, t: Seq<char>)
    ensures
        ({
            let s = hex_groups(a) + "::"@ + t;
            &&& gap_from(s, 0) == hex_groups(a).len()
            &&& s.take(hex_groups(a).len() as int) == hex_groups(a)
            &&& s.skip(hex_groups(a).len() as int + 2) == t
        }),
{
    reveal_strlit("::");
    let h = hex_groups(a);
    let k = h.len() as int;
    let s = h + "::"@ + t;
    lemma_colons_apart(a);
    assert(s[k] == ':' && s[k + 1] == ':');
    assert forall|i: int| 0 <= i < k implies !(#[trigger] s[i] == ':' && s[i + 1] == ':') by {
        assert(s[i] == h[i]);
        if i < k - 1 {
            assert(s[i + 1] == h[i + 1]);
        }
    }
    lemma_first_gap(s, 0, k);
    assert(s.take(k) =~= h);
    assert(s.skip(k + 2) =~= t);
}

/// An IPv6 address without a gap has eight groups, no more and no fewer; its
/// bytes are those of the groups. The last two may be an IPv4 address.
pub proof fn law_ipv6_without_a_gap(g: Seq<u16>, v4: Seq<u8>)
    requires
        v4.len() == 4,
    ensures
        ipv6_of(hex_groups(g)) == (if g.len() == 8 {
            Some(bytes_of_groups(g))
        } else {
            None
        }),
        g.len() == 6 ==> ipv6_of(groups_and_v4(g, v4)) == Some(bytes_of_groups(g) + v4),
{
    lemma_colons_apart(g);
    lemma_no_gap(hex_groups(g), 0);
    lemma_hex_groups_are_read(g, true);
    if g.len() == 6 {
        lemma_v4_tail(g, v4);
        lemma_dotted_has_no_colon(v4);
        lemma_dotted_is_something(v4);
        reveal_strlit(":");
        let h = hex_groups(g);
        let d = dotted(v4);
        let s = groups_and_v4(g, v4);
        assert(s == h + ":"@ + d);
        assert forall|i: int| 0 <= i < s.len() - 1 implies !(#[trigger] s[i] == ':' && s[i + 1]
            == ':') by {
            if i < h.len() - 1 {
                assert(s[i] == h[i] && s[i + 1] == h[i + 1]);
            } else if i == h.len() - 1 {
                assert(s[i] == h.last());
            } else if i == h.len() {
                assert(s[i + 1] == d[0]);
            } else {
                assert(s[i] == d[i - h.len() - 1]);
            }
        }
        assert(s.last() == d.last());
        assert(s[0] == h[0]);
        lemma_no_gap(s, 0);
    }
}

/// A gap stands for one group of zeros or more: the groups before it and those
/// behind it are at most seven together. Behind it, the last two groups may be
/// an IPv4 address.
pub proof fn law_ipv6_with_a_gap(a: Seq<u16>, b: Seq<u16>, v4: Seq<u8>)
    requires
        v4.len() == 4,
    ensures
        ipv6_of(hex_groups(a) + "::"@ + hex_groups(b)) == (if a.len() + b.len() <= 7 {
            Some(
                bytes_of_groups(a) + Seq::new((16 - 2 * a.len() - 2 * b.len()) as nat, |i: int| 0u8)
                    + bytes_of_groups(b),
            )
        } else {
            None
        }),
        ipv6_of(hex_groups(a) + "::"@ + groups_and_v4(b, v4)) == (if a.len() + b.len() <= 5 {
            Some(
                bytes_of_groups(a) + Seq::new((12 - 2 * a.len() - 2 * b.len()) as nat, |i: int| 0u8)
                    + (bytes_of_groups(b) + v4),
            )
        } else {
            None
        }),
{
    lemma_two_parts(a, hex_groups(b));
    lemma_hex_groups_are_read(a, false);
    lemma_hex_groups_are_read(b, true);
    lemma_two_parts(a, groups_and_v4(b, v4));
    lemma_v4_tail(b, v4);
}

proof fn lemma_mapped_is_read_back(ip: Seq<u8>)
    requires
        ip.len() == 16,
        maps_v4(ip),
    ensures
        ipv6_of(ipv6_text(ip)) == Some(ip),
{
    let v4 = ip.subrange(12, 16);
    let none = Seq::<u16>::empty();
    let f = seq![0xffffu16];
    law_ipv6_with_a_gap(none, f, v4);
    lemma_ffff();
    lemma_colons_apart(none);
    reveal_strlit("::ffff:");
    reveal_strlit("ffff");
    reveal_strlit("::");
    reveal_strlit(":");
    assert(hex_groups(none) + "::"@ + groups_and_v4(f, v4) =~= "::ffff:"@ + dotted(v4));
    assert(bytes_of_groups(none) + Seq::new(10, |i: int| 0u8) + (bytes_of_groups(f) + v4) =~= ip);
}

proof fn lemma_shortened_is_read_back(ip: Seq<u8>)
    requires
        ip.len() == 16,
        !maps_v4(ip),
        zeros_from(groups(ip), longest_zeros(groups(ip), 8)) > 1,
    ensures
        ipv6_of(ipv6_text(ip)) == Some(ip),
{
    let g = groups(ip);
    let at = longest_zeros(g, 8);
    let len = zeros_from(g, at);
    lemma_longest_zeros(g, 8);
    lemma_zeros(g, at);
    lemma_groups_are_the_bytes(ip);
    law_ipv6_with_a_gap(g.take(at), g.skip(at + len), ip.take(4));
    lemma_filled(g, at, len);
}

proof fn lemma_filled(g: Seq<u16>, at: int, len: int)
    requires
        g.len() == 8,
        0 <= at,
        0 <= len,
        at + len <= 8,
        forall|i: int| at <= i < at + len ==> #[trigger] g[i] == 0,
    ensures
        ({
            let a = bytes_of_groups(g.take(at));
            let b = bytes_of_groups(g.skip(at + len));
            a + Seq::new((16 - a.len() - b.len()) as nat, |i: int| 0u8) + b == bytes_of_groups(g)
        }),
{
    let head = g.take(at);
    let rest = g.skip(at + len);
    let a = bytes_of_groups(head);
    let b = bytes_of_groups(rest);
    let filled = a + Seq::new((16 - a.len() - b.len()) as nat, |i: int| 0u8) + b;
    assert forall|i: int| 0 <= i < 16 implies #[trigger] filled[i] == bytes_of_groups(g)[i] by {
        if i < a.len() {
            assert(head[i / 2] == g[i / 2]);
        } else if i < 16 - b.len() {
            assert(g[i / 2] == 0);
        } else {
            let j = i - (16 - b.len());
            assert(filled[i] == b[j]);
            assert(j / 2 + at + len == i / 2);
            assert(rest[j / 2] == g[i / 2]);
        }
    }
    assert(filled =~= bytes_of_groups(g));
}

/// An IPv6 address in text form is read back as the address, whichever form
/// it has; and what is left out of the text is the first longest row of two or
/// more zero groups.
pub proof fn law_ipv6_text_is_read_back(ip: Seq<u8>)
    requires
        ip.len() == 16,
    ensures
        ipv6_of(ipv6_text(ip)) == Some(ip),
        ({
            let g = groups(ip);
            let at = longest_zeros(g, 8);
            &&& 0 <= at < 8
            &&& forall|i: int| 0 <= i < 8 ==> #[trigger] zeros_from(g, i) <= zeros_from(g, at)
            &&& forall|i: int| 0 <= i < at ==> #[trigger] zeros_from(g, i) < zeros_from(g, at)
        }),
{
    let g = groups(ip);
    lemma_longest_zeros(g, 8);
    if maps_v4(ip) {
        lemma_mapped_is_read_back(ip);
    } else if zeros_from(g, longest_zeros(g, 8)) > 1 {
        lemma_shortened_is_read_back(ip);
    } else {
        lemma_groups_are_the_bytes(ip);
        law_ipv6_without_a_gap(g, ip.take(4));
    }
}

proof fn lemma_dotted_has_no_colon(ip: Seq<u8>)
    requires
        ip.len() == 4,
    ensures
        forall|i: int| 0 <= i < dotted(ip).len() ==> dotted(ip)[i] != ':',
        group_of(dotted(ip)) is None,
{
    reveal_strlit(".");
    lemma_octet(ip[0]);
    lemma_octet(ip[1]);
    lemma_octet(ip[2]);
    lemma_octet(ip[3]);
    let a = decimal(ip[0] as nat);
    let b = decimal(ip[1] as nat);
    let c = decimal(ip[2] as nat);
    let d = decimal(ip[3] as nat);
    let s = dotted(ip);
    assert(s =~= a + seq!['.'] + b + seq!['.'] + c + seq!['.'] + d);
    assert(s[a.len() as int] == '.');
    assert(!is_hex(s[a.len() as int]));
    assert forall|i: int| 0 <= i < s.len() implies s[i] != ':' by {
        let n = a.len() as int;
        let m = n + 1 + b.len();
        let o = m + 1 + c.len();
        if i < n {
            assert(s[i] == a[i]);
        } else if n < i < m {
            assert(s[i] == b[i - n - 1]);
        } else if m < i < o {
            assert(s[i] == c[i - m - 1]);
        } else if i > o {
            assert(s[i] == d[i - o - 1]);
        }
    }
}

/// A destination as text: the host, a colon and the port; an IPv6 address
/// stands in brackets.
pub proof fn law_destination_as_text(t: Target, r: String)
    requires
        call_ensures(Target::to_text, (&t,), r),
    ensures
        match t {
            Target::Ipv4(ip, port) => exists|host: Seq<char>|
                r@ == #[trigger] (host + seq![':']) + decimal(port as nat) && ipv4_of(host) == Some(
                    ip@,
                ),
            Target::Ipv6(ip, port) => exists|host: Seq<char>|
                r@ == #[trigger] (seq!['['] + host) + seq![']', ':'] + decimal(port as nat)
                    && ipv6_of(host) == Some(ip@),
            Target::Domain(name, port) => r@ == name@ + seq![':'] + decimal(port as nat),
        },
{
    reveal_strlit(":");
    reveal_strlit("[");
    reveal_strlit("]:");
    assert(":"@ =~= seq![':']);
    assert("["@ =~= seq!['[']);
    assert("]:"@ =~= seq![']', ':']);
    match t {
        Target::Ipv4(ip, port) => {
            law_dotted_form(ip@, dotted(ip@));
            assert(r@ == (dotted(ip@) + seq![':']) + decimal(port as nat));
        },
        Target::Ipv6(ip, port) => {
            law_ipv6_text_is_read_back(ip@);
            assert(r@ == (seq!['['] + ipv6_text(ip@)) + seq![']', ':'] + decimal(port as nat));
        },
        _ => {},
    }
}

/// What the program does at each turn is what the laws of a client's session
/// speak of, with the lists that are configured.
pub proof fn law_sessions_are_the_laws(
    s: &mut ClientSession,
    received: Vec<u8>,
    cfg: FileConfig,
    step: ClientStep,
    fresh: ClientSession,
)
    requires
        call_ensures(ClientSession::turn, (s, &received, &cfg), step),
        call_ensures(ClientSession::new, (), fresh),
    ensures
        ({
            let turn = session_turn(old(s)@, received@, direct_list(cfg), proxy_list(cfg));
            &&& final(s)@ == turn.0
            &&& step@ == turn.1
            &&& fresh@.stage == ClientStage::Opening && fresh@.buf.len() == 0
        }),
        step matches ClientStep::Dial(target, route, _) ==> forall|r: Route|
            call_ensures(route_for, (&cfg, &target), r) ==> route == r,
{
}

/// The words for a failed handshake hold the bytes that were received.
pub proof fn law_upstream_errors(e: HandshakeError, r: String)
    requires
        call_ensures(upstream_error, (e,), r),
    ensures
        e matches HandshakeError::Refused(rep) ==> r@
            == "upstream SOCKS5 CONNECT failed with REP=0x"@ + hex_pair(rep),
        e matches HandshakeError::Greeting(a, b) ==> r@
            == "upstream SOCKS5 greeting failed: got "@ + hex_pair(a) + " "@ + hex_pair(b),
        e matches HandshakeError::BadAddressType(a) ==> r@
            == "upstream returned unsupported ATYP: 0x"@ + hex_pair(a),
        e == HandshakeError::NotADomain ==> r@ == "upstream routing requires a domain target"@,
        e == HandshakeError::DomainTooLong ==> r@ == "domain name exceeds 255 bytes"@,
{
}

/// A greeting that offers to go without authentication, among whatever else,
/// is answered so, and the session goes on to the request with a clean slate.
pub proof fn law_any_open_greeting_is_answered(
    methods: Seq<u8>,
    direct: Seq<Seq<char>>,
    proxy: Seq<Seq<char>>,
    i: int,
)
    requires
        methods.len() <= 255,
        0 <= i < methods.len(),
        methods[i] == 0,
    ensures
        ({
            let (s, step) = session_turn(
                new_session(),
                seq![5u8, methods.len() as u8] + methods,
                direct,
                proxy,
            );
            &&& step == ClientStepView::Write(seq![5u8, 0u8])
            &&& s.stage == ClientStage::Request
            &&& s.buf.len() == 0
        }),
{
    let hello = seq![5u8, methods.len() as u8] + methods;
    law_greeting_is_answered(methods);
    assert(methods.contains(0u8));
    assert(Seq::<u8>::empty() + hello =~= hello);
}

/// An HTTP request that is turned down gets its answer, and its session ends.
pub proof fn law_http_refusals_as_sent(
    s: ClientSessionView,
    received: Seq<u8>,
    direct: Seq<Seq<char>>,
    proxy: Seq<Seq<char>>,
)
    requires
        s.stage == ClientStage::HttpHead,
    ensures
        ({
            let (after, step) = session_turn(s, received, direct, proxy);
            match http_request_of(s.buf + received) {
                HttpRequestView::Refused(e) => {
                    &&& step matches ClientStepView::Refuse(bytes, _)
                    &&& bytes == encode_utf8(
                        if e == HttpRefusal::MethodNotAllowed {
                            "HTTP/1.1 405 Method Not Allowed\r\nAllow: CONNECT\r\n\r\n"@
                        } else {
                            "HTTP/1.1 400 Bad Request\r\n\r\n"@
                        },
                    )
                    &&& after.stage == ClientStage::Over
                },
                HttpRequestView::Need(n) => step == ClientStepView::Read(n) && after.stage
                    == ClientStage::HttpHead,
                HttpRequestView::Complete(t) => step == ClientStepView::Dial(
                    t,
                    route_of(t, direct, proxy),
                    Protocol::HttpConnect,
                ),
            }
        }),
{
}

/// Any ASCII letter, large or small, begins an HTTP head, and no other byte
/// does: the head is read on, byte by byte, until it is complete.
pub proof fn law_letters_begin_a_head(
    received: Seq<u8>,
    direct: Seq<Seq<char>>,
    proxy: Seq<Seq<char>>,
)
    requires
        received.len() > 0,
    ensures
        ({
            let (s, step) = session_turn(new_session(), received, direct, proxy);
            let letter = 'A' as u8 <= received[0] <= 'Z' as u8 || 'a' as u8 <= received[0]
                <= 'z' as u8;
            &&& letter && received.len() < 4 ==> step == ClientStepView::Read(1) && s.stage
                == ClientStage::HttpHead && s.buf == received
            &&& letter ==> !(step is Write)
            &&& !letter ==> s.stage != ClientStage::HttpHead && !(step is Dial)
            &&& is_letter(received[0]) <==> letter
        }),
{
    assert(Seq::<u8>::empty() + received =~= received);
}

} // verus!
