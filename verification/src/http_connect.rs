//! HTTP CONNECT, the second protocol that the routing proxy speaks: the
//! request head, read byte by byte up to its empty line, and the answers.
use vstd::prelude::*;
use vstd::string::*;
use vstd::utf8::*;

use crate::socks::{be16, push_bytes, push_port, Target, TargetView};
use crate::text::{
    all_digits, begins_with, chars_of, copy_range, decimal, decimal_of, finishes_with, is_digit,
    joined, last_mark, last_position, law_joined_texts_are_split_again,
    law_pieces_make_up_the_text, law_port_numbers_are_digits, lemma_decimal_digits, lemma_last_mark,
    lemma_last_mark_of, lemma_more_pieces, lemma_one_piece, lemma_port_round_trip, matches_at,
    number, parse_port, pieces, port_number, same_chars, split_at_mark, string_of, text_from_utf8,
};

verus! {

/// Why a request is turned down.
#[derive(Debug, Clone, Copy, PartialEq, Eq, Structural)]
pub enum HttpRefusal {
    /// The request line is not one, or names no destination.
    BadRequest,
    /// The method is not CONNECT.
    MethodNotAllowed,
}

/// What the bytes of a request head amount to so far.
pub enum HttpRequest {
    /// This many bytes have to be read before anything can be said.
    Need(usize),
    /// The request is turned down.
    Refused(HttpRefusal),
    /// The destination that the request names.
    Complete(Target),
}

/// A request's reading by its contents.
pub enum HttpRequestView {
    Need(int),
    Refused(HttpRefusal),
    Complete(TargetView),
}

impl View for HttpRequest {
    type V = HttpRequestView;

    open spec fn view(&self) -> HttpRequestView {
        match self {
            HttpRequest::Need(n) => HttpRequestView::Need(*n as int),
            HttpRequest::Refused(e) => HttpRequestView::Refused(*e),
            HttpRequest::Complete(t) => HttpRequestView::Complete(t@),
        }
    }
}

// ── Addresses in text form ───────────────────────────────────────────────

/// The value of a text that is the decimal notation of an octet.
pub open spec fn octet_of(s: Seq<char>) -> Option<u8> {
    match port_number(s) {
        Some(n) if n < 256 && decimal(n as nat) == s => Some(n as u8),
        _ => None,
    }
}

/// The IPv4 address that a text in dotted form denotes.
pub open spec fn ipv4_of(s: Seq<char>) -> Option<Seq<u8>> {
    let p = pieces(s, '.');
    if p.len() != 4 {
        None
    } else {
        match (octet_of(p[0]), octet_of(p[1]), octet_of(p[2]), octet_of(p[3])) {
            (Some(a), Some(b), Some(c), Some(d)) => Some(seq![a, b, c, d]),
            _ => None,
        }
    }
}

/// A hexadecimal digit, small or large.
pub open spec fn is_hex(c: char) -> bool {
    '0' <= c <= '9' || 'a' <= c <= 'f' || 'A' <= c <= 'F'
}

/// The value of a hexadecimal digit.
pub open spec fn hex_digit_value(c: char) -> nat {
    if '0' <= c <= '9' {
        (c as u32 - '0' as u32) as nat
    } else if 'a' <= c <= 'f' {
        (c as u32 - 'a' as u32 + 10) as nat
    } else {
        (c as u32 - 'A' as u32 + 10) as nat
    }
}

/// The number that hexadecimal digits denote.
pub open spec fn hex_number(s: Seq<char>) -> nat
    decreases s.len(),
{
    if s.len() == 0 {
        0
    } else {
        hex_number(s.drop_last()) * 16 + hex_digit_value(s.last())
    }
}

/// The group that one to four hexadecimal digits denote.
pub open spec fn group_of(s: Seq<char>) -> Option<u16> {
    if 1 <= s.len() <= 4 && forall|i: int| 0 <= i < s.len() ==> is_hex(#[trigger] s[i]) {
        Some(hex_number(s) as u16)
    } else {
        None
    }
}

/// The bytes that the groups of an IPv6 address denote, two each; where `v4`
/// is set, the last of them may be an IPv4 address in dotted form.
pub open spec fn group_bytes(list: Seq<Seq<char>>, v4: bool) -> Option<Seq<u8>>
    decreases list.len(),
{
    if list.len() == 0 {
        Some(Seq::empty())
    } else {
        match (group_bytes(list.drop_last(), false), group_of(list.last())) {
            (Some(head), Some(n)) => Some(head + be16(n)),
            (Some(head), None) => match ipv4_of(list.last()) {
                Some(ip) if v4 => Some(head + ip),
                _ => None,
            },
            (None, _) => None,
        }
    }
}

/// The bytes that a part of an IPv6 address denotes: groups with colons
/// between them, or nothing.
pub open spec fn part_bytes(s: Seq<char>, v4: bool) -> Option<Seq<u8>> {
    if s.len() == 0 {
        Some(Seq::empty())
    } else {
        group_bytes(pieces(s, ':'), v4)
    }
}

/// Where the first two colons in a row are, from `from` on; -1 without any.
pub open spec fn gap_from(s: Seq<char>, from: int) -> int
    decreases s.len() - from,
{
    if from < 0 || from + 1 >= s.len() {
        -1
    } else if s[from] == ':' && s[from + 1] == ':' {
        from
    } else {
        gap_from(s, from + 1)
    }
}

/// The IPv6 address that a text denotes: eight groups, or fewer with a gap of
/// two colons that stands for one or more groups of zeros. The last two groups
/// may be an IPv4 address in dotted form.
pub open spec fn ipv6_of(s: Seq<char>) -> Option<Seq<u8>> {
    let gap = gap_from(s, 0);
    if gap < 0 {
        match part_bytes(s, true) {
            Some(all) if all.len() == 16 => Some(all),
            _ => None,
        }
    } else {
        match (part_bytes(s.take(gap), false), part_bytes(s.skip(gap + 2), true)) {
            (Some(head), Some(tail)) if head.len() + tail.len() <= 14 => Some(
                head + Seq::new((16 - head.len() - tail.len()) as nat, |i: int| 0u8) + tail,
            ),
            _ => None,
        }
    }
}

/// The destination that a host denotes: an address if it is one in text form,
/// else a name.
pub open spec fn host_target(host: Seq<char>, port: u16) -> TargetView {
    match (ipv4_of(host), ipv6_of(host)) {
        (Some(ip), _) => TargetView::Ipv4(ip, port),
        (None, Some(ip)) => TargetView::Ipv6(ip, port),
        (None, None) => TargetView::Domain(host, port),
    }
}

/// A host without the brackets round it.
pub open spec fn unbracketed(host: Seq<char>) -> Seq<char> {
    if host.len() > 2 && host[0] == '[' && host.last() == ']' {
        host.subrange(1, host.len() - 1)
    } else {
        host
    }
}

/// The destination that `host:port` denotes; brackets may stand round the
/// host.
pub open spec fn authority_of(s: Seq<char>) -> Option<TargetView> {
    let colon = last_mark(s, ':');
    let digits = s.skip(colon + 1);
    if colon < 1 || !all_digits(digits) || port_number(digits) is None {
        None
    } else {
        Some(host_target(unbracketed(s.take(colon)), port_number(digits)->0))
    }
}

fn parse_octet(v: &Vec<char>) -> (r: Option<u8>)
    ensures
        r == octet_of(v@),
{
    match parse_port(v) {
        Some(n) => if n < 256 && same_chars(&chars_of(decimal_of(n as u128).as_str()), v) {
            Some(n as u8)
        } else {
            None
        },
        None => None,
    }
}

fn parse_ipv4(v: &Vec<char>) -> (r: Option<[u8; 4]>)
    ensures
        match r {
            Some(ip) => ipv4_of(v@) == Some(ip@),
            None => ipv4_of(v@) is None,
        },
{
    let p = split_at_mark(v, '.');
    let ghost f = |p: Vec<char>| p@;
    assert(p@.len() == pieces(v@, '.').len());
    if p.len() != 4 {
        return None;
    }
    assert(pieces(v@, '.') == p@.map_values(f));
    assert(p@.map_values(f)[0] == p@[0]@);
    assert(p@.map_values(f)[1] == p@[1]@);
    assert(p@.map_values(f)[2] == p@[2]@);
    assert(p@.map_values(f)[3] == p@[3]@);
    match (parse_octet(&p[0]), parse_octet(&p[1]), parse_octet(&p[2]), parse_octet(&p[3])) {
        (Some(a), Some(b), Some(c), Some(d)) => {
            let ip: [u8; 4] = [a, b, c, d];
            assert(ip@ =~= seq![a, b, c, d]);
            Some(ip)
        },
        _ => None,
    }
}

fn hex_digit_of(c: char) -> (r: Option<u16>)
    ensures
        match r {
            Some(d) => is_hex(c) && d == hex_digit_value(c) && d < 16,
            None => !is_hex(c),
        },
{
    if '0' <= c && c <= '9' {
        Some((c as u32 - '0' as u32) as u16)
    } else if 'a' <= c && c <= 'f' {
        Some((c as u32 - 'a' as u32 + 10) as u16)
    } else if 'A' <= c && c <= 'F' {
        Some((c as u32 - 'A' as u32 + 10) as u16)
    } else {
        None
    }
}

fn parse_group(v: &Vec<char>) -> (r: Option<u16>)
    ensures
        r == group_of(v@),
{
    if v.len() < 1 || v.len() > 4 {
        return None;
    }
    let mut n: u32 = 0;
    let mut i: usize = 0;
    while i < v.len()
        invariant
            i <= v@.len() <= 4,
            forall|j: int| 0 <= j < i ==> is_hex(#[trigger] v@[j]),
            n == hex_number(v@.take(i as int)),
            i == 0 ==> n < 1,
            i == 1 ==> n < 0x10,
            i == 2 ==> n < 0x100,
            i == 3 ==> n < 0x1000,
            i == 4 ==> n < 0x10000,
        decreases v@.len() - i,
    {
        assert(v@.take(i + 1).drop_last() == v@.take(i as int));
        match hex_digit_of(v[i]) {
            Some(d) => {
                n = n * 16 + d as u32;
            },
            None => {
                assert(!is_hex(v@[i as int]));
                return None;
            },
        }
        i = i + 1;
    }
    assert(v@.take(i as int) == v@);
    Some(n as u16)
}

fn parse_groups(list: &Vec<Vec<char>>, upto: usize, v4: bool) -> (r: Option<Vec<u8>>)
    requires
        upto <= list@.len(),
    ensures
        opt_bytes(r) == group_bytes(list@.map_values(|p: Vec<char>| p@).take(upto as int), v4),
    decreases upto,
{
    let ghost f = |p: Vec<char>| p@;
    let ghost all = list@.map_values(f).take(upto as int);
    if upto == 0 {
        let none: Vec<u8> = Vec::new();
        assert(none@ =~= Seq::empty());
        return Some(none);
    }
    assert(all.drop_last() =~= list@.map_values(f).take(upto - 1));
    assert(all.last() == list@[upto - 1]@);
    match parse_groups(list, upto - 1, false) {
        Some(mut out) => match parse_group(&list[upto - 1]) {
            Some(n) => {
                push_port(&mut out, n);
                Some(out)
            },
            None => {
                if !v4 {
                    return None;
                }
                match parse_ipv4(&list[upto - 1]) {
                    Some(ip) => {
                        push_bytes(&mut out, &ip);
                        Some(out)
                    },
                    None => None,
                }
            },
        },
        None => None,
    }
}

fn parse_part(v: &Vec<char>, v4: bool) -> (r: Option<Vec<u8>>)
    ensures
        opt_bytes(r) == part_bytes(v@, v4),
{
    if v.len() == 0 {
        let none: Vec<u8> = Vec::new();
        assert(none@ =~= Seq::empty());
        return Some(none);
    }
    let list = split_at_mark(v, ':');
    let ghost f = |p: Vec<char>| p@;
    assert(list@.map_values(f).take(list@.len() as int) =~= pieces(v@, ':'));
    parse_groups(&list, list.len(), v4)
}

fn find_gap(v: &Vec<char>) -> (r: Option<usize>)
    ensures
        match r {
            Some(i) => i == gap_from(v@, 0) && i + 2 <= v@.len(),
            None => gap_from(v@, 0) == -1,
        },
{
    let n: usize = v.len();
    let mut i: usize = 0;
    while n >= 2 && i < n - 1
        invariant
            n == v@.len(),
            n >= 2 ==> i <= n - 1,
            n < 2 ==> i == 0,
            gap_from(v@, 0) == gap_from(v@, i as int),
        decreases n - i,
    {
        if v[i] == ':' && v[i + 1] == ':' {
            return Some(i);
        }
        i = i + 1;
    }
    None
}

fn address_of(b: &Vec<u8>) -> (r: [u8; 16])
    requires
        b@.len() == 16,
    ensures
        r@ == b@,
{
    let ip: [u8; 16] = [
        b[0],
        b[1],
        b[2],
        b[3],
        b[4],
        b[5],
        b[6],
        b[7],
        b[8],
        b[9],
        b[10],
        b[11],
        b[12],
        b[13],
        b[14],
        b[15],
    ];
    assert(ip@ =~= b@);
    ip
}

fn parse_ipv6(v: &Vec<char>) -> (r: Option<[u8; 16]>)
    ensures
        match r {
            Some(ip) => ipv6_of(v@) == Some(ip@),
            None => ipv6_of(v@) is None,
        },
{
    let n: usize = v.len();
    match find_gap(v) {
        None => match parse_part(v, true) {
            Some(all) => if all.len() == 16 {
                Some(address_of(&all))
            } else {
                None
            },
            None => None,
        },
        Some(gap) => {
            let before = copy_range(v, 0, gap);
            let after = copy_range(v, gap + 2, n);
            assert(before@ =~= v@.take(gap as int));
            assert(after@ =~= v@.skip(gap + 2));
            match (parse_part(&before, false), parse_part(&after, true)) {
                (Some(head), Some(tail)) => {
                    if head.len() > 14 || tail.len() > 14 - head.len() {
                        return None;
                    }
                    let ghost start = head@;
                    let zeros: usize = 16 - head.len() - tail.len();
                    let mut all = head;
                    let mut i: usize = 0;
                    assert(all@ =~= start + Seq::new(0, |j: int| 0u8));
                    while i < zeros
                        invariant
                            i <= zeros,
                            all@ == start + Seq::new(i as nat, |j: int| 0u8),
                        decreases zeros - i,
                    {
                        all.push(0);
                        i = i + 1;
                        assert(all@ =~= start + Seq::new(i as nat, |j: int| 0u8));
                    }
                    push_bytes(&mut all, tail.as_slice());
                    Some(address_of(&all))
                },
                _ => None,
            }
        },
    }
}

/// The contents of optional bytes.
pub open spec fn opt_bytes(b: Option<Vec<u8>>) -> Option<Seq<u8>> {
    match b {
        Some(b) => Some(b@),
        None => None,
    }
}

/// The contents of an optional destination.
pub open spec fn opt_target(t: Option<Target>) -> Option<TargetView> {
    match t {
        Some(t) => Some(t@),
        None => None,
    }
}

fn target_of_host(host: &Vec<char>, port: u16) -> (r: Target)
    ensures
        r@ == host_target(host@, port),
{
    match parse_ipv4(host) {
        Some(ip) => Target::Ipv4(ip, port),
        None => match parse_ipv6(host) {
            Some(ip) => Target::Ipv6(ip, port),
            None => Target::Domain(string_of(host), port),
        },
    }
}

/// Reads `host:port`.
pub fn parse_authority(v: &Vec<char>) -> (r: Option<Target>)
    ensures
        opt_target(r) == authority_of(v@),
{
    proof {
        lemma_last_mark(v@, ':');
    }
    let n: usize = v.len();
    match last_position(v, ':') {
        Some(colon) => {
            if colon < 1 {
                return None;
            }
            let digits = copy_range(v, colon + 1, n);
            assert(digits@ =~= v@.skip(colon + 1));
            if digits.len() > 0 && digits[0] == '+' {
                assert(!is_digit(digits@[0]));
                return None;
            }
            match parse_port(&digits) {
                Some(port) => {
                    let host = copy_range(v, 0, colon);
                    assert(host@ =~= v@.take(colon as int));
                    let len: usize = host.len();
                    let bare = if len > 2 && host[0] == '[' && host[len - 1] == ']' {
                        copy_range(&host, 1, len - 1)
                    } else {
                        host
                    };
                    Some(target_of_host(&bare, port))
                },
                None => None,
            }
        },
        None => None,
    }
}

// ── The request head ─────────────────────────────────────────────────────

/// The empty line that ends a head.
pub open spec fn head_end() -> Seq<u8> {
    seq![13u8, 10u8, 13u8, 10u8]
}

/// The bytes before the first carriage return.
pub open spec fn first_line(buf: Seq<u8>) -> Seq<u8>
    decreases buf.len(),
{
    if buf.len() == 0 || buf.first() == 13 {
        Seq::empty()
    } else {
        seq![buf.first()] + first_line(buf.drop_first())
    }
}

/// The reading of a request line: the method, the destination and the
/// version, with one blank between each two.
pub open spec fn request_line_of(line: Seq<char>) -> HttpRequestView {
    let words = pieces(line, ' ');
    if words.len() != 3 || !begins_with(words[2], "HTTP/1."@) {
        HttpRequestView::Refused(HttpRefusal::BadRequest)
    } else if words[0] != "CONNECT"@ {
        HttpRequestView::Refused(HttpRefusal::MethodNotAllowed)
    } else {
        match authority_of(words[1]) {
            Some(t) => HttpRequestView::Complete(t),
            None => HttpRequestView::Refused(HttpRefusal::BadRequest),
        }
    }
}

/// The reading of a request head: nothing before its empty line is there.
/// The bytes come one at a time, so that none after the head is taken.
pub open spec fn http_request_of(buf: Seq<u8>) -> HttpRequestView {
    if !finishes_with(buf, head_end()) {
        HttpRequestView::Need(1)
    } else if !valid_utf8(first_line(buf)) {
        HttpRequestView::Refused(HttpRefusal::BadRequest)
    } else {
        request_line_of(decode_utf8(first_line(buf)))
    }
}

fn line_bytes(buf: &Vec<u8>) -> (r: Vec<u8>)
    ensures
        r@ == first_line(buf@),
{
    let mut i: usize = 0;
    assert(buf@.skip(0) == buf@);
    assert(buf@.take(0) + first_line(buf@) =~= first_line(buf@));
    while i < buf.len() && buf[i] != 13
        invariant
            i <= buf@.len(),
            buf@.take(i as int) + first_line(buf@.skip(i as int)) == first_line(buf@),
        decreases buf@.len() - i,
    {
        assert(buf@.skip(i as int).drop_first() == buf@.skip(i + 1));
        assert(buf@.take(i + 1) + first_line(buf@.skip(i + 1)) =~= buf@.take(i as int)
            + first_line(buf@.skip(i as int)));
        i = i + 1;
    }
    assert(buf@.take(i as int) + first_line(buf@.skip(i as int)) =~= buf@.take(i as int));
    assert(buf@.take(i as int) == buf@.subrange(0, i as int));
    copy_range(buf, 0, i)
}

fn head_complete(buf: &Vec<u8>) -> (r: bool)
    ensures
        r == finishes_with(buf@, head_end()),
{
    let n: usize = buf.len();
    if n < 4 {
        return false;
    }
    let r = buf[n - 4] == 13 && buf[n - 3] == 10 && buf[n - 2] == 13 && buf[n - 1] == 10;
    proof {
        let tail = buf@.subrange(n - 4, n as int);
        if r {
            assert(tail =~= head_end());
        } else {
            assert(tail[0] == buf@[n - 4] && tail[1] == buf@[n - 3] && tail[2] == buf@[n - 2]
                && tail[3] == buf@[n - 1]);
        }
    }
    r
}

fn parse_request_line(line: &Vec<char>) -> (r: HttpRequest)
    ensures
        r@ == request_line_of(line@),
{
    let words = split_at_mark(line, ' ');
    let ghost f = |p: Vec<char>| p@;
    assert(words@.len() == pieces(line@, ' ').len());
    if words.len() != 3 {
        return HttpRequest::Refused(HttpRefusal::BadRequest);
    }
    assert(pieces(line@, ' ') == words@.map_values(f));
    assert(words@.map_values(f)[0] == words@[0]@);
    assert(words@.map_values(f)[1] == words@[1]@);
    assert(words@.map_values(f)[2] == words@[2]@);
    if !matches_at(&words[2], &chars_of("HTTP/1."), 0) {
        return HttpRequest::Refused(HttpRefusal::BadRequest);
    }
    if !same_chars(&words[0], &chars_of("CONNECT")) {
        return HttpRequest::Refused(HttpRefusal::MethodNotAllowed);
    }
    match parse_authority(&words[1]) {
        Some(t) => HttpRequest::Complete(t),
        None => HttpRequest::Refused(HttpRefusal::BadRequest),
    }
}

/// Reads an HTTP CONNECT request from the bytes that have arrived.
pub fn http_request(buf: &Vec<u8>) -> (r: HttpRequest)
    ensures
        r@ == http_request_of(buf@),
{
    if !head_complete(buf) {
        return HttpRequest::Need(1);
    }
    match text_from_utf8(line_bytes(buf)) {
        Some(line) => parse_request_line(&chars_of(line.as_str())),
        None => HttpRequest::Refused(HttpRefusal::BadRequest),
    }
}

// ── Answers ──────────────────────────────────────────────────────────────

/// The answer to a request that is turned down.
pub open spec fn refusal_text(e: HttpRefusal) -> Seq<char> {
    match e {
        HttpRefusal::BadRequest => "HTTP/1.1 400 Bad Request\r\n\r\n"@,
        HttpRefusal::MethodNotAllowed => "HTTP/1.1 405 Method Not Allowed\r\nAllow: CONNECT\r\n\r\n"@,
    }
}

/// The reason that is logged for a request that is turned down.
pub open spec fn refusal_reason(e: HttpRefusal) -> Seq<char> {
    match e {
        HttpRefusal::BadRequest => "malformed HTTP CONNECT request"@,
        HttpRefusal::MethodNotAllowed => "only CONNECT is supported"@,
    }
}

/// The reason that is logged for a request that is turned down.
pub fn refusal_message(e: HttpRefusal) -> (r: &'static str)
    ensures
        r@ == refusal_reason(e),
{
    match e {
        HttpRefusal::BadRequest => "malformed HTTP CONNECT request",
        HttpRefusal::MethodNotAllowed => "only CONNECT is supported",
    }
}

/// The answer once the tunnel stands.
pub open spec fn established_text() -> Seq<char> {
    "HTTP/1.1 200 Connection Established\r\n\r\n"@
}

/// The answer where the destination could not be reached.
pub open spec fn bad_gateway_text() -> Seq<char> {
    "HTTP/1.1 502 Bad Gateway\r\n\r\n"@
}

/// The answer to a request that is turned down.
pub fn refusal_answer(e: HttpRefusal) -> (r: Vec<u8>)
    ensures
        r@ == encode_utf8(refusal_text(e)),
{
    match e {
        HttpRefusal::BadRequest => "HTTP/1.1 400 Bad Request\r\n\r\n".as_bytes_vec(),
        HttpRefusal::MethodNotAllowed => "HTTP/1.1 405 Method Not Allowed\r\nAllow: CONNECT\r\n\r\n".as_bytes_vec(),
    }
}

/// The answer once the tunnel stands.
pub fn established_answer() -> (r: Vec<u8>)
    ensures
        r@ == encode_utf8(established_text()),
{
    "HTTP/1.1 200 Connection Established\r\n\r\n".as_bytes_vec()
}

/// The answer where the destination could not be reached.
pub fn bad_gateway_answer() -> (r: Vec<u8>)
    ensures
        r@ == encode_utf8(bad_gateway_text()),
{
    "HTTP/1.1 502 Bad Gateway\r\n\r\n".as_bytes_vec()
}

// ── Laws ─────────────────────────────────────────────────────────────────

/// The request line that asks for a host and a port.
pub open spec fn connect_line(host: Seq<char>, port: u16) -> Seq<char> {
    "CONNECT "@ + host + ":"@ + decimal(port as nat) + " HTTP/1.1"@
}

/// A request line that asks for a host and a port is read as that
/// destination: an address in text form as the address, anything else as a
/// name, in either case without brackets round it.
pub proof fn law_connect_line_is_read(host: Seq<char>, port: u16)
    requires
        host.len() > 0,
        forall|i: int| 0 <= i < host.len() ==> host[i] != ' ',
    ensures
        request_line_of(connect_line(host, port)) == HttpRequestView::Complete(
            host_target(unbracketed(host), port),
        ),
{
    reveal_strlit("CONNECT ");
    reveal_strlit("CONNECT");
    reveal_strlit(":");
    reveal_strlit(" HTTP/1.1");
    reveal_strlit("HTTP/1.1");
    reveal_strlit("HTTP/1.");
    let digits = decimal(port as nat);
    let authority = host + seq![':'] + digits;
    let line = connect_line(host, port);
    lemma_decimal_digits(port as nat);
    assert forall|i: int| 0 <= i < digits.len() implies digits[i] != ':' && digits[i] != ' ' by {
        assert(is_digit(digits[i]));
    }
    assert(line =~= "CONNECT"@ + seq![' '] + authority + seq![' '] + "HTTP/1.1"@);
    lemma_one_piece("CONNECT"@, ' ');
    lemma_more_pieces("CONNECT"@, ' ', authority);
    lemma_more_pieces("CONNECT"@ + seq![' '] + authority, ' ', "HTTP/1.1"@);
    let words = pieces(line, ' ');
    assert(words =~= seq!["CONNECT"@, authority, "HTTP/1.1"@]);
    assert("HTTP/1.1"@.subrange(0, 7) =~= "HTTP/1."@);
    lemma_last_mark_of(host, ':', digits);
    assert(authority.take(host.len() as int) =~= host);
    assert(authority.skip(host.len() as int + 1) =~= digits);
    lemma_port_round_trip(port);
}

/// Only the first line of a head counts, whatever the lines behind it; and
/// the head is complete only with its empty line.
pub proof fn law_first_line_decides(line: Seq<u8>, rest: Seq<u8>)
    requires
        forall|i: int| 0 <= i < line.len() ==> line[i] != 13,
        valid_utf8(line),
    ensures
        ({
            let head = line + seq![13u8, 10u8] + rest;
            if finishes_with(head, head_end()) {
                http_request_of(head) == request_line_of(decode_utf8(line))
            } else {
                http_request_of(head) == HttpRequestView::Need(1)
            }
        }),
{
    let head = line + seq![13u8, 10u8] + rest;
    lemma_first_line(line, seq![13u8, 10u8] + rest);
    assert(line + (seq![13u8, 10u8] + rest) =~= head);
}

proof fn lemma_first_line(line: Seq<u8>, rest: Seq<u8>)
    requires
        forall|i: int| 0 <= i < line.len() ==> line[i] != 13,
        rest.len() > 0,
        rest[0] == 13,
    ensures
        first_line(line + rest) == line,
    decreases line.len(),
{
    if line.len() == 0 {
        assert(line + rest =~= rest);
        assert(line =~= Seq::empty());
    } else {
        let tail = line.drop_first();
        assert((line + rest).drop_first() =~= tail + rest);
        assert forall|i: int| 0 <= i < tail.len() implies tail[i] != 13 by {
            assert(tail[i] == line[i + 1]);
        }
        lemma_first_line(tail, rest);
        assert(seq![line[0]] + tail =~= line);
    }
}

/// A head is complete exactly with its empty line; before that one more byte
/// is asked for, so that nothing behind the head is taken.
pub proof fn law_head_ends_with_its_empty_line(buf: Vec<u8>, r: HttpRequest)
    requires
        call_ensures(http_request, (&buf,), r),
    ensures
        ({
            let n = buf@.len() as int;
            r is Need <==> !(n >= 4 && buf@[n - 4] == 13 && buf@[n - 3] == 10 && buf@[n - 2] == 13
                && buf@[n - 1] == 10)
        }),
        r matches HttpRequest::Need(k) ==> k == 1,
{
    let n = buf@.len() as int;
    if n >= 4 {
        let tail = buf@.subrange(n - 4, n);
        assert(tail[0] == buf@[n - 4] && tail[1] == buf@[n - 3] && tail[2] == buf@[n - 2] && tail[3]
            == buf@[n - 1]);
        if buf@[n - 4] == 13 && buf@[n - 3] == 10 && buf@[n - 2] == 13 && buf@[n - 1] == 10 {
            assert(tail =~= head_end());
        }
    }
}

/// A request line in three words is turned down for its method exactly if the
/// version is one of HTTP/1 and the method is not CONNECT.
pub proof fn law_other_methods_are_refused(
    method: Seq<char>,
    target: Seq<char>,
    version: Seq<char>,
)
    requires
        forall|i: int| 0 <= i < method.len() ==> method[i] != ' ',
        forall|i: int| 0 <= i < target.len() ==> target[i] != ' ',
        forall|i: int| 0 <= i < version.len() ==> version[i] != ' ',
    ensures
        ({
            let line = method + seq![' '] + target + seq![' '] + version;
            let r = request_line_of(line);
            let known = version.len() >= 7 && version.take(7) == "HTTP/1."@;
            &&& r == HttpRequestView::Refused(HttpRefusal::MethodNotAllowed) <==> known && method
                != "CONNECT"@
            &&& !known ==> r == HttpRequestView::Refused(HttpRefusal::BadRequest)
            &&& known && method == "CONNECT"@ ==> match authority_of(target) {
                Some(t) => r == HttpRequestView::Complete(t),
                None => r == HttpRequestView::Refused(HttpRefusal::BadRequest),
            }
        }),
{
    reveal_strlit("HTTP/1.");
    let line = method + seq![' '] + target + seq![' '] + version;
    lemma_one_piece(method, ' ');
    lemma_more_pieces(method, ' ', target);
    lemma_more_pieces(method + seq![' '] + target, ' ', version);
    assert(pieces(line, ' ') =~= seq![method, target, version]);
    if version.len() >= 7 {
        assert(version.subrange(0, 7) =~= version.take(7));
    }
}

/// A line that is not three words is no request.
pub proof fn law_request_line_has_three_words(words: Seq<Seq<char>>)
    requires
        words.len() > 0,
        words.len() != 3,
        forall|i: int, j: int|
            0 <= i < words.len() && 0 <= j < words[i].len() ==> #[trigger] words[i][j] != ' ',
    ensures
        request_line_of(joined(words, seq![' '])) == HttpRequestView::Refused(
            HttpRefusal::BadRequest,
        ),
{
    law_joined_texts_are_split_again(words, ' ');
}

/// A destination is a host and a port: the port is what stands behind the last
/// colon, all of it digits; without a host, a colon, or such a port there is no
/// destination.
pub proof fn law_destination_has_a_port(host: Seq<char>, port: Seq<char>)
    requires
        forall|i: int| 0 <= i < port.len() ==> port[i] != ':',
    ensures
        ({
            let r = authority_of(host + seq![':'] + port);
            let digits = port.len() > 0 && (forall|i: int|
                0 <= i < port.len() ==> '0' <= #[trigger] port[i] <= '9');
            &&& r is Some <==> host.len() > 0 && digits && number(port) <= 65535
            &&& r matches Some(t) ==> t == host_target(unbracketed(host), number(port) as u16)
        }),
        authority_of(port) is None,
{
    let s = host + seq![':'] + port;
    lemma_last_mark_of(host, ':', port);
    assert(s.skip(host.len() as int + 1) =~= port);
    assert(s.take(host.len() as int) =~= host);
    law_port_numbers_are_digits(port);
    if forall|i: int| 0 <= i < port.len() ==> '0' <= #[trigger] port[i] <= '9' {
        assert(all_digits(port));
        if port.len() > 0 {
            assert('0' <= port[0] <= '9');
        }
    }
    if all_digits(port) {
        assert forall|i: int| 0 <= i < port.len() implies '0' <= #[trigger] port[i] <= '9' by {
            assert(is_digit(port[i]));
        }
    }
    lemma_last_mark(port, ':');
}

/// Brackets round a host are taken off, and nothing else is changed.
pub proof fn law_brackets_are_taken_off(host: Seq<char>)
    requires
        host.len() > 0,
    ensures
        unbracketed(seq!['['] + host + seq![']']) == host,
        host[0] != '[' || host.last() != ']' ==> unbracketed(host) == host,
{
    assert((seq!['['] + host + seq![']']).subrange(1, host.len() as int + 1) =~= host);
}

/// What a host is taken for keeps the port, and a name is kept as it is; it is
/// a name exactly if it is no address.
pub proof fn law_host_is_name_or_address(host: Seq<char>, port: u16)
    ensures
        match host_target(host, port) {
            TargetView::Ipv4(ip, p) => p == port && ip.len() == 4 && ipv4_of(host) == Some(ip),
            TargetView::Ipv6(ip, p) => p == port && ip.len() == 16 && ipv6_of(host) == Some(ip)
                && ipv4_of(host) is None,
            TargetView::Domain(name, p) => p == port && name == host && ipv4_of(host) is None
                && ipv6_of(host) is None,
        },
{
}

/// The characters that addresses in text form are made of.
pub open spec fn is_address_char(c: char) -> bool {
    '0' <= c <= '9' || 'a' <= c <= 'f' || 'A' <= c <= 'F' || c == '.' || c == ':'
}

/// Every character of a text is one of those.
pub open spec fn all_address_chars(s: Seq<char>) -> bool {
    forall|i: int| 0 <= i < s.len() ==> is_address_char(#[trigger] s[i])
}

proof fn lemma_joined_address_chars(list: Seq<Seq<char>>, mark: char)
    requires
        is_address_char(mark),
        forall|i: int| 0 <= i < list.len() ==> all_address_chars(#[trigger] list[i]),
    ensures
        all_address_chars(joined(list, seq![mark])),
    decreases list.len(),
{
    let s = joined(list, seq![mark]);
    if list.len() == 1 {
        assert(all_address_chars(list[0]));
    } else if list.len() > 1 {
        let head = list.drop_last();
        assert forall|i: int| 0 <= i < head.len() implies all_address_chars(#[trigger] head[i]) by {
            assert(all_address_chars(list[i]));
        }
        lemma_joined_address_chars(head, mark);
        let h = joined(head, seq![mark]);
        assert(all_address_chars(list[list.len() - 1]));
        assert forall|i: int| 0 <= i < s.len() implies is_address_char(#[trigger] s[i]) by {
            if i < h.len() {
                assert(s[i] == h[i]);
            } else if i > h.len() {
                assert(s[i] == list.last()[i - h.len() - 1]);
            }
        }
    }
}

proof fn lemma_ipv4_chars(s: Seq<char>)
    requires
        ipv4_of(s) is Some,
    ensures
        all_address_chars(s),
{
    let p = pieces(s, '.');
    law_pieces_make_up_the_text(s, '.');
    assert forall|i: int| 0 <= i < p.len() implies all_address_chars(#[trigger] p[i]) by {
        let n = octet_of(p[i])->0;
        assert(octet_of(p[i]) is Some);
        lemma_decimal_digits(n as nat);
        assert(decimal(n as nat) == p[i]);
        assert forall|j: int| 0 <= j < p[i].len() implies is_address_char(#[trigger] p[i][j]) by {
            assert(is_digit(decimal(n as nat)[j]));
        }
    }
    lemma_joined_address_chars(p, '.');
}

proof fn lemma_group_chars(list: Seq<Seq<char>>, v4: bool)
    requires
        group_bytes(list, v4) is Some,
    ensures
        forall|i: int| 0 <= i < list.len() ==> all_address_chars(#[trigger] list[i]),
    decreases list.len(),
{
    if list.len() > 0 {
        let head = list.drop_last();
        lemma_group_chars(head, false);
        let last = list.last();
        if group_of(last) is None {
            lemma_ipv4_chars(last);
        } else {
            assert forall|j: int| 0 <= j < last.len() implies is_address_char(#[trigger] last[j]) by {
                assert(is_hex(last[j]));
            }
        }
        assert forall|i: int| 0 <= i < list.len() implies all_address_chars(#[trigger] list[i]) by {
            if i < head.len() {
                assert(head[i] == list[i]);
            }
        }
    }
}

proof fn lemma_part_chars(s: Seq<char>, v4: bool)
    requires
        part_bytes(s, v4) is Some,
    ensures
        all_address_chars(s),
{
    if s.len() > 0 {
        lemma_group_chars(pieces(s, ':'), v4);
        law_pieces_make_up_the_text(s, ':');
        lemma_joined_address_chars(pieces(s, ':'), ':');
    }
}

proof fn lemma_gap(s: Seq<char>, from: int)
    requires
        0 <= from,
    ensures
        gap_from(s, from) == -1 ==> forall|i: int|
            from <= i < s.len() - 1 ==> !(#[trigger] s[i] == ':' && s[i + 1] == ':'),
        gap_from(s, from) != -1 ==> from <= gap_from(s, from) < s.len() - 1 && s[gap_from(s, from)]
            == ':' && s[gap_from(s, from) + 1] == ':' && forall|i: int|
            from <= i < gap_from(s, from) ==> !(#[trigger] s[i] == ':' && s[i + 1] == ':'),
    decreases s.len() - from,
{
    if from + 1 < s.len() && !(s[from] == ':' && s[from + 1] == ':') {
        lemma_gap(s, from + 1);
    }
}

/// A host with any character that no address holds is a name, and is kept as
/// it is.
pub proof fn law_letters_make_a_name(host: Seq<char>, port: u16, i: int)
    requires
        0 <= i < host.len(),
        !is_address_char(host[i]),
    ensures
        host_target(host, port) == TargetView::Domain(host, port),
{
    if ipv4_of(host) is Some {
        lemma_ipv4_chars(host);
    }
    if ipv6_of(host) is Some {
        let gap = gap_from(host, 0);
        lemma_gap(host, 0);
        if gap < 0 {
            lemma_part_chars(host, true);
        } else {
            lemma_part_chars(host.take(gap), false);
            lemma_part_chars(host.skip(gap + 2), true);
            if i < gap {
                assert(host.take(gap)[i] == host[i]);
            } else if i >= gap + 2 {
                assert(host.skip(gap + 2)[i - gap - 2] == host[i]);
            }
        }
    }
}

/// The answers, as they go out.
pub proof fn law_answers_as_sent(
    e: HttpRefusal,
    refused: Vec<u8>,
    up: Vec<u8>,
    down: Vec<u8>,
    reason: &'static str,
)
    requires
        call_ensures(refusal_message, (e,), reason),
        call_ensures(refusal_answer, (e,), refused),
        call_ensures(established_answer, (), up),
        call_ensures(bad_gateway_answer, (), down),
    ensures
        e == HttpRefusal::BadRequest ==> refused@ == encode_utf8(
            "HTTP/1.1 400 Bad Request\r\n\r\n"@,
        ),
        e == HttpRefusal::MethodNotAllowed ==> refused@ == encode_utf8(
            "HTTP/1.1 405 Method Not Allowed\r\nAllow: CONNECT\r\n\r\n"@,
        ),
        up@ == encode_utf8("HTTP/1.1 200 Connection Established\r\n\r\n"@),
        down@ == encode_utf8("HTTP/1.1 502 Bad Gateway\r\n\r\n"@),
        reason@ == (if e == HttpRefusal::BadRequest {
            "malformed HTTP CONNECT request"@
        } else {
            "only CONNECT is supported"@
        }),
{
}

/// What the program reads from a head, and from `host:port`, is what the laws
/// of the request speak of.
pub proof fn law_heads_are_the_laws(
    buf: Vec<u8>,
    r: HttpRequest,
    text: Vec<char>,
    target: Option<Target>,
)
    requires
        call_ensures(http_request, (&buf,), r),
        call_ensures(parse_authority, (&text,), target),
    ensures
        r@ == http_request_of(buf@),
        target is Some <==> authority_of(text@) is Some,
        target matches Some(t) ==> authority_of(text@) == Some(t@),
{
}

/// A group is one to four hexadecimal digits, small or large; its value grows
/// sixteenfold with each digit.
pub proof fn law_groups(s: Seq<char>, c: char)
    requires
        forall|i: int| 0 <= i < s.len() ==> is_hex(#[trigger] s[i]),
        is_hex(c),
    ensures
        group_of(s) is Some <==> 1 <= s.len() <= 4,
        hex_number(s.push(c)) == 16 * hex_number(s) + hex_digit_value(c),
        hex_number(Seq::<char>::empty()) == 0,
        '0' <= c <= '9' ==> hex_digit_value(c) == c as u32 - 48,
        'a' <= c <= 'f' ==> hex_digit_value(c) == c as u32 - 97 + 10,
        'A' <= c <= 'F' ==> hex_digit_value(c) == c as u32 - 65 + 10,
        s.len() <= 4 ==> (group_of(s) matches Some(n) ==> n == hex_number(s)),
{
    assert(s.push(c).drop_last() =~= s);
    if 1 <= s.len() <= 4 {
        lemma_hex_number_fits(s);
    }
}

proof fn lemma_hex_number_fits(s: Seq<char>)
    requires
        s.len() <= 4,
        forall|i: int| 0 <= i < s.len() ==> is_hex(#[trigger] s[i]),
    ensures
        s.len() == 0 ==> hex_number(s) == 0,
        s.len() == 1 ==> hex_number(s) < 0x10,
        s.len() == 2 ==> hex_number(s) < 0x100,
        s.len() == 3 ==> hex_number(s) < 0x1000,
        s.len() == 4 ==> hex_number(s) < 0x10000,
    decreases s.len(),
{
    if s.len() > 0 {
        let head = s.drop_last();
        assert forall|i: int| 0 <= i < head.len() implies is_hex(#[trigger] head[i]) by {
            assert(head[i] == s[i]);
        }
        lemma_hex_number_fits(head);
        assert(is_hex(s[s.len() - 1]));
    }
}

/// One part that is neither a group nor, at the end, an IPv4 address spoils
/// the whole.
pub proof fn law_one_bad_group_spoils_all(list: Seq<Seq<char>>, v4: bool, i: int)
    requires
        0 <= i < list.len(),
        group_of(list[i]) is None,
        i < list.len() - 1 || !v4 || ipv4_of(list[i]) is None,
    ensures
        group_bytes(list, v4) is None,
    decreases list.len(),
{
    if i < list.len() - 1 {
        law_one_bad_group_spoils_all(list.drop_last(), false, i);
    }
}

/// The hexadecimal digits are the ten digits and six letters in either case.
pub proof fn law_hexadecimal_digits(c: char)
    ensures
        is_hex(c) <==> 48 <= c as u32 <= 57 || 65 <= c as u32 <= 70 || 97 <= c as u32 <= 102,
{
}

} // verus!
