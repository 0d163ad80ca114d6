//! The routing decision, the SOCKS5 and HTTP wire formats, and the client
//! session.
use jumphost::config::route_label_for_host;
use jumphost::config_file::{DomainsConfig, FileConfig};
use jumphost::domains::domain_matches;
use jumphost::http_connect::{
    bad_gateway_answer, established_answer, http_request, parse_authority, refusal_answer,
    HttpRefusal, HttpRequest,
};
use jumphost::routing::{
    direct_reply, failure_reply, rep_for_io_error, route_for, upstream_error, upstream_reply,
    ClientSession, ClientStep, IoErrorKind, Protocol, Route,
};
use jumphost::socks::{
    client_greeting, client_request, connect_reply, connect_request, socks5_reply,
    socks5_reply_with_bind, EncodeError, Endpoint, Greeting, Handshake, HandshakeError, Reply,
    Request, RequestError, Step, Target, ATYP_IPV4, ATYP_IPV6, REP_CONN_REFUSED,
    REP_GENERAL_FAILURE, REP_HOST_UNREACHABLE, REP_NET_UNREACHABLE, REP_SUCCESS, SOCKS_VERSION,
};

fn with_domains(proxy: &[&str], direct: &[&str]) -> FileConfig {
    let owned = |list: &[&str]| Some(list.iter().map(|s| s.to_string()).collect());
    FileConfig {
        domains: Some(DomainsConfig { proxy: owned(proxy), direct: owned(direct) }),
        ..FileConfig::default()
    }
}

fn domain(name: &str, port: u16) -> Target {
    Target::Domain(name.to_string(), port)
}

// ── Domains and routes ──────────────────────────────────────────────────

#[test]
fn test_domain_matches_exact() {
    assert!(domain_matches("example.com", "example.com"));
    assert!(domain_matches("EXAMPLE.COM", "example.com"));
    assert!(domain_matches("example.com", "EXAMPLE.COM"));
}

#[test]
fn test_domain_matches_subdomain() {
    assert!(domain_matches("foo.example.com", "example.com"));
    assert!(domain_matches("a.b.example.com", "example.com"));
    assert!(domain_matches("FOO.EXAMPLE.COM", "example.com"));
}

#[test]
fn test_domain_no_match() {
    assert!(!domain_matches("notexample.com", "example.com"));
    assert!(!domain_matches("xexample.com", "example.com"));
    assert!(!domain_matches("other.com", "example.com"));
}

#[test]
fn test_route_ipv4_always_direct() {
    let cfg = FileConfig::default();
    let target = Target::Ipv4([10, 0, 0, 1], 22);
    assert_eq!(route_for(&cfg, &target), Route::Direct);
}

#[test]
fn test_route_ipv6_always_direct() {
    let cfg = FileConfig::default();
    let mut localhost = [0u8; 16];
    localhost[15] = 1;
    let target = Target::Ipv6(localhost, 22);
    assert_eq!(route_for(&cfg, &target), Route::Direct);
}

#[test]
fn test_route_unknown_domain_direct() {
    let cfg = FileConfig::default();
    let target = domain("google.com", 443);
    assert_eq!(route_for(&cfg, &target), Route::Direct);
}

#[test]
fn direct_list_is_checked_before_the_proxy_list() {
    let cfg = with_domains(&["example.com"], &["vpn.example.com"]);
    assert_eq!(route_for(&cfg, &domain("git.example.com", 443)), Route::Upstream);
    assert_eq!(route_for(&cfg, &domain("vpn.example.com", 443)), Route::Direct);
    assert_eq!(route_for(&cfg, &domain("a.VPN.example.com", 443)), Route::Direct);
    assert_eq!(route_for(&cfg, &domain("example.org", 443)), Route::Direct);
    assert_eq!(route_label_for_host(&cfg, "git.example.com"), "tunnel");
    assert_eq!(route_label_for_host(&cfg, "vpn.example.com"), "direct");
    assert_eq!(route_label_for_host(&cfg, "example.org"), "direct");
}

#[test]
fn raw_addresses_stay_direct_even_if_listed() {
    let cfg = with_domains(&["10.0.0.1"], &[]);
    assert_eq!(route_for(&cfg, &Target::Ipv4([10, 0, 0, 1], 22)), Route::Direct);
    assert_eq!(route_for(&cfg, &domain("10.0.0.1", 22)), Route::Upstream);
}

// ── Destinations as text ────────────────────────────────────────────────

#[test]
fn test_target_display() {
    assert_eq!(domain("foo.example.com", 443).to_text(), "foo.example.com:443");
    assert_eq!(Target::Ipv4([10, 0, 0, 1], 22).to_text(), "10.0.0.1:22");
    let mut localhost = [0u8; 16];
    localhost[15] = 1;
    assert_eq!(Target::Ipv6(localhost, 80).to_text(), "[::1]:80");
}

#[test]
fn ipv6_text_agrees_with_the_standard_library() {
    let samples: [[u16; 8]; 9] = [
        [0, 0, 0, 0, 0, 0, 0, 0],
        [0x2001, 0xdb8, 0, 0, 0, 0, 0, 1],
        [0x2001, 0xdb8, 0, 1, 0, 0, 0, 1],
        [1, 0, 0, 2, 0, 0, 3, 4],
        [1, 0, 2, 0, 3, 0, 4, 0],
        [0xfe80, 0, 0, 0, 0xabcd, 0xef01, 0x2345, 0x6789],
        [0, 0, 0, 0, 0, 0xffff, 0x7f00, 1],
        [0, 0, 0, 0, 0, 0, 0x7f00, 1],
        [1, 2, 3, 4, 5, 6, 0, 0],
    ];
    for groups in samples {
        let ip = core::net::Ipv6Addr::from(groups);
        let text = Target::Ipv6(ip.octets(), 7).to_text();
        assert_eq!(text, format!("[{ip}]:7"));
    }
}

// ── Replies ─────────────────────────────────────────────────────────────

#[test]
fn test_socks5_reply_structure() {
    let reply = socks5_reply(REP_SUCCESS);
    assert_eq!(reply[0], SOCKS_VERSION);
    assert_eq!(reply[1], REP_SUCCESS);
    assert_eq!(reply[2], 0x00);
    assert_eq!(reply[3], ATYP_IPV4);
    assert_eq!(reply.len(), 10);
}

#[test]
fn test_socks5_reply_with_bind_v4() {
    let addr = Endpoint::V4([127, 0, 0, 1], 8080);
    let reply = socks5_reply_with_bind(REP_SUCCESS, addr);
    assert_eq!(reply[0], SOCKS_VERSION);
    assert_eq!(reply[1], REP_SUCCESS);
    assert_eq!(reply[3], ATYP_IPV4);
    assert_eq!(&reply[4..8], &[127, 0, 0, 1]);
    assert_eq!(&reply[8..10], &8080u16.to_be_bytes());
}

#[test]
fn reply_with_an_ipv6_address_has_its_length() {
    let reply = socks5_reply_with_bind(REP_SUCCESS, Endpoint::V6([7; 16], 0x1234));
    assert_eq!(reply.len(), 22);
    assert_eq!(reply[3], ATYP_IPV6);
    assert_eq!(&reply[4..20], &[7; 16]);
    assert_eq!(&reply[20..], &[0x12, 0x34]);
}

#[test]
fn connection_failures_have_their_codes() {
    let code = rep_for_io_error;
    assert_eq!(code(IoErrorKind::ConnectionRefused, None), REP_CONN_REFUSED);
    assert_eq!(code(IoErrorKind::ConnectionRefused, Some(101)), REP_CONN_REFUSED);
    assert_eq!(code(IoErrorKind::AddrNotAvailable, None), REP_HOST_UNREACHABLE);
    assert_eq!(code(IoErrorKind::ConnectionReset, None), REP_HOST_UNREACHABLE);
    assert_eq!(code(IoErrorKind::TimedOut, None), REP_HOST_UNREACHABLE);
    assert_eq!(code(IoErrorKind::Other, Some(101)), REP_NET_UNREACHABLE);
    assert_eq!(code(IoErrorKind::Other, Some(51)), REP_NET_UNREACHABLE);
    assert_eq!(code(IoErrorKind::Other, Some(2)), REP_GENERAL_FAILURE);
    assert_eq!(code(IoErrorKind::Other, None), REP_GENERAL_FAILURE);
}

// ── Greetings and requests ──────────────────────────────────────────────

#[test]
fn greeting_is_read_byte_by_byte() {
    let whole = vec![5u8, 2, 1, 0];
    assert_eq!(client_greeting(&vec![]), Greeting::Need(1));
    assert_eq!(client_greeting(&whole[..1].to_vec()), Greeting::Need(1));
    assert_eq!(client_greeting(&whole[..2].to_vec()), Greeting::Need(2));
    assert_eq!(client_greeting(&whole[..3].to_vec()), Greeting::Need(1));
    assert_eq!(client_greeting(&whole), Greeting::Accepted);
    assert_eq!(client_greeting(&vec![5, 1, 2]), Greeting::NoMethod);
    assert_eq!(client_greeting(&vec![5, 0]), Greeting::NoMethod);
    assert_eq!(client_greeting(&vec![4]), Greeting::BadVersion);
}

#[test]
fn request_for_a_name_is_read() {
    let mut bytes = vec![5u8, 1, 0, 3, 11];
    bytes.extend_from_slice(b"example.com");
    bytes.extend_from_slice(&443u16.to_be_bytes());
    for k in 0..bytes.len() {
        match client_request(&bytes[..k].to_vec()) {
            Request::Need(n) => assert!(n >= 1 && k + n <= bytes.len()),
            _ => panic!("incomplete after {k} bytes"),
        }
    }
    match client_request(&bytes) {
        Request::Complete(Target::Domain(name, port)) => {
            assert_eq!(name, "example.com");
            assert_eq!(port, 443);
        }
        _ => panic!("not read"),
    }
}

#[test]
fn requests_for_addresses_are_read() {
    match client_request(&vec![5, 1, 0, 1, 10, 0, 0, 1, 0, 22]) {
        Request::Complete(Target::Ipv4(ip, port)) => {
            assert_eq!(ip, [10, 0, 0, 1]);
            assert_eq!(port, 22);
        }
        _ => panic!("not read"),
    }
    let mut bytes = vec![5u8, 1, 0, 4];
    bytes.extend_from_slice(&[9; 16]);
    bytes.extend_from_slice(&[1, 2]);
    match client_request(&bytes) {
        Request::Complete(Target::Ipv6(ip, port)) => {
            assert_eq!(ip, [9; 16]);
            assert_eq!(port, 0x0102);
        }
        _ => panic!("not read"),
    }
}

#[test]
fn bad_requests_are_told_apart() {
    let error = |bytes: Vec<u8>| match client_request(&bytes) {
        Request::Refused(e) => e,
        _ => panic!("not refused"),
    };
    assert!(error(vec![4]) == RequestError::BadVersion);
    assert!(error(vec![5, 2, 0, 1]) == RequestError::NotConnect);
    assert!(error(vec![5, 1, 0, 9]) == RequestError::BadAddressType);
    assert!(error(vec![5, 1, 0, 3, 0]) == RequestError::EmptyDomain);
    assert!(error(vec![5, 1, 0, 3, 2, 0xc3, 0x28]) == RequestError::DomainNotUtf8);
}

#[test]
fn request_with_a_non_ascii_name_is_decoded() {
    let mut bytes = vec![5u8, 1, 0, 3, 6];
    bytes.extend_from_slice("bücher"[..6].as_bytes());
    bytes.extend_from_slice(&[0, 80]);
    match client_request(&bytes) {
        Request::Complete(Target::Domain(name, 80)) => assert_eq!(name, "büche"),
        _ => panic!("not read"),
    }
}

// ── The handshake with another server ───────────────────────────────────

#[test]
fn handshake_sends_the_name_and_ends_with_the_reply() {
    let mut h = Handshake::new(domain("db.internal", 5432));
    match h.turn(&vec![]) {
        Step::Send(b) => assert_eq!(b, [5, 1, 0]),
        _ => panic!("greeting expected"),
    }
    assert!(matches!(h.turn(&vec![]), Step::Read(2)));
    match h.turn(&vec![5, 0]) {
        Step::Send(b) => {
            let mut want = vec![5u8, 1, 0, 3, 11];
            want.extend_from_slice(b"db.internal");
            want.extend_from_slice(&5432u16.to_be_bytes());
            assert_eq!(b, want);
        }
        _ => panic!("request expected"),
    }
    assert!(matches!(h.turn(&vec![]), Step::Read(4)));
    assert!(matches!(h.turn(&vec![5, 0, 0, 1]), Step::Read(6)));
    match h.turn(&vec![1, 2, 3, 4, 5, 6]) {
        Step::Connected(reply) => assert_eq!(reply, [5, 0, 0, 1, 1, 2, 3, 4, 5, 6]),
        _ => panic!("connection expected"),
    }
}

#[test]
fn handshake_failures_are_told_apart() {
    let mut h = Handshake::new(domain("x", 1));
    h.turn(&vec![]);
    assert!(matches!(h.turn(&vec![5, 255]), Step::Failed(HandshakeError::Greeting(5, 255))));

    let mut h = Handshake::new(Target::Ipv4([1, 2, 3, 4], 1));
    h.turn(&vec![]);
    assert!(matches!(h.turn(&vec![5, 0]), Step::Failed(HandshakeError::NotADomain)));

    let mut h = Handshake::new(domain(&"a".repeat(256), 1));
    h.turn(&vec![]);
    assert!(matches!(h.turn(&vec![5, 0]), Step::Failed(HandshakeError::DomainTooLong)));

    let mut h = Handshake::new(domain("x", 1));
    h.turn(&vec![]);
    h.turn(&vec![5, 0]);
    assert!(matches!(h.turn(&vec![5, 0, 0, 9]), Step::Failed(HandshakeError::BadAddressType(9))));

    let mut h = Handshake::new(domain("x", 1));
    h.turn(&vec![]);
    h.turn(&vec![5, 0]);
    let refused = h.turn(&vec![5, 4, 0, 1, 0, 0, 0, 0, 0, 0]);
    assert!(matches!(refused, Step::Failed(HandshakeError::Refused(4))));
}

#[test]
fn reply_with_a_name_is_read_to_its_end() {
    let mut reply = vec![5u8, 0, 0, 3, 4];
    reply.extend_from_slice(b"host");
    reply.extend_from_slice(&[0, 1]);
    assert!(connect_reply(&vec![5, 0]) == Reply::Need(2));
    assert!(connect_reply(&reply[..4].to_vec()) == Reply::Need(1));
    assert!(connect_reply(&reply[..5].to_vec()) == Reply::Need(6));
    assert!(connect_reply(&reply) == Reply::Connected(11));
}

#[test]
fn own_replies_are_understood() {
    let at = Endpoint::V6([1; 16], 2);
    assert_eq!(connect_reply(&socks5_reply_with_bind(REP_SUCCESS, at)), Reply::Connected(22));
    assert_eq!(connect_reply(&direct_reply(Protocol::Socks5, None)), Reply::Connected(10));
    for code in 1..=8 {
        assert_eq!(connect_reply(&socks5_reply(code).to_vec()), Reply::Failed(code));
    }
    let down = failure_reply(Protocol::Socks5, IoErrorKind::Other, Some(101));
    assert_eq!(connect_reply(&down), Reply::Failed(REP_NET_UNREACHABLE));
}

#[test]
fn tunnelled_names_are_forwarded_unchanged() {
    let cfg = with_domains(&["internal"], &[]);
    let mut request = vec![5u8, 1, 0, 3, 11];
    request.extend_from_slice(b"db.internal");
    request.extend_from_slice(&[1, 2]);
    let mut s = ClientSession::new();
    s.turn(&vec![5, 1, 0], &cfg);
    let target = match s.turn(&request, &cfg) {
        ClientStep::Dial(target, Route::Upstream, Protocol::Socks5) => target,
        _ => panic!("tunnel expected"),
    };
    let mut h = Handshake::new(target);
    h.turn(&vec![]);
    match h.turn(&vec![5, 0]) {
        Step::Send(bytes) => assert_eq!(bytes, request),
        _ => panic!("request expected"),
    }
}

#[test]
fn only_names_of_up_to_255_bytes_are_encoded() {
    assert!(connect_request(&domain(&"a".repeat(255), 1)).is_ok());
    assert!(matches!(connect_request(&domain(&"ä".repeat(128), 1)), Err(EncodeError::DomainTooLong)));
    assert!(matches!(connect_request(&Target::Ipv4([0; 4], 1)), Err(EncodeError::NotADomain)));
}

#[test]
fn upstream_errors_have_their_words() {
    assert_eq!(
        upstream_error(HandshakeError::Greeting(5, 0xff)),
        "upstream SOCKS5 greeting failed: got 05 ff"
    );
    assert_eq!(
        upstream_error(HandshakeError::NotADomain),
        "upstream routing requires a domain target"
    );
    assert_eq!(upstream_error(HandshakeError::DomainTooLong), "domain name exceeds 255 bytes");
    assert_eq!(
        upstream_error(HandshakeError::BadAddressType(9)),
        "upstream returned unsupported ATYP: 0x09"
    );
    assert_eq!(
        upstream_error(HandshakeError::Refused(4)),
        "upstream SOCKS5 CONNECT failed with REP=0x04"
    );
}

// ── The client session ──────────────────────────────────────────────────

#[test]
fn socks_session_leads_to_the_destination() {
    let cfg = with_domains(&["internal"], &[]);
    let mut s = ClientSession::new();
    assert!(matches!(s.turn(&vec![], &cfg), ClientStep::Read(1)));
    assert!(matches!(s.turn(&vec![5], &cfg), ClientStep::Read(1)));
    assert!(matches!(s.turn(&vec![1], &cfg), ClientStep::Read(1)));
    match s.turn(&vec![0], &cfg) {
        ClientStep::Write(b) => assert_eq!(b, [5, 0]),
        _ => panic!("answer expected"),
    }
    let mut request = vec![5u8, 1, 0, 3, 11];
    request.extend_from_slice(b"db.internal");
    request.extend_from_slice(&5432u16.to_be_bytes());
    match s.turn(&request, &cfg) {
        ClientStep::Dial(Target::Domain(name, port), route, protocol) => {
            assert_eq!(name, "db.internal");
            assert_eq!(port, 5432);
            assert_eq!(route, Route::Upstream);
            assert_eq!(protocol, Protocol::Socks5);
        }
        _ => panic!("destination expected"),
    }
}

#[test]
fn refused_clients_are_answered() {
    let cfg = FileConfig::default();
    let refusal = |chunks: &[&[u8]]| {
        let mut s = ClientSession::new();
        for chunk in chunks {
            if let ClientStep::Refuse(bytes, why) = s.turn(&chunk.to_vec(), &cfg) {
                return (bytes, why);
            }
        }
        panic!("not refused")
    };
    let general = socks5_reply(REP_GENERAL_FAILURE).to_vec();
    assert_eq!(refusal(&[&[4]]), (general.clone(), "unsupported SOCKS version"));
    assert_eq!(refusal(&[&[5, 1, 2]]), (vec![5, 0xff], "no acceptable auth method"));
    let hello: &[u8] = &[5, 1, 0];
    assert_eq!(refusal(&[hello, &[4]]), (general.clone(), "bad SOCKS version in request"));
    assert_eq!(
        refusal(&[hello, &[5, 2, 0, 1]]),
        (socks5_reply(7).to_vec(), "only CONNECT is supported")
    );
    assert_eq!(refusal(&[hello, &[5, 1, 0, 3, 0]]), (general, "empty domain name"));
    assert_eq!(
        refusal(&[hello, &[5, 1, 0, 3, 1, 0xff]]),
        (vec![], "domain name is not valid UTF-8")
    );
    assert_eq!(
        refusal(&[hello, &[5, 1, 0, 2]]),
        (socks5_reply(8).to_vec(), "unsupported address type")
    );
}

#[test]
fn http_session_leads_to_the_destination() {
    let cfg = with_domains(&["internal"], &[]);
    let mut s = ClientSession::new();
    let head = b"CONNECT db.internal:5432 HTTP/1.1\r\nHost: db.internal:5432\r\n\r\n";
    for (i, byte) in head.iter().enumerate() {
        match s.turn(&vec![*byte], &cfg) {
            ClientStep::Read(n) => {
                assert_eq!(n, 1);
                assert!(i + 1 < head.len());
            }
            ClientStep::Dial(Target::Domain(name, port), route, protocol) => {
                assert_eq!(i + 1, head.len());
                assert_eq!((name.as_str(), port), ("db.internal", 5432));
                assert_eq!((route, protocol), (Route::Upstream, Protocol::HttpConnect));
            }
            _ => panic!("unexpected step at byte {i}"),
        }
    }
}

#[test]
fn http_requests_are_told_apart() {
    let read = |text: &str| http_request(&text.as_bytes().to_vec());
    assert!(matches!(read("CONNECT a:1 HTTP/1.1\r\n"), HttpRequest::Need(1)));
    assert!(matches!(
        read("GET http://a/ HTTP/1.1\r\n\r\n"),
        HttpRequest::Refused(HttpRefusal::MethodNotAllowed)
    ));
    for bad in [
        "CONNECT a:1\r\n\r\n",
        "CONNECT a HTTP/1.1\r\n\r\n",
        "CONNECT :1 HTTP/1.1\r\n\r\n",
        "CONNECT a:+1 HTTP/1.1\r\n\r\n",
        "CONNECT a:65536 HTTP/1.1\r\n\r\n",
        "CONNECT a:1 HTTP/2\r\n\r\n",
    ] {
        assert!(
            matches!(read(bad), HttpRequest::Refused(HttpRefusal::BadRequest)),
            "{bad}"
        );
    }
    let raw = [b"CONNECT \xff:1 HTTP/1.1\r\n\r\n".as_slice()].concat();
    assert!(matches!(http_request(&raw), HttpRequest::Refused(HttpRefusal::BadRequest)));
}

#[test]
fn authorities_are_read() {
    let read = |text: &str| parse_authority(&text.chars().collect());
    assert!(matches!(read("10.0.0.1:22"), Some(Target::Ipv4([10, 0, 0, 1], 22))));
    let mut localhost = [0u8; 16];
    localhost[15] = 1;
    for text in ["[::1]:443", "::1:443", "[0:0::1]:443"] {
        match read(text) {
            Some(Target::Ipv6(ip, 443)) => assert_eq!(ip, localhost),
            _ => panic!("{text} not read"),
        }
    }
    assert!(matches!(read("[10.0.0.1]:22"), Some(Target::Ipv4([10, 0, 0, 1], 22))));
    match read("[host]:443") {
        Some(Target::Domain(name, 443)) => assert_eq!(name, "host"),
        _ => panic!("not read"),
    }
    match read("10.0.0.256:22") {
        Some(Target::Domain(name, 22)) => assert_eq!(name, "10.0.0.256"),
        _ => panic!("not read"),
    }
    match read("10.0.0.01:22") {
        Some(Target::Domain(name, 22)) => assert_eq!(name, "10.0.0.01"),
        _ => panic!("not read"),
    }
}

#[test]
fn ipv6_literals_are_read_as_by_the_standard_library() {
    for text in [
        "::",
        "::1",
        "1::",
        "1:2:3:4:5:6:7:8",
        "1:2:3:4:5:6:7::",
        "::2:3:4:5:6:7:8",
        "1::8",
        "FE80::ABcd",
        "2001:db8::1:0:0:1",
        "::ffff:127.0.0.1",
        "1:2:3:4:5:6:127.0.0.1",
        "::127.0.0.1",
        "1:2:3:4:5::127.0.0.1",
        // None of these is one.
        "",
        ":",
        ":::",
        "1:",
        ":1",
        "1::2::3",
        "1:2:3:4:5:6:7",
        "1:2:3:4:5:6:7:8:9",
        "1:2:3:4::5:6:7:8",
        "::12345",
        "::g",
        "1:2:3:4:5:6:7:127.0.0.1",
        "127.0.0.1::",
        "::127.0.0.1:1",
        "::127.0.0.01",
        "::1%eth0",
    ] {
        let std: Option<core::net::Ipv6Addr> = text.parse().ok();
        let read = parse_authority(&format!("[{text}]:7").chars().collect());
        match (std, read) {
            (Some(want), Some(Target::Ipv6(ip, 7))) => assert_eq!(ip, want.octets(), "{text}"),
            (None, Some(Target::Domain(_, 7))) => {}
            _ => panic!("{text}"),
        }
    }
}

#[test]
fn http_addresses_are_direct() {
    let cfg = with_domains(&["1", "::1", "10.0.0.1"], &[]);
    for host in ["[::1]", "10.0.0.1", "[10.0.0.1]"] {
        let mut s = ClientSession::new();
        let head = format!("CONNECT {host}:443 HTTP/1.1\r\n\r\n");
        match s.turn(&head.into_bytes(), &cfg) {
            ClientStep::Dial(_, route, _) => assert_eq!(route, Route::Direct, "{host}"),
            _ => panic!("{host} not read"),
        }
    }
}

#[test]
fn clients_are_told_the_outcome_in_their_protocol() {
    let at = Endpoint::V4([1, 2, 3, 4], 5);
    assert_eq!(direct_reply(Protocol::Socks5, Some(at)), [5, 0, 0, 1, 1, 2, 3, 4, 0, 5]);
    assert_eq!(direct_reply(Protocol::Socks5, None), [5, 0, 0, 1, 0, 0, 0, 0, 0, 0]);
    assert_eq!(
        direct_reply(Protocol::HttpConnect, None),
        b"HTTP/1.1 200 Connection Established\r\n\r\n"
    );
    assert_eq!(established_answer(), direct_reply(Protocol::HttpConnect, Some(at)));
    assert_eq!(upstream_reply(Protocol::Socks5, vec![5, 0, 9]), [5, 0, 9]);
    assert_eq!(upstream_reply(Protocol::HttpConnect, vec![5, 0, 9]), established_answer());
    assert_eq!(
        failure_reply(Protocol::Socks5, IoErrorKind::ConnectionRefused, None),
        [5, 5, 0, 1, 0, 0, 0, 0, 0, 0]
    );
    assert_eq!(
        failure_reply(Protocol::HttpConnect, IoErrorKind::TimedOut, None),
        bad_gateway_answer()
    );
    assert_eq!(bad_gateway_answer(), b"HTTP/1.1 502 Bad Gateway\r\n\r\n");
    assert_eq!(
        refusal_answer(HttpRefusal::MethodNotAllowed),
        b"HTTP/1.1 405 Method Not Allowed\r\nAllow: CONNECT\r\n\r\n"
    );
    assert_eq!(refusal_answer(HttpRefusal::BadRequest), b"HTTP/1.1 400 Bad Request\r\n\r\n");
}
