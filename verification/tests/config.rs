//! Settings, paths, credentials and probe targets.
use jumphost::config::{
    cfg_string, cfg_u16, cfg_u32, chromium_path, config_credentials, cookie_check_interval,
    cookie_file_path, default_browser_profile_dir, direct_domains, env_vpn_credentials,
    no_headless, probe_hosts_from_config, probe_retries, probe_timeout, proxy_domains,
    read_secret_file, serve_pac, state_dir, vpn_credentials, VpnCredentials,
};
use jumphost::config_file::{
    config_file_path, load, set_path, CredentialsConfig, DomainsConfig, FileConfig, LoadNote,
    LoadOutcome, PacServerConfig, ProbeConfig, RoutingProxyConfig,
};
use jumphost::probe::{
    after_attempt, exchange_error, parse_probe_target, probe_error, probe_handshake, probe_targets, ProbeResult,
    ProbeRun, ProbeStep, ProbeTarget,
};
use jumphost::socks::{Handshake, HandshakeError, Step};
use jumphost::test_tunnel::{
    chosen_retries, chosen_timeout, not_probed_exit_code, passed, preflight, resolve_targets,
    result_line, shown_lines, tunnel_exit_code, tunnel_report, NotProbed, TestTunnelArgs,
};

fn some(s: &str) -> Option<String> {
    Some(s.to_string())
}

fn pair(c: Option<VpnCredentials>) -> Option<(String, String)> {
    c.map(|c| (c.username, c.password))
}

fn creds(u: &str, p: &str) -> Option<VpnCredentials> {
    Some(VpnCredentials { username: u.to_string(), password: p.to_string() })
}

// ── Settings ────────────────────────────────────────────────────────────

#[test]
fn empty_configuration_has_the_defaults() {
    let cfg = FileConfig::default();
    assert_eq!(cfg_string(&cfg, "VPN_URL", ""), "");
    assert_eq!(cfg_u16(&cfg, "SOCKS_PORT", 1080), 1080);
    assert_eq!(cfg_u32(&cfg, "OCPROXY_KEEPALIVE", 60), 60);
    assert!(proxy_domains(&cfg).is_empty());
    assert!(direct_domains(&cfg).is_empty());
    assert!(!no_headless(&cfg));
    assert!(!serve_pac(&cfg));
    assert_eq!(cookie_check_interval(&cfg), 300_000_000_000);
    assert_eq!(chromium_path(&cfg), None);
    assert_eq!(probe_hosts_from_config(&cfg), None);
    assert_eq!(probe_timeout(&cfg), 10);
    assert_eq!(probe_retries(&cfg), 0);
}

#[test]
fn configured_values_win_over_defaults() {
    let cfg = FileConfig {
        vpn_url: some("https://vpn.example.com"),
        vpn_protocol: some("anyconnect"),
        socks_port: Some(2080),
        ocproxy_keepalive: Some(30),
        no_headless: Some(true),
        serve_pac: Some(true),
        chromium_path: some("/usr/bin/chromium"),
        routing_proxy: Some(RoutingProxyConfig { bind: some("0.0.0.0"), port: Some(2081) }),
        pac_server: Some(PacServerConfig { bind: some("::1"), port: Some(9000) }),
        domains: Some(DomainsConfig {
            proxy: Some(vec!["a".to_string()]),
            direct: Some(vec!["b".to_string(), "c".to_string()]),
        }),
        ..FileConfig::default()
    };
    assert_eq!(cfg_string(&cfg, "VPN_URL", "x"), "https://vpn.example.com");
    assert_eq!(cfg_string(&cfg, "VPN_PROTOCOL", "f5"), "anyconnect");
    assert_eq!(cfg_string(&cfg, "ROUTING_PROXY_BIND", "x"), "0.0.0.0");
    assert_eq!(cfg_string(&cfg, "PAC_SERVE_BIND", "x"), "::1");
    assert_eq!(cfg_string(&cfg, "OTHER", "x"), "x");
    assert_eq!(cfg_u16(&cfg, "SOCKS_PORT", 1), 2080);
    assert_eq!(cfg_u16(&cfg, "ROUTING_PROXY_PORT", 1), 2081);
    assert_eq!(cfg_u16(&cfg, "PAC_SERVE_PORT", 1), 9000);
    assert_eq!(cfg_u16(&cfg, "OTHER", 1), 1);
    assert_eq!(cfg_u32(&cfg, "OCPROXY_KEEPALIVE", 1), 30);
    assert_eq!(cfg_u32(&cfg, "OTHER", 1), 1);
    assert!(no_headless(&cfg));
    assert!(serve_pac(&cfg));
    assert_eq!(chromium_path(&cfg), some("/usr/bin/chromium"));
    assert_eq!(proxy_domains(&cfg), ["a"]);
    assert_eq!(direct_domains(&cfg), ["b", "c"]);
}

#[test]
fn intervals_and_timeouts_have_a_lower_bound() {
    let cfg = FileConfig {
        check_interval: Some(1),
        probe: Some(ProbeConfig { hosts: None, timeout_secs: Some(0), retries: Some(2) }),
        ..FileConfig::default()
    };
    assert_eq!(cookie_check_interval(&cfg), 1_000_000_000);
    assert_eq!(probe_timeout(&cfg), 1);
    assert_eq!(probe_retries(&cfg), 2);
    let cfg = FileConfig { check_interval: Some(2_500_000_000), ..FileConfig::default() };
    assert_eq!(cookie_check_interval(&cfg), 2_500_000_000);
}

// ── Paths ───────────────────────────────────────────────────────────────

#[test]
fn state_paths_follow_the_environment() {
    let dir = state_dir(&some("/x"), &some("/home/u"));
    assert_eq!(dir, "/x/vpn-jumphost");
    assert_eq!(cookie_file_path(&dir), "/x/vpn-jumphost/cookie");
    assert_eq!(default_browser_profile_dir(&dir), "/x/vpn-jumphost/chromium-profile");
    assert_eq!(state_dir(&some(""), &some("/home/u")), "/home/u/.local/state/vpn-jumphost");
    assert_eq!(state_dir(&None, &some("/home/u")), "/home/u/.local/state/vpn-jumphost");
}

#[test]
fn config_path_is_resolved_in_order() {
    let home = some("/home/u");
    assert_eq!(config_file_path(&some("/etc/j.toml"), &some("/x"), &home), "/etc/j.toml");
    assert_eq!(config_file_path(&None, &some("/x"), &home), "/x/vpn-jumphost/config.toml");
    assert_eq!(
        config_file_path(&None, &some(""), &home),
        "/home/u/.config/vpn-jumphost/config.toml"
    );
    assert_eq!(config_file_path(&None, &None, &None), ".config/vpn-jumphost/config.toml");
}

#[test]
fn first_chosen_path_stays() {
    let mut chosen = None;
    set_path(&mut chosen, "/a".to_string());
    set_path(&mut chosen, "/b".to_string());
    assert_eq!(chosen, some("/a"));
}

#[test]
fn unusable_configuration_files_are_ignored() {
    let cfg = FileConfig { socks_port: Some(7), ..FileConfig::default() };
    let (used, note) = load(LoadOutcome::Parsed(cfg), true);
    assert_eq!((used.socks_port, note), (Some(7), LoadNote::Loaded));
    let note = |outcome, explicit| {
        let (used, note) = load(outcome, explicit);
        assert_eq!(used.socks_port, None);
        note
    };
    assert_eq!(note(LoadOutcome::Malformed, false), LoadNote::Malformed);
    let missing = |m| LoadOutcome::Unreadable { missing: m };
    assert_eq!(note(missing(true), true), LoadNote::ChosenUnreadable);
    assert_eq!(note(missing(true), false), LoadNote::Silent);
    assert_eq!(note(missing(false), false), LoadNote::DefaultUnreadable);
}

// ── Credentials ─────────────────────────────────────────────────────────

#[test]
fn environment_credentials_need_both() {
    assert_eq!(
        pair(env_vpn_credentials(some("u"), some("p"))),
        Some(("u".to_string(), "p".to_string()))
    );
    assert!(env_vpn_credentials(some("u"), None).is_none());
    assert!(env_vpn_credentials(some(""), some("p")).is_none());
    assert!(env_vpn_credentials(some("u"), some("")).is_none());
}

#[test]
fn secret_files_are_trimmed() {
    assert_eq!(read_secret_file(some("  s3cret\u{a0}\n")), some("s3cret"));
    assert_eq!(read_secret_file(some(" \n\t")), None);
    assert_eq!(read_secret_file(None), None);
}

#[test]
fn credentials_table_takes_files_and_values() {
    let table = |c: CredentialsConfig| FileConfig { credentials: Some(c), ..FileConfig::default() };
    let both_files = table(CredentialsConfig {
        username: None,
        password: None,
        username_file: some("/u"),
        password_file: some("/p"),
    });
    assert_eq!(
        pair(config_credentials(&both_files, some("user\n"), some("pass\n"))),
        Some(("user".to_string(), "pass".to_string()))
    );
    assert!(config_credentials(&both_files, some("user"), None).is_none());
    let mixed = table(CredentialsConfig {
        username: some("user@example.com"),
        password: None,
        username_file: None,
        password_file: some("/p"),
    });
    assert_eq!(
        pair(config_credentials(&mixed, None, some("pass"))),
        Some(("user@example.com".to_string(), "pass".to_string()))
    );
    assert!(config_credentials(&FileConfig::default(), some("u"), some("p")).is_none());
}

#[test]
fn credential_sources_are_never_mixed() {
    let ring = Some(("ru".to_string(), "rp".to_string()));
    let pick = |c| pair(c).map(|(u, _)| u);
    assert_eq!(pick(vpn_credentials(creds("eu", "ep"), ring.clone(), creds("tu", "tp"))), some("eu"));
    assert_eq!(pick(vpn_credentials(None, ring, creds("tu", "tp"))), some("ru"));
    let half = Some(("ru".to_string(), String::new()));
    assert_eq!(pick(vpn_credentials(None, half, creds("tu", "tp"))), some("tu"));
    assert!(vpn_credentials(None, None, None).is_none());
}

// ── Probe targets ───────────────────────────────────────────────────────

#[test]
fn parse_host_only_defaults_port() {
    let t = parse_probe_target("example.com", 443).unwrap();
    assert_eq!(t.host, "example.com");
    assert_eq!(t.port, 443);
}

#[test]
fn parse_host_with_port() {
    let t = parse_probe_target("example.com:8443", 443).unwrap();
    assert_eq!(t.host, "example.com");
    assert_eq!(t.port, 8443);
}

#[test]
fn parse_ipv6_with_port() {
    let t = parse_probe_target("[::1]:443", 443).unwrap();
    assert_eq!(t.host, "::1");
    assert_eq!(t.port, 443);
}

#[test]
fn parse_empty_returns_none() {
    assert!(parse_probe_target("", 443).is_none());
    assert!(parse_probe_target("  ", 443).is_none());
}

#[test]
fn probe_targets_empty_without_config() {
    assert!(probe_targets(&FileConfig::default()).is_empty());
}

#[test]
fn odd_targets_are_read_as_far_as_they_go() {
    let read = |s: &str| parse_probe_target(s, 443).map(|t| (t.host, t.port));
    let is = |h: &str, p: u16| Some((h.to_string(), p));
    assert_eq!(read("[::1]"), is("::1", 443));
    assert_eq!(read("[::1]:x"), is("::1", 443));
    assert_eq!(read("[::1]:99999"), is("::1", 443));
    assert_eq!(read("[::1]:+80"), is("::1", 80));
    assert_eq!(read("[::1"), None);
    assert_eq!(read("host:"), None);
    assert_eq!(read("host:99999"), None);
    assert_eq!(read("host:x"), is("host:x", 443));
    assert_eq!(read(":80"), is(":80", 443));
    assert_eq!(read(" a.b:80 "), is("a.b", 80));
}

#[test]
fn targets_survive_being_shown() {
    for (host, port) in [("example.com", 1), ("a.b", 65535), ("10.0.0.1", 22)] {
        let t = ProbeTarget { host: host.to_string(), port };
        let back = parse_probe_target(&t.display(), 443).unwrap();
        assert_eq!(back, t);
    }
}

#[test]
fn targets_come_from_the_command_line_or_the_file() {
    let cfg = FileConfig {
        probe: Some(ProbeConfig {
            hosts: Some(vec!["a:1".to_string(), "  ".to_string(), "b".to_string()]),
            timeout_secs: None,
            retries: None,
        }),
        ..FileConfig::default()
    };
    let shown = |list: Vec<ProbeTarget>| list.iter().map(|t| t.display()).collect::<Vec<_>>();
    assert_eq!(shown(resolve_targets(&cfg, &vec![])), ["a:1", "b:443"]);
    assert_eq!(shown(resolve_targets(&cfg, &vec!["c:3".to_string()])), ["c:3"]);
    assert!(resolve_targets(&cfg, &vec![" ".to_string()]).is_empty());
}

#[test]
fn failing_probes_are_repeated() {
    let t = ProbeTarget { host: "a".to_string(), port: 1 };
    let fail = || Err("no".to_string());
    assert!(matches!(after_attempt(&t, 0, 2, fail()), ProbeStep::Retry));
    assert!(matches!(after_attempt(&t, 1, 2, fail()), ProbeStep::Retry));
    match after_attempt(&t, 2, 2, fail()) {
        ProbeStep::Finished(r) => {
            assert!(!r.ok);
            assert_eq!(r.error, some("no"));
            assert_eq!(r.latency_ms, 0);
        }
        ProbeStep::Retry => panic!("no attempt is left"),
    }
    match after_attempt(&t, 0, 2, Ok(12)) {
        ProbeStep::Finished(r) => {
            assert!(r.ok);
            assert_eq!((r.latency_ms, r.error), (12, None));
            assert_eq!(r.target, t);
        }
        ProbeStep::Retry => panic!("it succeeded"),
    }
}

#[test]
fn every_target_gets_its_result() {
    let target = |host: &str| ProbeTarget { host: host.to_string(), port: 22 };
    let fail = |e: &str| Err(e.to_string());
    let mut run = ProbeRun::new(vec![target("a"), target("b"), target("c")], 1);
    for (host, outcome) in [
        ("a", fail("one")),
        ("a", Ok(7)),
        ("b", fail("two")),
        ("b", fail("three")),
        ("c", Ok(9)),
    ] {
        assert_eq!(run.next(), Some(&target(host)));
        run.turn(outcome);
    }
    assert_eq!(run.next(), None);
    run.turn(Ok(1));
    let all = run.results();
    let seen: Vec<_> = all
        .iter()
        .map(|r| (r.target.host.as_str(), r.ok, r.latency_ms, r.error.as_deref()))
        .collect();
    assert_eq!(
        seen,
        vec![("a", true, 7, None), ("b", false, 0, Some("three")), ("c", true, 9, None)]
    );
    assert_eq!(ProbeRun::new(Vec::new(), 5).next(), None);
}

#[test]
fn probes_ask_for_the_name() {
    let mut h = probe_handshake(&ProbeTarget { host: "a".to_string(), port: 258 });
    h.turn(&vec![]);
    match h.turn(&vec![5, 0]) {
        Step::Send(b) => assert_eq!(b, [5, 1, 0, 3, 1, b'a', 1, 2]),
        _ => panic!("request expected"),
    }
    assert_eq!(probe_error(HandshakeError::Greeting(4, 1)), "SOCKS5 greeting failed: got 04 01");
    assert_eq!(probe_error(HandshakeError::DomainTooLong), "domain name exceeds 255 bytes");
    assert_eq!(
        probe_error(HandshakeError::BadAddressType(2)),
        "SOCKS5 reply used unsupported ATYP: 0x02"
    );
    assert_eq!(
        probe_error(HandshakeError::Refused(5)),
        "SOCKS5 CONNECT failed with REP=0x05"
    );
}

#[test]
fn exchanges_have_their_words() {
    let mut h = probe_handshake(&ProbeTarget { host: "a".to_string(), port: 1 });
    let mut said = vec![];
    let mut say = |h: &Handshake, sending| {
        let x = h.exchange(sending);
        said.push((exchange_error(x, None), exchange_error(x, Some("e"))));
    };
    h.turn(&vec![]);
    say(&h, true);
    h.turn(&vec![]);
    say(&h, false);
    h.turn(&vec![5, 0]);
    say(&h, true);
    h.turn(&vec![]);
    say(&h, false);
    h.turn(&vec![5, 0, 0, 3]);
    say(&h, false);
    h.turn(&vec![1]);
    say(&h, false);
    let want = [
        ("timed out during SOCKS5 greeting", "SOCKS5 greeting write failed: e"),
        ("timed out waiting for SOCKS5 greeting reply", "SOCKS5 greeting read failed: e"),
        ("timed out sending SOCKS5 CONNECT", "SOCKS5 CONNECT write failed: e"),
        ("timed out waiting for SOCKS5 CONNECT reply", "SOCKS5 CONNECT read failed: e"),
        ("timed out reading SOCKS5 reply domain length", "SOCKS5 reply read failed: e"),
        ("timed out reading SOCKS5 reply bind address", "SOCKS5 reply read failed: e"),
    ];
    for ((timeout, failure), (t, f)) in said.iter().zip(want) {
        assert_eq!((timeout.as_str(), failure.as_str()), (t, f));
    }
}

// ── The tunnel test ─────────────────────────────────────────────────────

fn result(ok: bool) -> ProbeResult {
    ProbeResult {
        target: ProbeTarget { host: "git.example.com".to_string(), port: 443 },
        ok,
        latency_ms: if ok { 42 } else { 0 },
        error: if ok { None } else { some("timed out") },
    }
}

#[test]
fn arguments_win_over_the_configuration() {
    let args = |timeout, retries| TestTunnelArgs {
        hosts: vec![],
        timeout,
        retries,
        require_any: false,
        quiet: false,
    };
    let cfg = FileConfig {
        probe: Some(ProbeConfig { hosts: None, timeout_secs: Some(7), retries: Some(3) }),
        ..FileConfig::default()
    };
    assert_eq!(chosen_timeout(&cfg, &args(0, 0)), 7);
    assert_eq!(chosen_retries(&cfg, &args(0, 0)), 3);
    assert_eq!(chosen_timeout(&cfg, &args(2, 1)), 2);
    assert_eq!(chosen_retries(&cfg, &args(2, 1)), 1);
}

#[test]
fn probing_needs_a_proxy_and_targets() {
    assert_eq!(preflight(false, true, 1), Some(NotProbed::BadAddress));
    assert_eq!(preflight(true, false, 0), Some(NotProbed::ProxyDown));
    assert_eq!(preflight(true, true, 0), Some(NotProbed::NoTargets));
    assert_eq!(preflight(true, true, 1), None);
    assert_eq!(not_probed_exit_code(NotProbed::BadAddress), 2);
    assert_eq!(not_probed_exit_code(NotProbed::ProxyDown), 2);
    assert_eq!(not_probed_exit_code(NotProbed::NoTargets), 1);
    assert_eq!(tunnel_exit_code(true), 0);
    assert_eq!(tunnel_exit_code(false), 1);
}

#[test]
fn all_probes_must_pass_unless_one_will_do() {
    let mixed = vec![result(true), result(false)];
    assert_eq!(passed(&mixed), 1);
    let strict = tunnel_report(&mixed, false, false);
    assert!(!strict.success);
    assert_eq!(strict.summary, "test-tunnel: 1/2 probes passed");
    let lax = tunnel_report(&mixed, true, true);
    assert!(lax.success);
    assert_eq!(lax.summary, "test-tunnel: ok (1/2)");
    let none = tunnel_report(&vec![result(false)], true, true);
    assert!(!none.success);
    assert_eq!(none.summary, "test-tunnel: FAIL (0/1)");
    assert!(tunnel_report(&vec![result(true)], false, true).success);
}

#[test]
fn quiet_runs_show_failures_only() {
    let cfg = FileConfig::default();
    let first = ProbeResult { error: some("first"), ..result(false) };
    let results = vec![first, result(true), result(false)];
    let all = shown_lines(&cfg, &results, false);
    assert_eq!(all.len(), 3);
    for (line, r) in all.iter().zip(&results) {
        assert_eq!(*line, result_line(&cfg, r));
    }
    let quiet = shown_lines(&cfg, &results, true);
    assert_eq!(quiet, [all[0].clone(), all[2].clone()]);
    assert!(shown_lines(&cfg, &vec![result(true)], true).is_empty());
}

#[test]
fn result_lines_are_aligned() {
    let cfg = FileConfig {
        domains: Some(DomainsConfig { proxy: Some(vec!["example.com".to_string()]), direct: None }),
        ..FileConfig::default()
    };
    assert_eq!(
        result_line(&cfg, &result(true)),
        format!("  [ok  ]  {:<40} {:<7} 42ms", "git.example.com:443", "tunnel")
    );
    assert_eq!(
        result_line(&FileConfig::default(), &result(false)),
        format!("  [FAIL]  {:<40} {:<7} timed out", "git.example.com:443", "direct")
    );
    let unknown = ProbeResult { error: None, ..result(false) };
    assert!(result_line(&cfg, &unknown).ends_with(" unknown error"));
}
