//! The health check, logs, commands, and the text functions beneath them.
use jumphost::commands::{
    deauthenticated, input_error, refresh_token, typed_password, typed_username, InputError,
    Removal, NO_CREDENTIALS,
};
use jumphost::config_file::{DomainsConfig, FileConfig};
use jumphost::cookie::CookieStatus;
use jumphost::credential_store::{
    delete_error, delete_succeeded, get_credentials, read_entry, DeleteOutcome,
};
use jumphost::doctor::{
    check_cookie, config_has_proxy_dns, config_has_socks_upstream, find_proxychains_binary,
    find_proxychains_config, has_failed, proxychains_candidates, run, validate_proxychains_config,
    Findings, FoundConfig, Line, ListenersUp, Status,
};
use jumphost::logging::{default_filter, use_color};
use jumphost::logs::{
    detached_log_path, run_file_logs, run_systemd_logs, select_auto_source,
    select_auto_source_from_state, status_to_exit_code, systemd_user_service_known,
    systemd_user_service_loaded, LogSource, LogsArgs, LogsError, SourceState,
};
use jumphost::search::{first_there, search_candidates, which};
use jumphost::text::{decimal_of, is_white, join_path, left_align, right_align, trim};

fn strings(list: &[&str]) -> Vec<String> {
    list.iter().map(|s| s.to_string()).collect()
}

fn some(s: &str) -> Option<String> {
    Some(s.to_string())
}

// ── proxychains ─────────────────────────────────────────────────────────

#[test]
fn detects_proxy_dns() {
    let conf = "strict_chain\nproxy_dns\n[ProxyList]\nsocks5 127.0.0.1 1081\n";
    assert!(config_has_proxy_dns(conf));
}

#[test]
fn ignores_commented_proxy_dns() {
    let conf = "# proxy_dns\nstrict_chain\n";
    assert!(!config_has_proxy_dns(conf));
}

#[test]
fn detects_socks_upstream() {
    let conf = "[ProxyList]\nsocks5 127.0.0.1 1081\n";
    assert!(config_has_socks_upstream(conf, 1081));
    assert!(!config_has_socks_upstream(conf, 1080));
}

#[test]
fn settings_ignore_case_comments_and_line_ends() {
    assert!(config_has_proxy_dns("  Proxy_DNS # remote\r\n"));
    assert!(!config_has_proxy_dns("proxy_dns_old\n"));
    assert!(config_has_socks_upstream("SOCKS5\t127.0.0.1 1081\r\n", 1081));
    assert!(!config_has_socks_upstream("socks4 127.0.0.1 1081", 1081));
    assert!(!config_has_socks_upstream("socks5 # 127.0.0.1 1081", 1081));
    assert!(!config_has_socks_upstream("socks5 10.0.0.1 1081", 1081));
}

#[test]
fn upstream_needs_the_whole_address_and_port() {
    assert!(!config_has_socks_upstream("socks5 127.0.0.1 10810\n", 1081));
    assert!(!config_has_socks_upstream("socks5 127.0.0.1 21081\n", 1081));
    assert!(!config_has_socks_upstream("socks5 127.0.0.11 1081\n", 1081));
    assert!(!config_has_socks_upstream("socks5 1081 127.0.0.1\n", 1081));
    assert!(!config_has_socks_upstream("socks5 127.0.0.1\n", 1081));
    assert!(config_has_socks_upstream("socks5 127.0.0.1:1081\n", 1081));
    assert!(config_has_socks_upstream("socks5 127.0.0.1 01081\n", 1081));
    assert!(!config_has_socks_upstream("socks5 127.0.0.1 1081x\n", 1081));
    assert!(config_has_socks_upstream("\tsocks5   127.0.0.1\t1081 user pass\n", 1081));
    assert!(config_has_socks_upstream("socks5 127.0.0.1 10810\nsocks5 127.0.0.1 1081", 1081));
}

#[test]
fn proxychains_problems_are_told_apart() {
    let check = |c| validate_proxychains_config(c, 1081);
    assert_eq!(check(None), Err("unreadable"));
    assert_eq!(check(Some("socks5 127.0.0.1 1081")), Err("missing proxy_dns"));
    assert_eq!(
        check(Some("proxy_dns")),
        Err("missing socks5 127.0.0.1 routing proxy port")
    );
    assert_eq!(check(Some("proxy_dns\nsocks5 127.0.0.1 1081")), Ok(()));
}

#[test]
fn proxychains_is_looked_for_in_order() {
    let dirs = strings(&["/a", "/b/"]);
    assert_eq!(
        proxychains_candidates(&dirs),
        [
            "/a/proxychains4",
            "/b/proxychains4",
            "/a/proxychains",
            "/b/proxychains",
            "/a/proxychains-ng",
            "/b/proxychains-ng",
        ]
    );
    let there = vec![false, false, false, true, true, false];
    assert_eq!(find_proxychains_binary(&dirs, &there), some("/b/proxychains"));
    assert_eq!(find_proxychains_binary(&dirs, &vec![false; 6]), None);
    assert_eq!(
        find_proxychains_config(&some("/env.conf"), &some("/home/u")),
        ["/env.conf", "/home/u/.proxychains/proxychains.conf", "/etc/proxychains4.conf"]
    );
    assert_eq!(find_proxychains_config(&None, &None), ["/etc/proxychains4.conf"]);
}

// ── The health check ────────────────────────────────────────────────────

fn healthy() -> (Findings, FileConfig) {
    let findings = Findings {
        config_path: "/c.toml".to_string(),
        config_is_file: true,
        credentials: true,
        cookie_path: "/cookie".to_string(),
        cookie: Some(CookieStatus::Valid),
        up: ListenersUp { routing: true, socks: true, pac: true },
        proxychains: some("/bin/proxychains4"),
        proxychains_config: Some(FoundConfig {
            path: "/p.conf".to_string(),
            contents: some("proxy_dns\nsocks5 127.0.0.1 1081\n"),
        }),
    };
    let cfg = FileConfig {
        vpn_url: some("https://vpn"),
        serve_pac: Some(true),
        domains: Some(DomainsConfig { proxy: Some(strings(&["a", "b"])), direct: None }),
        ..FileConfig::default()
    };
    (findings, cfg)
}

fn shown(lines: &[Line]) -> Vec<String> {
    lines.iter().map(|l| l.to_text()).collect()
}

#[test]
fn healthy_setup_passes() {
    let (f, cfg) = healthy();
    let lines = run(&f, &cfg);
    assert!(!has_failed(&lines));
    let row = |label: &str, detail: &str| format!("  [ok  ]  {label:<22} {detail}");
    assert_eq!(
        shown(&lines),
        [
            row("config file", "/c.toml"),
            row("vpn_url", "https://vpn"),
            row("domains.proxy", "a, b"),
            row("credentials", "configured"),
            row("cookie", "/cookie"),
            row("routing proxy", "127.0.0.1:1081"),
            row("ocproxy (VPN)", "127.0.0.1:1080"),
            row("PAC server", "http://127.0.0.1:8091"),
            row("proxychains", "/bin/proxychains4"),
            row("proxychains config", "/p.conf"),
        ]
    );
}

#[test]
fn broken_setup_is_explained() {
    let (mut f, _) = healthy();
    f.config_is_file = false;
    f.credentials = false;
    f.cookie = Some(CookieStatus::Invalid);
    f.up = ListenersUp { routing: false, socks: false, pac: false };
    f.proxychains_config = None;
    let lines = run(&f, &FileConfig::default());
    assert!(has_failed(&lines));
    let row = |tag: &str, label: &str, detail: &str| format!("  [{tag}]  {label:<22} {detail}");
    assert_eq!(
        shown(&lines),
        [
            row("FAIL", "config file", "missing: /c.toml"),
            row("FAIL", "vpn_url", "not set in config"),
            row("FAIL", "domains.proxy", "empty — add VPN domain suffixes (e.g. vito.local)"),
            row("warn", "credentials", "not found — run: jumphost authenticate"),
            row("FAIL", "cookie", "invalid or expired (/cookie)"),
            row("FAIL", "routing proxy", "not listening on 127.0.0.1:1081 — start jumphost"),
            row(
                "warn",
                "ocproxy (VPN)",
                "not listening on 127.0.0.1:1080 — tunnel may still be starting"
            ),
            row("ok  ", "proxychains", "/bin/proxychains4"),
            row("warn", "proxychains config", "not found — run: just proxychains-setup"),
        ]
    );
}

#[test]
fn only_critical_checks_fail() {
    let warn_only = |change: &dyn Fn(&mut Findings)| {
        let (mut f, cfg) = healthy();
        change(&mut f);
        let lines = run(&f, &cfg);
        assert!(lines.iter().any(|l| l.status == Status::Warn));
        assert!(!has_failed(&lines));
    };
    warn_only(&|f| f.credentials = false);
    warn_only(&|f| f.cookie = None);
    warn_only(&|f| f.cookie = Some(CookieStatus::NetworkError));
    warn_only(&|f| f.up.socks = false);
    warn_only(&|f| f.up.pac = false);
    warn_only(&|f| f.proxychains = None);
    warn_only(&|f| f.proxychains_config.as_mut().unwrap().contents = None);
    let (mut f, cfg) = healthy();
    f.up.routing = false;
    assert!(has_failed(&run(&f, &cfg)));
}

#[test]
fn cookie_findings_have_their_words() {
    let mut lines = vec![];
    check_cookie(&mut lines, "/c", None);
    check_cookie(&mut lines, "/c", Some(CookieStatus::NetworkError));
    assert_eq!(lines[0].detail, "missing: /c");
    assert_eq!(lines[1].detail, "could not reach VPN endpoint to validate");
}

// ── Logs ────────────────────────────────────────────────────────────────

#[test]
fn auto_prefers_known_systemd_service_over_detached_log() {
    let source = select_auto_source_from_state(SourceState {
        systemd_service_known: true,
        journalctl_available: true,
        detached_log_exists: true,
        launchd_log_exists: true,
    });

    assert_eq!(source, Some(LogSource::Systemd));
}

#[test]
fn auto_uses_detached_log_before_launchd_log() {
    let source = select_auto_source_from_state(SourceState {
        systemd_service_known: false,
        journalctl_available: true,
        detached_log_exists: true,
        launchd_log_exists: true,
    });

    assert_eq!(source, Some(LogSource::Detached));
}

#[test]
fn auto_falls_back_to_journalctl_without_known_logs() {
    let source = select_auto_source_from_state(SourceState {
        systemd_service_known: false,
        journalctl_available: true,
        detached_log_exists: false,
        launchd_log_exists: false,
    });

    assert_eq!(source, Some(LogSource::Systemd));
}

#[test]
fn auto_returns_none_without_available_sources() {
    let source = select_auto_source_from_state(SourceState {
        systemd_service_known: false,
        journalctl_available: false,
        detached_log_exists: false,
        launchd_log_exists: false,
    });

    assert_eq!(source, None);
}

#[test]
fn launchd_log_and_explicit_choice_are_taken() {
    let state = SourceState {
        systemd_service_known: false,
        journalctl_available: true,
        detached_log_exists: false,
        launchd_log_exists: true,
    };
    assert_eq!(select_auto_source(LogSource::Auto, state), Some(LogSource::Launchd));
    assert_eq!(select_auto_source(LogSource::Detached, state), Some(LogSource::Detached));
}

#[test]
fn log_commands_are_spelled_out() {
    let args = LogsArgs { follow: true, lines: 100, source: LogSource::Auto };
    let quiet = LogsArgs { follow: false, ..args.clone() };
    let c = run_systemd_logs(&args, true).unwrap();
    assert_eq!(c.program, "journalctl");
    assert_eq!(
        c.args,
        ["--user", "-u", "vpn-jumphost.service", "-n", "100", "--no-pager", "-f"]
    );
    assert_eq!(run_systemd_logs(&quiet, true).unwrap().args.len(), 6);
    assert_eq!(run_systemd_logs(&args, false).unwrap_err(), LogsError::NoJournalctl);
    let c = run_file_logs(&args, "/l", true, true).unwrap();
    assert_eq!(c.program, "tail");
    assert_eq!(c.args, ["-n", "100", "-f", "/l"]);
    assert_eq!(run_file_logs(&quiet, "/l", true, true).unwrap().args, ["-n", "100", "/l"]);
    assert_eq!(run_file_logs(&args, "/l", false, true).unwrap_err(), LogsError::NoFile);
    assert_eq!(run_file_logs(&args, "/l", true, false).unwrap_err(), LogsError::NoTail);
    assert_eq!(detached_log_path("/s"), "/s/jumphost.log");
}

#[test]
fn exit_codes_fit_a_byte() {
    assert_eq!(status_to_exit_code(Some(0)), 0);
    assert_eq!(status_to_exit_code(Some(3)), 3);
    assert_eq!(status_to_exit_code(Some(-5)), 1);
    assert_eq!(status_to_exit_code(Some(1000)), 255);
    assert_eq!(status_to_exit_code(None), 1);
}

#[test]
fn known_services_are_active_or_loaded() {
    assert!(systemd_user_service_loaded(Some("loaded\n")));
    assert!(!systemd_user_service_loaded(Some("not-found\n")));
    assert!(!systemd_user_service_loaded(Some("\n")));
    assert!(!systemd_user_service_loaded(None));
    assert!(systemd_user_service_known(true, true, false));
    assert!(systemd_user_service_known(true, false, true));
    assert!(!systemd_user_service_known(true, false, false));
    assert!(!systemd_user_service_known(false, true, true));
}

#[test]
fn logging_follows_flags_and_environment() {
    assert_eq!(default_filter(true), "debug,chromiumoxide=error");
    assert_eq!(default_filter(false), "info,chromiumoxide=error");
    assert!(!use_color(true, Some("1"), true));
    assert!(use_color(false, Some("1"), false));
    assert!(!use_color(false, Some("0"), false));
    assert!(!use_color(false, Some(""), false));
    assert!(use_color(false, None, true));
}

// ── Credentials and commands ────────────────────────────────────────────

#[test]
fn keyring_entries_need_both() {
    assert_eq!(read_entry(some("")), None);
    assert_eq!(read_entry(some("x")), some("x"));
    let both = Some(("u".to_string(), "p".to_string()));
    assert_eq!(get_credentials(true, some("u"), some("p")), both);
    assert_eq!(get_credentials(true, some("u"), None), None);
    assert_eq!(get_credentials(true, some(""), some("p")), None);
    assert_eq!(get_credentials(false, some("u"), some("p")), None);
}

#[test]
fn missing_entries_count_as_deleted() {
    assert!(delete_succeeded(DeleteOutcome::Deleted));
    assert!(delete_succeeded(DeleteOutcome::Missing));
    assert!(!delete_succeeded(DeleteOutcome::Failed));
    assert!(!delete_succeeded(DeleteOutcome::NotOpened));
    assert_eq!(
        delete_error(DeleteOutcome::Failed, "username", "locked"),
        "failed to delete keyring entry 'username': locked"
    );
    assert_eq!(
        delete_error(DeleteOutcome::NotOpened, "password", "locked"),
        "failed to open keyring entry 'password': locked"
    );
}

#[test]
fn typed_credentials_are_checked() {
    assert_eq!(typed_username(" u \n"), Ok("u".to_string()));
    assert_eq!(typed_username(" \n"), Err(InputError::EmptyUsername));
    assert_eq!(typed_password(" p ".to_string()), Ok(" p ".to_string()));
    assert_eq!(typed_password(String::new()), Err(InputError::EmptyPassword));
    assert_eq!(input_error(InputError::EmptyUsername), "username must not be empty");
    assert_eq!(input_error(InputError::EmptyPassword), "password must not be empty");
    assert_eq!(
        input_error(InputError::EnvIncomplete),
        "--from-env requires non-empty VPN_USERNAME and VPN_PASSWORD"
    );
}

#[test]
fn signing_out_succeeds_if_nothing_is_left() {
    let (removed, missing, failed) = (Removal::Removed, Removal::Missing, Removal::Failed);
    assert!(deauthenticated(removed, missing, removed));
    assert!(!deauthenticated(failed, missing, removed));
    assert!(!deauthenticated(removed, failed, removed));
    assert!(!deauthenticated(removed, removed, failed));
    assert_eq!(refresh_token(true), Ok(()));
    assert_eq!(refresh_token(false), Err(NO_CREDENTIALS));
    assert!(NO_CREDENTIALS.contains("jumphost authenticate"));
}

// ── Search and text ─────────────────────────────────────────────────────

#[test]
fn programs_are_found_in_path_order() {
    let dirs = strings(&["/a", "/b", "/c"]);
    assert_eq!(search_candidates(&dirs, "x"), ["/a/x", "/b/x", "/c/x"]);
    assert_eq!(which(&dirs, "x", &vec![false, true, true]), some("/b/x"));
    assert_eq!(which(&dirs, "x", &vec![false; 3]), None);
    assert_eq!(first_there(&vec![], &vec![]), None);
}

#[test]
fn white_space_is_what_the_standard_library_says() {
    for c in '\0'..=char::MAX {
        assert_eq!(is_white(c), c.is_whitespace(), "{}", c as u32);
    }
}

#[test]
fn texts_are_trimmed_and_aligned_as_by_the_standard_library() {
    for s in ["", " ", "a", " a b\u{3000}", "\u{feff}x\u{85}", "überlang"] {
        assert_eq!(trim(s), s.trim());
        assert_eq!(left_align(s, 5), format!("{s:<5}"));
        assert_eq!(right_align(s, 5), format!("{s:>5}"));
    }
    for n in [0u128, 9, 10, 1081, u64::MAX as u128, u128::MAX] {
        assert_eq!(decimal_of(n), n.to_string());
    }
    assert_eq!(join_path("/a", "b"), "/a/b");
    assert_eq!(join_path("/a/", "b"), "/a/b");
    assert_eq!(join_path("", "b"), "b");
}
