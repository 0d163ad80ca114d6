//! The supervisor, the VPN process and the services.
use jumphost::config_file::FileConfig;
use jumphost::cookie::CookieStatus;
use jumphost::jumphost::{
    ensure_valid_cookie, poll_interval, refresh_headless, start_services, Action, Clock,
    CookieDecision, CookieRetry, Event, RetryStep, Stage, Supervisor, SupervisorOptions,
    WaitResult, RESUME_MAX_WAIT,
};
use jumphost::fetch::{fetch, FetchError, FetchPoll, PollAction, PollEvent};
use jumphost::mfa::{MfaAttemptLimitReached, MfaAttempts, MfaPhase};
use jumphost::vpn::{
    begin_stop, next_stop_step, start, start_error, StartError, StartFacts, StopStep, StopWait,
};

const SEC: u128 = 1_000_000_000;

fn at(secs: u128) -> Clock {
    Clock { mono: secs * SEC, wall: (1_000 + secs) * SEC }
}

fn supervisor() -> Supervisor {
    Supervisor::new(&SupervisorOptions {
        cookie_file: "/s/cookie".to_string(),
        serve_pac: false,
        check_interval: 300 * SEC,
        no_headless: false,
    })
}

fn checked(status: CookieStatus) -> Event {
    Event::Checked { status }
}

fn waited(why: WaitResult, alive: bool) -> Event {
    Event::Waited { why, alive }
}

const POLL: Action = Action::Wait(15 * SEC);

/// A session without a window whose page's phase is read next.
fn at_phase(attempts: &mut MfaAttempts) -> FetchPoll {
    let mut poll = FetchPoll::new(true);
    poll.turn(PollEvent::Done, attempts);
    poll.turn(PollEvent::Cookie(None), attempts);
    let url = PollEvent::Url("https://a/".to_string());
    assert_eq!(poll.turn(url, attempts), PollAction::ReadPhase);
    poll
}

/// A supervisor whose VPN runs, in its first pause from `at(0)` on.
fn watching() -> Supervisor {
    let mut s = supervisor();
    s.turn(Event::Begin, false, at(0));
    s.turn(checked(CookieStatus::Valid), false, at(0));
    s.turn(Event::ServicesUp, false, at(0));
    let (action, _) = s.turn(Event::VpnStarted { running: true }, false, at(0));
    assert_eq!(action, POLL);
    s
}

#[test]
fn poll_interval_is_a_quarter_of_the_check_interval() {
    assert_eq!(poll_interval(300 * SEC), 15 * SEC);
    assert_eq!(poll_interval(60 * SEC), 15 * SEC);
    assert_eq!(poll_interval(20 * SEC), 5 * SEC);
    assert_eq!(poll_interval(SEC), SEC / 4);
}

#[test]
fn startup_with_a_valid_cookie() {
    let mut s = supervisor();
    assert_eq!(s.turn(Event::Begin, false, at(0)), (Action::CheckCookie, false));
    assert_eq!(s.turn(checked(CookieStatus::Valid), false, at(1)), (Action::StartServices, true));
    assert_eq!(s.turn(Event::ServicesUp, false, at(1)), (Action::StartVpn, false));
    assert_eq!(s.turn(Event::VpnStarted { running: true }, false, at(2)), (POLL, false));
    assert_eq!(s.last_check, 2 * SEC);
}

#[test]
fn startup_with_a_network_error_keeps_the_cookie() {
    let mut s = supervisor();
    s.turn(Event::Begin, false, at(0));
    assert_eq!(s.turn(checked(CookieStatus::NetworkError), false, at(0)), (Action::StartServices, false));
    assert_eq!(s.turn(Event::ServicesUp, false, at(0)), (Action::StartVpn, false));
}

#[test]
fn startup_survives_a_failed_sign_in() {
    let mut s = supervisor();
    s.turn(Event::Begin, false, at(0));
    assert_eq!(s.turn(checked(CookieStatus::Invalid), false, at(0)), (Action::RefreshCookie, false));
    let (action, reset) = s.turn(Event::Refreshed { captured: false }, false, at(0));
    assert_eq!((action, reset), (Action::StartServices, false));
    assert_eq!(s.turn(Event::ServicesUp, false, at(0)), (POLL, false));
    // The loop goes on looking for a cookie that somebody else supplies.
    assert_eq!(s.turn(waited(WaitResult::Timeout, false), false, at(15)), (Action::CheckCookie, false));
    assert_eq!(s.turn(checked(CookieStatus::Valid), false, at(15)), (Action::StartVpn, true));
    assert_eq!(s.turn(Event::VpnStarted { running: true }, false, at(16)), (POLL, false));
}

#[test]
fn startup_with_a_fresh_cookie() {
    let mut s = supervisor();
    s.turn(Event::Begin, false, at(0));
    s.turn(checked(CookieStatus::Invalid), false, at(0));
    assert_eq!(
        s.turn(Event::Refreshed { captured: true }, false, at(0)),
        (Action::StartServices, true)
    );
    assert_eq!(s.turn(Event::ServicesUp, false, at(0)), (Action::StartVpn, false));
    assert_eq!(s.turn(Event::VpnStarted { running: false }, false, at(0)), (Action::Fail, false));
    assert_eq!(s.stage, Stage::Over);
}

#[test]
fn exhausted_budget_pauses_refreshes_but_not_checks() {
    let mut s = supervisor();
    s.turn(Event::Begin, false, at(0));
    assert_eq!(s.turn(checked(CookieStatus::Invalid), true, at(0)), (Action::StartServices, false));
    assert_eq!(s.turn(Event::ServicesUp, false, at(0)), (POLL, false));
    assert_eq!(s.turn(waited(WaitResult::Timeout, false), false, at(15)), (Action::CheckCookie, false));
    assert_eq!(s.turn(checked(CookieStatus::Invalid), true, at(15)), (POLL, false));
    assert_eq!(s.turn(waited(WaitResult::Timeout, false), false, at(30)), (Action::CheckCookie, false));
    assert_eq!(s.turn(checked(CookieStatus::Valid), true, at(30)), (Action::StartVpn, true));

    let mut s = watching();
    s.turn(waited(WaitResult::Timeout, true), false, at(300));
    assert_eq!(s.turn(checked(CookieStatus::Invalid), true, at(300)), (POLL, false));
    assert_eq!(ensure_valid_cookie(CookieStatus::Invalid, true), CookieDecision::Paused);
    assert_eq!(ensure_valid_cookie(CookieStatus::Invalid, false), CookieDecision::Refresh);
    assert_eq!(ensure_valid_cookie(CookieStatus::NetworkError, true), CookieDecision::Use);
}

#[test]
fn run_sends_three_notifications_until_a_cookie_is_accepted() {
    let cfg = FileConfig { vpn_url: Some("https://vpn/".to_string()), ..FileConfig::default() };
    let invalid = checked(CookieStatus::Invalid);
    let mut attempts = MfaAttempts::none();
    let mut s = supervisor();
    s.step(Event::Begin, at(0), &mut attempts);
    assert_eq!(s.step(invalid, at(0), &mut attempts), Action::RefreshCookie);
    assert!(fetch(&cfg, attempts.count, true).is_ok());
    let number = |n: usize| PollEvent::Phase(MfaPhase::NumberMatch(n.to_string()));
    for n in 1..=3 {
        let mut poll = at_phase(&mut attempts);
        assert_eq!(
            poll.turn(number(n), &mut attempts),
            PollAction::Number { attempt: Some(n), announce: true }
        );
    }
    assert_eq!(attempts.count, 3);
    let failed = Event::Refreshed { captured: false };
    assert_eq!(s.step(failed, at(0), &mut attempts), Action::StartServices);
    assert_eq!(s.step(Event::ServicesUp, at(0), &mut attempts), POLL);

    // The fourth: no browser, and no notification in one that is open.
    s.step(waited(WaitResult::Timeout, false), at(15), &mut attempts);
    assert_eq!(s.step(invalid, at(15), &mut attempts), POLL);
    assert_eq!(attempts.count, 3);
    let limit = MfaAttemptLimitReached { attempts: 3 };
    assert_eq!(fetch(&cfg, attempts.count, true), Err(FetchError::Limit(limit)));
    let mut poll = at_phase(&mut attempts);
    assert_eq!(poll.turn(number(4), &mut attempts), PollAction::Limit(limit));

    // An accepted cookie allows three again.
    s.step(waited(WaitResult::Timeout, false), at(30), &mut attempts);
    let valid = checked(CookieStatus::Valid);
    assert_eq!(s.step(valid, at(30), &mut attempts), Action::StartVpn);
    assert_eq!(attempts.count, 0);
    s.step(Event::VpnStarted { running: true }, at(30), &mut attempts);
    s.step(waited(WaitResult::Timeout, false), at(45), &mut attempts);
    assert_eq!(s.step(invalid, at(45), &mut attempts), Action::RefreshCookie);
}

#[test]
fn cookie_that_was_not_waited_for_resets_nothing() {
    let mut attempts = MfaAttempts::none();
    attempts.record().unwrap();
    let mut s = supervisor();
    let valid = checked(CookieStatus::Valid);
    assert_eq!(s.step(valid, at(0), &mut attempts), Action::Nothing);
    assert_eq!(attempts.count, 1);
}

#[test]
fn vpn_that_died_is_revived() {
    let mut s = watching();
    assert_eq!(s.turn(waited(WaitResult::Timeout, false), false, at(15)), (Action::CheckCookie, false));
    assert_eq!(s.last_check, 15 * SEC);
    assert_eq!(s.turn(checked(CookieStatus::Invalid), false, at(15)), (Action::RefreshCookie, false));
    assert_eq!(s.turn(Event::Refreshed { captured: true }, false, at(20)), (Action::StartVpn, true));
    assert_eq!(s.turn(Event::VpnStarted { running: false }, false, at(20)), (POLL, false));
    assert_eq!(s.turn(waited(WaitResult::Timeout, false), false, at(35)), (Action::CheckCookie, false));
    assert_eq!(s.turn(checked(CookieStatus::Invalid), false, at(35)), (Action::RefreshCookie, false));
    assert_eq!(s.turn(Event::Refreshed { captured: false }, false, at(35)), (POLL, false));
}

#[test]
fn periodic_check_leaves_a_good_tunnel_alone() {
    let mut s = watching();
    let tick = waited(WaitResult::Timeout, true);
    assert_eq!(s.turn(tick, false, at(15)), (POLL, false));
    assert_eq!(s.turn(tick, false, at(30)), (POLL, false));
    let later = Clock { mono: 300 * SEC, wall: at(45).wall };
    assert_eq!(s.turn(tick, false, later), (Action::CheckCookie, false));
    assert_eq!(s.turn(checked(CookieStatus::Valid), false, later), (POLL, true));
    assert_eq!(s.last_check, 300 * SEC);
}

#[test]
fn network_error_is_retried_at_the_next_poll() {
    let mut s = watching();
    let tick = waited(WaitResult::Timeout, true);
    let due = Clock { mono: 300 * SEC, wall: at(15).wall };
    assert_eq!(s.turn(tick, false, due), (Action::CheckCookie, false));
    assert_eq!(s.turn(checked(CookieStatus::NetworkError), false, due), (POLL, false));
    assert_eq!(s.last_check, 0);
    let next = Clock { mono: 315 * SEC, wall: at(30).wall };
    assert_eq!(s.turn(tick, false, next), (Action::CheckCookie, false));
}

#[test]
fn resume_checks_and_restarts() {
    let mut s = watching();
    assert_eq!(
        s.turn(waited(WaitResult::Wake, true), false, at(5)),
        (Action::CheckCookieWithRetry, false)
    );
    assert_eq!(s.turn(checked(CookieStatus::Valid), false, at(6)), (Action::RestartVpn, true));
    assert_eq!(s.turn(Event::VpnStarted { running: true }, false, at(7)), (POLL, false));
    // The wall clock jumps by more than four polls.
    let jump = Clock { mono: 20 * SEC, wall: at(5).wall + 61 * SEC };
    assert_eq!(
        s.turn(waited(WaitResult::Timeout, true), false, jump),
        (Action::CheckCookieWithRetry, false)
    );
    assert_eq!(s.turn(checked(CookieStatus::Invalid), false, jump), (Action::RefreshCookie, false));
    assert_eq!(s.turn(Event::Refreshed { captured: true }, false, jump), (Action::RestartVpn, true));
    let mut s = watching();
    let step = Clock { mono: 15 * SEC, wall: at(60).wall };
    assert_eq!(s.turn(waited(WaitResult::Timeout, true), false, step), (POLL, false));
    // A clock that is set back is no jump.
    let back = Clock { mono: 30 * SEC, wall: 0 };
    assert_eq!(s.turn(waited(WaitResult::Timeout, true), false, back), (POLL, false));
}

#[test]
fn stop_shuts_everything_down() {
    let mut s = watching();
    assert_eq!(s.turn(waited(WaitResult::Stop, true), false, at(3)), (Action::ShutDown, false));
    assert_eq!(s.stage, Stage::Over);
    assert_eq!(s.turn(Event::Begin, false, at(4)), (Action::Nothing, false));
}

#[test]
fn unexpected_events_change_nothing() {
    let mut s = watching();
    let before = s;
    assert_eq!(s.turn(checked(CookieStatus::Valid), false, at(1)), (Action::Nothing, false));
    assert_eq!(s.turn(Event::Begin, false, at(1)), (Action::Nothing, false));
    assert_eq!(s, before);
}

#[test]
fn retries_back_off_up_to_the_deadline() {
    let mut r = CookieRetry::start(0, RESUME_MAX_WAIT);
    let mut now = 0;
    let mut pauses = vec![];
    loop {
        match r.after_check(CookieStatus::NetworkError, now) {
            RetryStep::Sleep(p) => {
                pauses.push(p / 1_000_000);
                now += p;
            }
            RetryStep::Done(status) => {
                assert_eq!(status, CookieStatus::NetworkError);
                break;
            }
        }
    }
    assert_eq!(now, RESUME_MAX_WAIT);
    assert_eq!(pauses, [1000, 1500, 2250, 3375, 5062, 7593, 10000, 10000, 10000, 9218]);
    let mut r = CookieRetry::start(5, 10);
    assert_eq!(r.after_check(CookieStatus::Valid, 6), RetryStep::Done(CookieStatus::Valid));
    assert_eq!(r.after_check(CookieStatus::Invalid, 6), RetryStep::Done(CookieStatus::Invalid));
    assert_eq!(r.after_check(CookieStatus::NetworkError, 6), RetryStep::Sleep(9));
    assert_eq!(
        r.after_check(CookieStatus::NetworkError, 15),
        RetryStep::Done(CookieStatus::NetworkError)
    );
}

#[test]
fn refresh_is_headless_with_credentials() {
    assert!(refresh_headless(true, false, false));
    assert!(!refresh_headless(false, false, false));
    assert!(!refresh_headless(true, true, false));
    assert!(!refresh_headless(true, false, true));
}

#[test]
fn services_listen_as_configured() {
    let cfg = FileConfig::default();
    let plan = start_services(&cfg, true);
    assert_eq!(plan.routing_bind, "127.0.0.1");
    assert_eq!((plan.routing_port, plan.upstream_port), (1081, 1080));
    assert_eq!(plan.pac, Some(("127.0.0.1".to_string(), 8091)));
    assert_eq!(start_services(&cfg, false).pac, None);
}

// ── The VPN process ─────────────────────────────────────────────────────

const READY: StartFacts = StartFacts {
    cookie_exists: true,
    cookie_len: 32,
    openconnect_found: true,
    ocproxy_found: true,
};

#[test]
fn openconnect_command_is_spelled_out() {
    let cfg = FileConfig {
        vpn_url: Some("https://vpn.example.com".to_string()),
        ..FileConfig::default()
    };
    let plan = start(&cfg, "/s/cookie", 1080, READY).unwrap();
    assert_eq!(plan.program, "openconnect");
    assert_eq!(
        plan.args,
        [
            "--protocol=f5",
            "--cookie-on-stdin",
            "--script-tun",
            "--script",
            "ocproxy -D 1080 -k 60",
            "https://vpn.example.com",
        ]
    );
    assert!(plan.args.iter().all(|a| !a.contains("-g")));
    assert_eq!(plan.info.vpn_url, "https://vpn.example.com");
    assert_eq!(plan.info.socks_port, 1080);
    assert_eq!(plan.info.cookie_file, "/s/cookie");
}

#[test]
fn obstacles_are_found_in_order() {
    let cfg = FileConfig::default();
    let error = |facts| start(&cfg, "/c", 1, facts).unwrap_err();
    let none = StartFacts {
        cookie_exists: false,
        cookie_len: 0,
        openconnect_found: false,
        ocproxy_found: false,
    };
    assert_eq!(error(none), StartError::NoCookieFile);
    assert_eq!(error(StartFacts { cookie_exists: true, ..none }), StartError::EmptyCookieFile);
    let no_oc = StartFacts { openconnect_found: false, ..READY };
    assert_eq!(error(no_oc), StartError::NoOpenconnect);
    assert_eq!(error(StartFacts { ocproxy_found: false, ..READY }), StartError::NoOcproxy);
    assert_eq!(start_error(StartError::NoCookieFile, "/c"), "cookie file does not exist: /c");
    assert_eq!(start_error(StartError::EmptyCookieFile, "/c"), "cookie file is empty: /c");
    assert_eq!(
        start_error(StartError::NoOpenconnect, "/c"),
        "missing required executable: openconnect"
    );
    assert_eq!(start_error(StartError::NoOcproxy, "/c"), "missing required executable: ocproxy");
}

#[test]
fn stop_escalates_only_after_a_timeout() {
    assert_eq!(begin_stop(false), StopStep::Stopped);
    assert_eq!(begin_stop(true), StopStep::Terminate);
    let next = next_stop_step;
    assert_eq!(next(StopStep::Terminate, StopWait::Exited), StopStep::Stopped);
    assert_eq!(next(StopStep::Terminate, StopWait::WaitFailed), StopStep::Failed);
    assert_eq!(next(StopStep::Terminate, StopWait::TimedOut), StopStep::Kill);
    assert_eq!(next(StopStep::Kill, StopWait::TimedOut), StopStep::Stopped);
}
