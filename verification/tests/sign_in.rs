//! Cookies, multi-factor sign-in, and the browser session.
use jumphost::browser::{
    account_picker_script, clear_script, clear_script_for, launch_plan, next_login_step,
    reload_script, reload_script_for,
    remember_device, serde_json_encode, tile_was_clicked, LoginStep,
};
use jumphost::config_file::FileConfig;
use jumphost::cookie::{
    cookie_status, current_mrhsession, validate_cookie, validate_file, validation_exit_code,
    BrowserCookie, CookieStatus, FileCheck, COOKIE_FILE_MODE,
};
use jumphost::fetch::{
    after_session, fetch, no_cookie_message, AfterSession, CookieAction, FetchError, FetchOptions,
    FetchOutcome, FetchPoll, FetchSession, Launch, PhaseAction, PollAction, PollEvent,
};
use jumphost::mfa::{
    build_mfa_notification, detect_mfa_phase, mfa_attempt_limit_error, mfa_banner_line,
    MfaAttemptBudget, MfaAttemptLimitReached, MfaAttempts, MfaPhase, MAX_MFA_PUSH_ATTEMPTS,
};

fn configured() -> FileConfig {
    FileConfig { vpn_url: Some("https://vpn.example.com//".to_string()), ..FileConfig::default() }
}

// ── Cookies ─────────────────────────────────────────────────────────────

#[test]
fn cookie_files_without_a_cookie_are_invalid() {
    let known = |c| matches!(validate_file(c), FileCheck::Known(CookieStatus::Invalid));
    assert!(known(None));
    assert!(known(Some("")));
    assert!(known(Some(" \r\n")));
    match validate_file(Some("  abc\n")) {
        FileCheck::Ask(c) => assert_eq!(c, "abc"),
        FileCheck::Known(_) => panic!("there is a cookie"),
    }
}

#[test]
fn cookie_request_is_spelled_out() {
    let r = validate_cookie(&configured(), "abc");
    assert_eq!(r.url, "https://vpn.example.com/vdesk/vpn/index.php3?outform=xml");
    assert_eq!(r.header, "MRHSession=abc");
    assert_eq!(r.user_agent, "vpn-jumphost-cookie-check");
    assert_eq!(r.timeout_secs, 10);
    assert!(!r.follow_redirects);
    assert!(!r.use_proxy);
    assert_eq!(COOKIE_FILE_MODE, 0o600);
}

#[test]
fn status_codes_decide() {
    assert_eq!(cookie_status(Some(200)), CookieStatus::Valid);
    assert_eq!(cookie_status(Some(299)), CookieStatus::Valid);
    assert_eq!(cookie_status(Some(300)), CookieStatus::Invalid);
    assert_eq!(cookie_status(Some(302)), CookieStatus::Invalid);
    assert_eq!(cookie_status(Some(399)), CookieStatus::Invalid);
    assert_eq!(cookie_status(Some(199)), CookieStatus::NetworkError);
    assert_eq!(cookie_status(Some(400)), CookieStatus::NetworkError);
    assert_eq!(cookie_status(Some(403)), CookieStatus::NetworkError);
    assert_eq!(cookie_status(Some(404)), CookieStatus::Invalid);
    assert_eq!(cookie_status(Some(500)), CookieStatus::NetworkError);
    assert_eq!(cookie_status(None), CookieStatus::NetworkError);
    assert_eq!(validation_exit_code(CookieStatus::Valid), 0);
    assert_eq!(validation_exit_code(CookieStatus::Invalid), 1);
    assert_eq!(validation_exit_code(CookieStatus::NetworkError), 2);
}

#[test]
fn first_filled_session_cookie_is_taken() {
    let c = |n: &str, v: &str| BrowserCookie { name: n.to_string(), value: v.to_string() };
    let jar = vec![c("other", "1"), c("MRHSession", ""), c("MRHSession", "2"), c("MRHSession", "3")];
    assert_eq!(current_mrhsession(&jar), Some("2".to_string()));
    assert_eq!(current_mrhsession(&vec![c("mrhsession", "1")]), None);
    assert_eq!(current_mrhsession(&vec![]), None);
}

// ── The budget of notifications ─────────────────────────────────────────

#[test]
fn mfa_notification_payload_contains_the_current_number() {
    let notification = build_mfa_notification("24");

    assert_eq!(notification.summary, "VPN sign-in code 24");
    assert_eq!(notification.body, "Approve 24 in Microsoft Authenticator.");
    assert_eq!(notification.appname, "jumphost");
    assert_eq!(notification.icon, "dialog-password");
    assert!(notification.critical);
}

#[test]
fn mfa_notification_payload_does_not_reuse_a_previous_number() {
    let first = build_mfa_notification("24");
    let second = build_mfa_notification("91");

    assert!(first.summary.contains("24"));
    assert!(!first.summary.contains("91"));
    assert!(second.summary.contains("91"));
    assert!(!second.summary.contains("24"));
}

#[test]
fn mfa_attempt_budget_allows_exactly_three_attempts() {
    let budget = MfaAttemptBudget::default();

    for expected in 1..=MAX_MFA_PUSH_ATTEMPTS {
        assert_eq!(budget.try_record_attempt().unwrap(), expected);
    }

    assert!(budget.is_exhausted());
    assert!(budget.try_record_attempt().is_err());
    assert_eq!(budget.attempts(), MAX_MFA_PUSH_ATTEMPTS);
}

#[test]
fn mfa_attempt_budget_is_shared_and_can_be_reset() {
    let budget = MfaAttemptBudget::default();
    let shared = budget.clone();

    budget.try_record_attempt().unwrap();
    assert_eq!(shared.attempts(), 1);

    shared.reset();
    assert_eq!(budget.attempts(), 0);
    assert!(!budget.is_exhausted());
}

#[test]
fn reached_limit_has_its_words() {
    let budget = MfaAttemptBudget::default();
    for _ in 0..3 {
        budget.try_record_attempt().unwrap();
    }
    let limit = mfa_attempt_limit_error(&budget);
    assert_eq!(limit, MfaAttemptLimitReached { attempts: 3 });
    assert_eq!(
        limit.message(),
        "MFA was not completed after 3 Authenticator notifications; automatic authentication is \
         paused. Run `jumphost authenticate` when you are present, or restart the service to \
         allow another three attempts"
    );
}

#[test]
fn attempts_count_to_three() {
    let mut a = MfaAttempts::none();
    assert_eq!(a.record(), Ok(1));
    assert_eq!(a.record(), Ok(2));
    assert!(!a.exhausted());
    assert_eq!(a.record(), Ok(3));
    assert!(a.exhausted());
    assert_eq!(a.record(), Err(MfaAttemptLimitReached { attempts: 3 }));
    assert_eq!(a.count, 3);
}

#[test]
fn phases_are_read_from_reports() {
    assert_eq!(detect_mfa_phase(Some("picker")), MfaPhase::MethodPicker);
    assert_eq!(detect_mfa_phase(Some("pending")), MfaPhase::ApprovalPending);
    assert_eq!(detect_mfa_phase(Some("interactive")), MfaPhase::InteractivePrompt);
    assert_eq!(detect_mfa_phase(Some("number:42")), MfaPhase::NumberMatch("42".to_string()));
    assert_eq!(detect_mfa_phase(Some("number:")), MfaPhase::NumberMatch(String::new()));
    assert_eq!(detect_mfa_phase(Some("none")), MfaPhase::Nothing);
    assert_eq!(detect_mfa_phase(Some("number")), MfaPhase::Nothing);
    assert_eq!(detect_mfa_phase(None), MfaPhase::Nothing);
}

#[test]
fn banner_keeps_its_width() {
    for number in ["7", "42", "123", "1234"] {
        assert_eq!(
            mfa_banner_line(number),
            format!("  ║  MFA: approve this number  ->  {number:>3}    ║")
        );
    }
}

// ── The session ─────────────────────────────────────────────────────────

fn number(n: &str) -> MfaPhase {
    MfaPhase::NumberMatch(n.to_string())
}

#[test]
fn rejected_cookie_is_warned_of_once() {
    let mut s = FetchSession::new(true);
    assert_eq!(s.on_cookie(CookieStatus::Invalid), CookieAction::Warn);
    assert_eq!(s.on_cookie(CookieStatus::NetworkError), CookieAction::Wait);
    assert_eq!(s.on_cookie(CookieStatus::Valid), CookieAction::Capture);
}

#[test]
fn stuck_device_page_is_reloaded_without_a_window() {
    let url = "https://login/common/DeviceAuthTls/reprocess";
    let mut s = FetchSession::new(true);
    let seen: Vec<bool> = (0..7).map(|_| s.on_url(url)).collect();
    assert_eq!(seen, [false, false, false, false, false, true, false]);
    let mut headed = FetchSession::new(false);
    assert!((0..20).all(|_| !headed.on_url(url)));
    let mut other = FetchSession::new(true);
    assert!((0..20).all(|_| !other.on_url("https://login/")));
    let mut moving = FetchSession::new(true);
    assert!((0..20).all(|i| !moving.on_url(&format!("{url}{i}"))));
}

#[test]
fn picker_is_clicked_once_and_the_number_is_not_counted_again() {
    let mut a = MfaAttempts::none();
    let mut s = FetchSession::new(true);
    assert_eq!(s.phase_turn(&MfaPhase::MethodPicker, &mut a), PhaseAction::Click);
    assert_eq!(s.click_turn(false, &mut a), Ok(None));
    assert_eq!(s.phase_turn(&MfaPhase::MethodPicker, &mut a), PhaseAction::Click);
    assert_eq!(s.click_turn(true, &mut a), Ok(Some(1)));
    assert_eq!(s.phase_turn(&MfaPhase::MethodPicker, &mut a), PhaseAction::Nothing);
    assert_eq!(
        s.phase_turn(&number("42"), &mut a),
        PhaseAction::Number { attempt: None, announce: true }
    );
    assert_eq!(
        s.phase_turn(&number("42"), &mut a),
        PhaseAction::Number { attempt: None, announce: false }
    );
    assert_eq!(a.count, 1);
    assert_eq!(
        s.phase_turn(&number("43"), &mut a),
        PhaseAction::Number { attempt: Some(2), announce: true }
    );
    assert_eq!(s.phase_turn(&MfaPhase::MethodPicker, &mut a), PhaseAction::Click);
}

#[test]
fn pending_approval_is_counted_once() {
    let mut a = MfaAttempts::none();
    let mut s = FetchSession::new(true);
    assert_eq!(
        s.phase_turn(&MfaPhase::ApprovalPending, &mut a),
        PhaseAction::Pending { attempt: Some(1), dump: true }
    );
    assert_eq!(
        s.phase_turn(&MfaPhase::ApprovalPending, &mut a),
        PhaseAction::Pending { attempt: None, dump: true }
    );
    s.phase_turn(&number("1"), &mut a);
    assert_eq!(
        s.phase_turn(&MfaPhase::ApprovalPending, &mut a),
        PhaseAction::Pending { attempt: None, dump: false }
    );
}

#[test]
fn window_only_counts() {
    let mut a = MfaAttempts::none();
    let mut s = FetchSession::new(false);
    assert_eq!(s.phase_turn(&MfaPhase::MethodPicker, &mut a), PhaseAction::Nothing);
    assert_eq!(s.phase_turn(&MfaPhase::InteractivePrompt, &mut a), PhaseAction::Nothing);
    assert_eq!(
        s.phase_turn(&number("42"), &mut a),
        PhaseAction::Number { attempt: Some(1), announce: false }
    );
    let mut headless = FetchSession::new(true);
    assert_eq!(headless.phase_turn(&MfaPhase::InteractivePrompt, &mut a), PhaseAction::NeedWindow);
    assert_eq!(headless.phase_turn(&MfaPhase::Nothing, &mut a), PhaseAction::Nothing);
}

#[test]
fn limit_ends_every_session() {
    let limit = MfaAttemptLimitReached { attempts: 3 };
    let mut a = MfaAttempts { count: 3 };
    for phase in [MfaPhase::MethodPicker, number("42"), MfaPhase::ApprovalPending] {
        let mut s = FetchSession::new(true);
        assert_eq!(s.phase_turn(&phase, &mut a), PhaseAction::Limit(limit));
    }
    let mut s = FetchSession::new(true);
    assert_eq!(s.click_turn(true, &mut a), Err(limit));
    assert_eq!(a.count, 3);
}

// ── The polls ───────────────────────────────────────────────────────────

/// A poll that has come as far as the page's phase.
fn at_phase(headless: bool, attempts: &mut MfaAttempts) -> FetchPoll {
    let mut p = FetchPoll::new(headless);
    assert_eq!(p.turn(PollEvent::Done, attempts), PollAction::LookForCookie);
    assert_eq!(
        p.turn(PollEvent::Cookie(None), attempts),
        PollAction::ReadUrl { warn: false }
    );
    assert_eq!(p.turn(PollEvent::Url("https://a/".to_string()), attempts), PollAction::ReadPhase);
    p
}

#[test]
fn polls_come_round() {
    let mut attempts = MfaAttempts::none();
    let mut p = at_phase(true, &mut attempts);
    assert_eq!(p.turn(PollEvent::Phase(MfaPhase::Nothing), &mut attempts), PollAction::Remember);
    assert_eq!(p.turn(PollEvent::Done, &mut attempts), PollAction::FillForm);
    assert_eq!(p.turn(PollEvent::Filled { expired: false }, &mut attempts), PollAction::Pause);
    assert_eq!(p.turn(PollEvent::Done, &mut attempts), PollAction::LookForCookie);
    assert_eq!(
        p.turn(PollEvent::Cookie(Some(CookieStatus::Invalid)), &mut attempts),
        PollAction::ReadUrl { warn: true }
    );
    assert_eq!(p.turn(PollEvent::Clicked(true), &mut attempts), PollAction::Nothing);
}

#[test]
fn polls_count_on_the_shared_budget() {
    let mut attempts = MfaAttempts::none();
    let mut p = at_phase(true, &mut attempts);
    assert_eq!(p.turn(PollEvent::Phase(MfaPhase::MethodPicker), &mut attempts), PollAction::Click);
    assert_eq!(
        p.turn(PollEvent::Clicked(true), &mut attempts),
        PollAction::Settle { attempt: Some(1) }
    );
    assert_eq!(p.turn(PollEvent::Done, &mut attempts), PollAction::Remember);
    let mut p = at_phase(false, &mut attempts);
    assert_eq!(
        p.turn(PollEvent::Phase(number("7")), &mut attempts),
        PollAction::Number { attempt: Some(2), announce: false }
    );
    let mut p = at_phase(true, &mut attempts);
    assert_eq!(
        p.turn(PollEvent::Phase(MfaPhase::ApprovalPending), &mut attempts),
        PollAction::Pending { attempt: Some(3), dump: true }
    );
    assert!(attempts.exhausted());
    let limit = PollAction::Limit(MfaAttemptLimitReached { attempts: 3 });
    let mut p = at_phase(true, &mut attempts);
    assert_eq!(p.turn(PollEvent::Phase(MfaPhase::MethodPicker), &mut attempts), limit);
    assert_eq!(p.turn(PollEvent::Done, &mut attempts), PollAction::Nothing);
    let mut p = at_phase(true, &mut attempts);
    p.turn(PollEvent::Phase(MfaPhase::Nothing), &mut attempts);
    p.turn(PollEvent::Done, &mut attempts);
    assert_eq!(p.turn(PollEvent::Filled { expired: true }, &mut attempts), limit);
}

#[test]
fn at_most_three_notifications_over_many_sessions() {
    let mut attempts = MfaAttempts::none();
    let mut sent = 0;
    for n in 0..10 {
        let mut p = at_phase(n % 2 == 0, &mut attempts);
        match p.turn(PollEvent::Phase(number("42")), &mut attempts) {
            PollAction::Number { attempt: Some(_), .. } => sent += 1,
            PollAction::Limit(_) => {}
            other => panic!("{other:?}"),
        }
    }
    assert_eq!(sent, 3);
}

#[test]
fn sessions_end_for_a_reason() {
    let mut attempts = MfaAttempts::none();
    let mut p = FetchPoll::new(true);
    p.turn(PollEvent::Done, &mut attempts);
    assert_eq!(
        p.turn(PollEvent::Cookie(Some(CookieStatus::Valid)), &mut attempts),
        PollAction::Capture
    );
    let mut p = FetchPoll::new(true);
    p.turn(PollEvent::Done, &mut attempts);
    assert_eq!(p.turn(PollEvent::Stop, &mut attempts), PollAction::Interrupted);
    let mut p = at_phase(true, &mut attempts);
    assert_eq!(
        p.turn(PollEvent::Phase(MfaPhase::InteractivePrompt), &mut attempts),
        PollAction::NeedWindow
    );
    let mut p = at_phase(true, &mut attempts);
    p.turn(PollEvent::Phase(MfaPhase::Nothing), &mut attempts);
    p.turn(PollEvent::Done, &mut attempts);
    assert_eq!(p.turn(PollEvent::Filled { expired: true }, &mut attempts), PollAction::TimedOut);
    assert_eq!(no_cookie_message(300), "did not find a valid MRHSession cookie within 300s");
}

#[test]
fn stuck_page_starts_the_poll_again() {
    let mut attempts = MfaAttempts::none();
    let mut p = FetchPoll::new(true);
    p.turn(PollEvent::Done, &mut attempts);
    let url = "https://login/DeviceAuthTls";
    for _ in 0..5 {
        p.turn(PollEvent::Cookie(None), &mut attempts);
        assert_eq!(p.turn(PollEvent::Url(url.to_string()), &mut attempts), PollAction::ReadPhase);
        p.turn(PollEvent::Phase(MfaPhase::Nothing), &mut attempts);
        p.turn(PollEvent::Done, &mut attempts);
        p.turn(PollEvent::Filled { expired: false }, &mut attempts);
        p.turn(PollEvent::Done, &mut attempts);
    }
    p.turn(PollEvent::Cookie(None), &mut attempts);
    assert_eq!(p.turn(PollEvent::Url(url.to_string()), &mut attempts), PollAction::Reload);
    assert_eq!(p.turn(PollEvent::Done, &mut attempts), PollAction::LookForCookie);
}

#[test]
fn turns_on_a_count_are_exact() {
    let mut s = FetchSession::new(true);
    let mut a = MfaAttempts { count: 2 };
    assert_eq!(
        s.phase_turn(&number("1"), &mut a),
        PhaseAction::Number { attempt: Some(3), announce: true }
    );
    assert_eq!(a.count, 3);
    assert_eq!(
        s.phase_turn(&number("2"), &mut a),
        PhaseAction::Limit(MfaAttemptLimitReached { attempts: 3 })
    );
    assert_eq!(s.click_turn(false, &mut a), Ok(None));
    assert_eq!(a.count, 3);
}

// ── The attempt as a whole ──────────────────────────────────────────────

#[test]
fn attempt_starts_as_asked_for() {
    let cfg = configured();
    assert_eq!(fetch(&cfg, 0, true), Ok(Launch::Headless));
    assert_eq!(fetch(&cfg, 2, false), Ok(Launch::Headed));
    let limit = FetchError::Limit(MfaAttemptLimitReached { attempts: 3 });
    assert_eq!(fetch(&cfg, 3, true), Err(limit));
    assert_eq!(fetch(&FileConfig::default(), 0, true), Err(FetchError::NoUrl));
    assert_eq!(fetch(&FileConfig::default(), 3, true), Err(limit));
    assert_eq!(
        FetchError::NoUrl.message(),
        "VPN_URL is not configured — set vpn_url in the config file or export VPN_URL"
    );
    assert_eq!(FetchError::Interrupted.message(), "interrupted");
    assert_eq!(limit.message(), MfaAttemptLimitReached { attempts: 3 }.message());
}

#[test]
fn attempt_starts_on_the_count_of_its_options() {
    let cfg = configured();
    let mut options = FetchOptions::for_config(&cfg, "/s");
    assert_eq!(fetch(&cfg, options.mfa_attempt_budget.count, true), Ok(Launch::Headless));
    for _ in 0..3 {
        options.mfa_attempt_budget.record().unwrap();
    }
    let limit = FetchError::Limit(MfaAttemptLimitReached { attempts: 3 });
    assert_eq!(fetch(&cfg, options.mfa_attempt_budget.count, true), Err(limit));
}

#[test]
fn prompt_without_a_window_relaunches_once() {
    let prompt = || FetchOutcome::InteractionRequired;
    assert!(matches!(after_session(Launch::Headless, prompt(), false), AfterSession::Relaunch));
    assert!(matches!(
        after_session(Launch::Headless, prompt(), true),
        AfterSession::Fail(FetchError::Interrupted)
    ));
    match after_session(Launch::Relaunched, prompt(), false) {
        AfterSession::Fail(e) => assert_eq!(
            e.message(),
            "interactive MFA required but headed browser also failed"
        ),
        _ => panic!("it failed twice"),
    }
    for launch in [Launch::Headless, Launch::Relaunched, Launch::Headed] {
        match after_session(launch, FetchOutcome::Cookie("c".to_string()), true) {
            AfterSession::Save(c) => assert_eq!(c, "c"),
            _ => panic!("there is a cookie"),
        }
    }
}

#[test]
fn usual_options_are_persistent_and_visible() {
    let cfg = FileConfig { chromium_path: Some("/c".to_string()), ..FileConfig::default() };
    let o = FetchOptions::for_config(&cfg, "/s");
    assert_eq!(o.profile_dir.as_deref(), Some("/s/chromium-profile"));
    assert_eq!(o.max_wait_secs, 300);
    assert_eq!(o.chromium_path.as_deref(), Some("/c"));
    assert!(!o.headless);
    assert_eq!(o.mfa_attempt_budget.count, 0);
}

#[test]
fn browser_never_uses_a_proxy() {
    let plan = launch_plan(true, &Some("/p".to_string()), &Some("/c".to_string()), true).unwrap();
    assert_eq!(plan.args, ["--no-proxy-server"]);
    assert_eq!((plan.width, plan.height), (1280, 900));
    assert!(!plan.head);
    assert_eq!(plan.user_data_dir.as_deref(), Some("/p"));
    assert_eq!(plan.executable.as_deref(), Some("/c"));
    let plan = launch_plan(false, &None, &None, false).unwrap();
    assert!(plan.head);
    assert_eq!(plan.args, ["--no-proxy-server"]);
    let missing = launch_plan(true, &None, &Some("/c".to_string()), false).unwrap_err();
    assert_eq!(missing.message(), "configured Chromium executable not found: /c");
}

// ── Scripts ─────────────────────────────────────────────────────────────

#[test]
fn literals_are_escaped() {
    assert_eq!(serde_json_encode("a\"b\\c"), "\"a\\\"b\\\\c\"");
    assert_eq!(serde_json_encode("\n\r\t"), "\"\\n\\r\\t\"");
    assert_eq!(serde_json_encode("\u{1}\u{1f} ü"), "\"\\u0001\\u001f ü\"");
    assert_eq!(serde_json_encode(""), "\"\"");
}

#[test]
fn scripts_hold_the_literal() {
    let script = account_picker_script("o\"; alert(1); \"");
    assert!(script.starts_with("(() => {\n            const user = \"o\\\"; alert(1); \\\"\";\n"));
    assert!(script.contains("`[data-test-id=\"${user}\"]`"));
    assert!(script.ends_with("})()"));
    assert_eq!(reload_script("https://a/"), "location.href = \"https://a/\"");
    assert_eq!(clear_script("#i0118"), "document.querySelector(\"#i0118\").value = ''");
    assert_eq!(
        reload_script("https://a/\"\\\u{1}\u{7f}\u{200b}"),
        "location.href = \"https://a/\\\"\\\\\\u{1}\\u{7f}\\u{200b}\""
    );
    assert_eq!(
        clear_script("[id=\"\t\"]"),
        "document.querySelector(\"[id=\\\"\\t\\\"]\").value = ''"
    );
    assert_eq!(reload_script_for("'/x'"), "location.href = '/x'");
    assert_eq!(clear_script_for("s"), "document.querySelector(s).value = ''");
}

#[test]
fn script_results_are_read() {
    assert!(tile_was_clicked("data-test-id"));
    assert!(tile_was_clicked("text-match"));
    assert!(!tile_was_clicked("none (tiles=0)"));
    let r = remember_device(Some("clicked"));
    assert!(r.found && r.ticked);
    let r = remember_device(Some("already-checked"));
    assert!(r.found && !r.ticked);
    assert!(!remember_device(Some("none")).found);
    assert!(!remember_device(None).found);
}

#[test]
fn form_is_filled_step_by_step() {
    let next = next_login_step;
    assert_eq!(next(LoginStep::Picker, true), LoginStep::Done);
    assert_eq!(next(LoginStep::Picker, false), LoginStep::Username);
    assert_eq!(next(LoginStep::Username, true), LoginStep::Submit);
    assert_eq!(next(LoginStep::Username, false), LoginStep::Password);
    assert_eq!(next(LoginStep::Password, true), LoginStep::Submit);
    assert_eq!(next(LoginStep::Password, false), LoginStep::Done);
    assert_eq!(next(LoginStep::Submit, true), LoginStep::Done);
}
