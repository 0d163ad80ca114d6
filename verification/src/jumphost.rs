//! The supervisor: signing in, the services, the VPN process, and the loop
//! that watches over them.
//!
//! - The cookie is checked first and refreshed if the VPN rejects it. Where
//!   the VPN cannot be asked, the cookie is kept and openconnect decides.
//! - The routing proxy, and the PAC server if it is configured, run whether
//!   or not there is a usable cookie; the VPN is started only with one.
//! - The loop restarts a VPN that died, checks the cookie at every interval,
//!   and checks it and restarts the VPN after the machine was suspended.
//! - A failed sign-in never ends the program.
use vstd::prelude::*;

use crate::config::{
    cfg_string, cfg_u16, effective_port, effective_text, law_port_settings_are_their_fields,
    law_text_settings_are_their_fields, DEFAULT_PAC_BIND, DEFAULT_PAC_PORT,
    DEFAULT_ROUTING_PROXY_BIND, DEFAULT_ROUTING_PROXY_PORT, DEFAULT_SOCKS_PORT,
};
use crate::config_file::FileConfig;
use crate::cookie::CookieStatus;
use crate::fetch::{
    law_polls_keep_the_limit, poll_turn, start_of, FetchError, FetchPollView, Launch, PollAction,
    PollEventView,
};
use crate::mfa::{MfaAttemptLimitReached, MfaAttempts, MAX_MFA_PUSH_ATTEMPTS};

verus! {

// ── Times ────────────────────────────────────────────────────────────────

/// The longest time between two polls, in nanoseconds.
pub const MAX_POLL: u128 = 15_000_000_000;

/// The least jump of the wall clock that counts as a suspension, in
/// nanoseconds.
pub const MIN_SUSPEND: u128 = 30_000_000_000;

/// How long the cookie check is retried after a resume, in nanoseconds.
pub const RESUME_MAX_WAIT: u128 = 60_000_000_000;

/// How long the VPN process has to end when asked to, in seconds.
pub const STOP_TIMEOUT_SECS: u64 = 10;

/// The time between two polls: a quarter of the check interval, at most
/// fifteen seconds.
pub open spec fn poll_interval_of(check_interval: u128) -> u128 {
    if check_interval / 4 < MAX_POLL {
        check_interval / 4
    } else {
        MAX_POLL
    }
}

/// The time between two polls.
pub fn poll_interval(check_interval: u128) -> (r: u128)
    ensures
        r == poll_interval_of(check_interval),
{
    if check_interval / 4 < MAX_POLL {
        check_interval / 4
    } else {
        MAX_POLL
    }
}

/// A jump of the wall clock beyond this is taken for a suspension: four
/// polls, at least half a minute.
pub open spec fn suspend_threshold_of(poll: u128) -> int {
    if 4 * poll > MIN_SUSPEND {
        4 * poll
    } else {
        MIN_SUSPEND as int
    }
}

/// How far one reading of a clock lies behind another, if it does.
pub open spec fn elapsed(from: u128, to: u128) -> int {
    if to >= from {
        to - from
    } else {
        0
    }
}

/// The readings of both clocks, in nanoseconds from a fixed point each.
#[derive(Debug, Clone, Copy, PartialEq, Eq, Structural)]
pub struct Clock {
    /// The clock that stands still while the machine is suspended.
    pub mono: u128,
    /// The clock on the wall.
    pub wall: u128,
}

// ── Retrying a check after a resume ──────────────────────────────────────

/// The first pause between two checks, in nanoseconds.
pub const FIRST_DELAY: u128 = 1_000_000_000;

/// The longest pause between two checks, in nanoseconds.
pub const MAX_DELAY: u128 = 10_000_000_000;

/// The pause after a pause of `delay`: half as long again, up to the longest.
pub open spec fn next_delay(delay: u128) -> u128 {
    if delay * 3 / 2 < MAX_DELAY {
        (delay * 3 / 2) as u128
    } else {
        MAX_DELAY
    }
}

/// A check that is repeated while the VPN cannot be asked.
#[derive(Debug, Clone, Copy, PartialEq, Eq, Structural)]
pub struct CookieRetry {
    /// When the last pause ends at the latest.
    pub deadline: u128,
    /// How long the next pause is, the deadline permitting.
    pub delay: u128,
}

/// What follows a check.
#[derive(Debug, Clone, Copy, PartialEq, Eq, Structural)]
pub enum RetryStep {
    /// This is the outcome.
    Done(CookieStatus),
    /// Pause for so many nanoseconds, then check again. If the program is
    /// stopping, the outcome is a network error.
    Sleep(u128),
}

/// What follows a check with this outcome at time `now`.
pub open spec fn retry_step(r: CookieRetry, status: CookieStatus, now: u128) -> (
    CookieRetry,
    RetryStep,
) {
    if status != CookieStatus::NetworkError || elapsed(now, r.deadline) == 0 {
        (r, RetryStep::Done(status))
    } else {
        let remaining = elapsed(now, r.deadline) as u128;
        (
            CookieRetry { delay: next_delay(r.delay), ..r },
            RetryStep::Sleep(
                if r.delay < remaining {
                    r.delay
                } else {
                    remaining
                },
            ),
        )
    }
}

impl CookieRetry {
    /// No pause is longer than the longest.
    pub open spec fn wf(self) -> bool {
        self.delay <= MAX_DELAY
    }

    /// A check that is repeated for at most `max_wait` from `now` on; the
    /// deadline is the end of time where their sum exceeds it.
    pub fn start(now: u128, max_wait: u128) -> (r: CookieRetry)
        ensures
            r.wf(),
            r.delay == FIRST_DELAY,
            r.deadline == if now + max_wait <= u128::MAX {
                now + max_wait
            } else {
                u128::MAX as int
            },
    {
        let deadline: u128 = if max_wait <= u128::MAX - now {
            now + max_wait
        } else {
            u128::MAX
        };
        CookieRetry { deadline, delay: FIRST_DELAY }
    }

    /// Takes the outcome of a check at time `now` and says what follows.
    pub fn after_check(&mut self, status: CookieStatus, now: u128) -> (r: RetryStep)
        requires
            old(self).wf(),
        ensures
            (*final(self), r) == retry_step(*old(self), status, now),
            final(self).wf(),
    {
        if status != CookieStatus::NetworkError || now >= self.deadline {
            return RetryStep::Done(status);
        }
        let remaining: u128 = self.deadline - now;
        let pause: u128 = if self.delay < remaining {
            self.delay
        } else {
            remaining
        };
        let longer: u128 = self.delay * 3 / 2;
        self.delay = if longer < MAX_DELAY {
            longer
        } else {
            MAX_DELAY
        };
        RetryStep::Sleep(pause)
    }
}

// ── The services ─────────────────────────────────────────────────────────

/// Where the services listen.
#[derive(Debug)]
pub struct ServicePlan {
    pub routing_bind: String,
    pub routing_port: u16,
    /// The port of the SOCKS5 server at the VPN's end.
    pub upstream_port: u16,
    /// Where the PAC server listens, if it runs.
    pub pac: Option<(String, u16)>,
}

/// Plans the services: the routing proxy always, the PAC server if asked for.
pub fn start_services(cfg: &FileConfig, serve_pac: bool) -> (r: ServicePlan)
    ensures
        r.routing_bind@ == effective_text(
            *cfg,
            "ROUTING_PROXY_BIND"@,
            DEFAULT_ROUTING_PROXY_BIND@,
        ),
        r.routing_port == effective_port(*cfg, "ROUTING_PROXY_PORT"@, DEFAULT_ROUTING_PROXY_PORT),
        r.upstream_port == effective_port(*cfg, "SOCKS_PORT"@, DEFAULT_SOCKS_PORT),
        match r.pac {
            Some((bind, port)) => serve_pac && bind@ == effective_text(
                *cfg,
                "PAC_SERVE_BIND"@,
                DEFAULT_PAC_BIND@,
            ) && port == effective_port(*cfg, "PAC_SERVE_PORT"@, DEFAULT_PAC_PORT),
            None => !serve_pac,
        },
{
    ServicePlan {
        routing_bind: cfg_string(cfg, "ROUTING_PROXY_BIND", DEFAULT_ROUTING_PROXY_BIND),
        routing_port: cfg_u16(cfg, "ROUTING_PROXY_PORT", DEFAULT_ROUTING_PROXY_PORT),
        upstream_port: cfg_u16(cfg, "SOCKS_PORT", DEFAULT_SOCKS_PORT),
        pac: if serve_pac {
            Some(
                (
                    cfg_string(cfg, "PAC_SERVE_BIND", DEFAULT_PAC_BIND),
                    cfg_u16(cfg, "PAC_SERVE_PORT", DEFAULT_PAC_PORT),
                ),
            )
        } else {
            None
        },
    }
}

// ── The cookie ───────────────────────────────────────────────────────────

/// What is done about a cookie before the VPN is started.
#[derive(Debug, Clone, Copy, PartialEq, Eq, Structural)]
pub enum CookieDecision {
    /// It will do.
    Use,
    /// A browser is opened to capture a fresh one.
    Refresh,
    /// It will not do, and the limit of notifications is reached.
    Paused,
}

/// What is done about a cookie with this status: one that could not be
/// checked will do, too; a rejected one is refreshed unless the limit of
/// notifications is reached.
pub open spec fn cookie_decision(status: CookieStatus, exhausted: bool) -> CookieDecision {
    match status {
        CookieStatus::Valid | CookieStatus::NetworkError => CookieDecision::Use,
        CookieStatus::Invalid => if exhausted {
            CookieDecision::Paused
        } else {
            CookieDecision::Refresh
        },
    }
}

/// Decides what is done about a cookie before the VPN is started.
pub fn ensure_valid_cookie(status: CookieStatus, exhausted: bool) -> (r: CookieDecision)
    ensures
        r == cookie_decision(status, exhausted),
{
    match status {
        CookieStatus::Valid | CookieStatus::NetworkError => CookieDecision::Use,
        CookieStatus::Invalid => if exhausted {
            CookieDecision::Paused
        } else {
            CookieDecision::Refresh
        },
    }
}

/// Whether a refresh goes without a window: with credentials to fill in,
/// unless a window was asked for; on macOS always with one.
pub fn refresh_headless(has_credentials: bool, no_headless: bool, macos: bool) -> (r: bool)
    ensures
        r == (has_credentials && !no_headless && !macos),
{
    has_credentials && !no_headless && !macos
}

// ── The supervisor ───────────────────────────────────────────────────────

/// What a supervisor is run with.
#[derive(Debug, Clone)]
pub struct SupervisorOptions {
    pub cookie_file: String,
    pub serve_pac: bool,
    /// The time between two checks of the cookie, in nanoseconds.
    pub check_interval: u128,
    /// Always open a visible window for a refresh.
    pub no_headless: bool,
}

/// What the supervisor is waiting for.
#[derive(Debug, Clone, Copy, PartialEq, Eq, Structural)]
pub enum Stage {
    /// To be set off.
    Created,
    /// The first check of the cookie.
    FirstCheck,
    /// The first refresh of the cookie.
    FirstRefresh,
    /// The services; `usable` tells whether there is a cookie for the VPN.
    Services { usable: bool },
    /// The first start of the VPN.
    FirstStart,
    /// The end of a pause.
    Watching,
    /// The check of the cookie before a VPN that died is started again.
    ReviveCheck,
    /// The refresh of the cookie before that.
    ReviveRefresh,
    /// The start of a VPN that died.
    ReviveStart,
    /// The check of the cookie, begun at `at`; `forced` by a resume.
    Check { forced: bool, at: u128 },
    /// The refresh of a cookie that was found rejected.
    CheckRefresh,
    /// The restart of the VPN.
    Restart,
    /// Nothing.
    Over,
}

/// Why a pause ended.
#[derive(Debug, Clone, Copy, PartialEq, Eq, Structural)]
pub enum WaitResult {
    /// The program is to stop.
    Stop,
    /// The machine woke up.
    Wake,
    /// The time was up.
    Timeout,
}

/// What has happened.
#[derive(Debug, Clone, Copy, PartialEq, Eq, Structural)]
pub enum Event {
    /// The supervisor is set off.
    Begin,
    /// The cookie was checked.
    Checked { status: CookieStatus },
    /// A refresh ended, with a fresh cookie or without.
    Refreshed { captured: bool },
    /// The services run.
    ServicesUp,
    /// The VPN process was started, or could not be.
    VpnStarted { running: bool },
    /// A pause ended; `alive` tells whether the VPN process runs.
    Waited { why: WaitResult, alive: bool },
}

/// What has to be done next.
#[derive(Debug, Clone, Copy, PartialEq, Eq, Structural)]
pub enum Action {
    /// Check the cookie once.
    CheckCookie,
    /// Check the cookie, again and again while the VPN cannot be asked.
    CheckCookieWithRetry,
    /// Capture a fresh cookie with the browser.
    RefreshCookie,
    /// Start the services.
    StartServices,
    /// Start the VPN unless it runs.
    StartVpn,
    /// Stop the VPN and start it.
    RestartVpn,
    /// Pause for so many nanoseconds, or until woken or stopped.
    Wait(u128),
    /// Stop everything and end well.
    ShutDown,
    /// End with the error that the VPN could not be started.
    Fail,
    /// Nothing: the event was not waited for.
    Nothing,
}

/// The supervisor between two events.
#[derive(Debug, Clone, Copy, PartialEq, Eq, Structural)]
pub struct Supervisor {
    pub check_interval: u128,
    pub stage: Stage,
    /// When the cookie was last checked, on the steady clock.
    pub last_check: u128,
    /// When the last pause ended, on the wall clock.
    pub last_wall: u128,
}

/// The supervisor after an event, and what it does.
pub struct Turn {
    pub after: Supervisor,
    /// The count of notifications starts from none again.
    pub reset: bool,
    pub action: Action,
}

impl Supervisor {
    /// On to `stage` with `action`.
    pub open spec fn goes(self, stage: Stage, action: Action) -> Turn {
        Turn { after: Supervisor { stage, ..self }, reset: false, action }
    }

    /// Into a pause.
    pub open spec fn pauses(self) -> Turn {
        self.goes(Stage::Watching, Action::Wait(poll_interval_of(self.check_interval)))
    }

    /// Into the first pause: both clocks are read.
    pub open spec fn begins_watch(self, now: Clock) -> Turn {
        (Supervisor { last_check: now.mono, last_wall: now.wall, ..self }).pauses()
    }

    /// The end of a pause.
    pub open spec fn watched(self, why: WaitResult, alive: bool, now: Clock) -> Turn {
        let jump = elapsed(self.last_wall, now.wall);
        let forced = why == WaitResult::Wake || jump > suspend_threshold_of(
            poll_interval_of(self.check_interval),
        );
        let seen = Supervisor { last_wall: now.wall, ..self };
        if why == WaitResult::Stop {
            self.goes(Stage::Over, Action::ShutDown)
        } else if !alive {
            (Supervisor { last_check: now.mono, ..seen }).goes(
                Stage::ReviveCheck,
                Action::CheckCookie,
            )
        } else if forced {
            seen.goes(
                Stage::Check { forced: true, at: now.mono },
                Action::CheckCookieWithRetry,
            )
        } else if elapsed(self.last_check, now.mono) >= self.check_interval {
            seen.goes(Stage::Check { forced: false, at: now.mono }, Action::CheckCookie)
        } else {
            seen.pauses()
        }
    }

    /// The outcome of a check while the VPN runs. A check that reached nobody
    /// does not count as one.
    pub open spec fn checked(
        self,
        forced: bool,
        at: u128,
        status: CookieStatus,
        exhausted: bool,
    ) -> Turn {
        let counted = Supervisor { last_check: at, ..self };
        match status {
            CookieStatus::Valid => if forced {
                counted.goes(Stage::Restart, Action::RestartVpn)
            } else {
                counted.pauses()
            },
            CookieStatus::NetworkError => self.pauses(),
            CookieStatus::Invalid => if exhausted {
                counted.pauses()
            } else {
                counted.goes(Stage::CheckRefresh, Action::RefreshCookie)
            },
        }
    }

    /// What is done on an event, apart from the count of notifications;
    /// `exhausted` tells whether their limit is reached.
    pub open spec fn moves(self, event: Event, exhausted: bool, now: Clock) -> Turn {
        match (self.stage, event) {
            (Stage::Created, Event::Begin) => self.goes(Stage::FirstCheck, Action::CheckCookie),
            (Stage::FirstCheck, Event::Checked { status }) => match cookie_decision(
                status,
                exhausted,
            ) {
                CookieDecision::Use => self.goes(
                    Stage::Services { usable: true },
                    Action::StartServices,
                ),
                CookieDecision::Refresh => self.goes(Stage::FirstRefresh, Action::RefreshCookie),
                CookieDecision::Paused => self.goes(
                    Stage::Services { usable: false },
                    Action::StartServices,
                ),
            },
            (Stage::FirstRefresh, Event::Refreshed { captured }) => self.goes(
                Stage::Services { usable: captured },
                Action::StartServices,
            ),
            (Stage::Services { usable }, Event::ServicesUp) => if usable {
                self.goes(Stage::FirstStart, Action::StartVpn)
            } else {
                self.begins_watch(now)
            },
            (Stage::FirstStart, Event::VpnStarted { running }) => if running {
                self.begins_watch(now)
            } else {
                self.goes(Stage::Over, Action::Fail)
            },
            (Stage::Watching, Event::Waited { why, alive }) => self.watched(why, alive, now),
            (Stage::ReviveCheck, Event::Checked { status }) => match cookie_decision(
                status,
                exhausted,
            ) {
                CookieDecision::Use => self.goes(Stage::ReviveStart, Action::StartVpn),
                CookieDecision::Refresh => self.goes(Stage::ReviveRefresh, Action::RefreshCookie),
                CookieDecision::Paused => self.pauses(),
            },
            (Stage::ReviveRefresh, Event::Refreshed { captured }) => if captured {
                self.goes(Stage::ReviveStart, Action::StartVpn)
            } else {
                self.pauses()
            },
            (Stage::ReviveStart, Event::VpnStarted { .. }) => self.pauses(),
            (Stage::Check { forced, at }, Event::Checked { status }) => self.checked(
                forced,
                at,
                status,
                exhausted,
            ),
            (Stage::CheckRefresh, Event::Refreshed { captured }) => if captured {
                self.goes(Stage::Restart, Action::RestartVpn)
            } else {
                self.pauses()
            },
            (Stage::Restart, Event::VpnStarted { .. }) => self.pauses(),
            _ => self.goes(self.stage, Action::Nothing),
        }
    }

    /// Whether an event shows a cookie that the VPN accepts.
    pub open spec fn shows_valid_cookie(event: Event) -> bool {
        event matches Event::Checked { status } && status == CookieStatus::Valid
            || event == (Event::Refreshed { captured: true })
    }

    /// What is done on an event: an event that was waited for and shows a
    /// cookie that the VPN accepts also resets the count of notifications.
    pub open spec fn turn_of(self, event: Event, exhausted: bool, now: Clock) -> Turn {
        let turn = self.moves(event, exhausted, now);
        Turn { reset: Self::shows_valid_cookie(event) && turn.action != Action::Nothing, ..turn }
    }

    /// A supervisor that has not been set off.
    pub fn new(options: &SupervisorOptions) -> (r: Supervisor)
        ensures
            r == (Supervisor {
                check_interval: options.check_interval,
                stage: Stage::Created,
                last_check: 0,
                last_wall: 0,
            }),
    {
        Supervisor {
            check_interval: options.check_interval,
            stage: Stage::Created,
            last_check: 0,
            last_wall: 0,
        }
    }

    fn go(&mut self, stage: Stage, action: Action) -> (r: Action)
        ensures
            r == old(self).goes(stage, action).action,
            *final(self) == old(self).goes(stage, action).after,
    {
        self.stage = stage;
        action
    }

    fn pause(&mut self) -> (r: Action)
        ensures
            r == old(self).pauses().action,
            *final(self) == old(self).pauses().after,
    {
        self.stage = Stage::Watching;
        Action::Wait(poll_interval(self.check_interval))
    }

    fn begin_watch(&mut self, now: Clock) -> (r: Action)
        ensures
            r == old(self).begins_watch(now).action,
            *final(self) == old(self).begins_watch(now).after,
    {
        self.last_check = now.mono;
        self.last_wall = now.wall;
        self.pause()
    }

    fn watch(&mut self, why: WaitResult, alive: bool, now: Clock) -> (r: Action)
        ensures
            r == old(self).watched(why, alive, now).action,
            *final(self) == old(self).watched(why, alive, now).after,
    {
        if why == WaitResult::Stop {
            return self.go(Stage::Over, Action::ShutDown);
        }
        let jump: u128 = if now.wall >= self.last_wall {
            now.wall - self.last_wall
        } else {
            0
        };
        self.last_wall = now.wall;
        let four_polls: u128 = 4 * poll_interval(self.check_interval);
        let threshold: u128 = if four_polls > MIN_SUSPEND {
            four_polls
        } else {
            MIN_SUSPEND
        };
        let since: u128 = if now.mono >= self.last_check {
            now.mono - self.last_check
        } else {
            0
        };
        if !alive {
            self.last_check = now.mono;
            self.go(Stage::ReviveCheck, Action::CheckCookie)
        } else if why == WaitResult::Wake || jump > threshold {
            self.go(
                Stage::Check { forced: true, at: now.mono },
                Action::CheckCookieWithRetry,
            )
        } else if since >= self.check_interval {
            self.go(Stage::Check { forced: false, at: now.mono }, Action::CheckCookie)
        } else {
            self.pause()
        }
    }

    fn check_done(
        &mut self,
        forced: bool,
        at: u128,
        status: CookieStatus,
        exhausted: bool,
    ) -> (r: Action)
        ensures
            r == old(self).checked(forced, at, status, exhausted).action,
            *final(self) == old(self).checked(forced, at, status, exhausted).after,
    {
        match status {
            CookieStatus::Valid => {
                self.last_check = at;
                if forced {
                    self.go(Stage::Restart, Action::RestartVpn)
                } else {
                    self.pause()
                }
            },
            CookieStatus::NetworkError => self.pause(),
            CookieStatus::Invalid => {
                self.last_check = at;
                if exhausted {
                    self.pause()
                } else {
                    self.go(Stage::CheckRefresh, Action::RefreshCookie)
                }
            },
        }
    }

    fn advance(&mut self, event: Event, exhausted: bool, now: Clock) -> (r: Action)
        ensures
            r == old(self).moves(event, exhausted, now).action,
            *final(self) == old(self).moves(event, exhausted, now).after,
    {
        let stage = self.stage;
        match (stage, event) {
            (Stage::Created, Event::Begin) => self.go(Stage::FirstCheck, Action::CheckCookie),
            (Stage::FirstCheck, Event::Checked { status }) => match ensure_valid_cookie(
                status,
                exhausted,
            ) {
                CookieDecision::Use => self.go(
                    Stage::Services { usable: true },
                    Action::StartServices,
                ),
                CookieDecision::Refresh => self.go(Stage::FirstRefresh, Action::RefreshCookie),
                CookieDecision::Paused => self.go(
                    Stage::Services { usable: false },
                    Action::StartServices,
                ),
            },
            (Stage::FirstRefresh, Event::Refreshed { captured }) => self.go(
                Stage::Services { usable: captured },
                Action::StartServices,
            ),
            (Stage::Services { usable }, Event::ServicesUp) => if usable {
                self.go(Stage::FirstStart, Action::StartVpn)
            } else {
                self.begin_watch(now)
            },
            (Stage::FirstStart, Event::VpnStarted { running }) => if running {
                self.begin_watch(now)
            } else {
                self.go(Stage::Over, Action::Fail)
            },
            (Stage::Watching, Event::Waited { why, alive }) => self.watch(why, alive, now),
            (Stage::ReviveCheck, Event::Checked { status }) => match ensure_valid_cookie(
                status,
                exhausted,
            ) {
                CookieDecision::Use => self.go(Stage::ReviveStart, Action::StartVpn),
                CookieDecision::Refresh => self.go(Stage::ReviveRefresh, Action::RefreshCookie),
                CookieDecision::Paused => self.pause(),
            },
            (Stage::ReviveRefresh, Event::Refreshed { captured }) => if captured {
                self.go(Stage::ReviveStart, Action::StartVpn)
            } else {
                self.pause()
            },
            (Stage::ReviveStart, Event::VpnStarted { .. }) => self.pause(),
            (Stage::Check { forced, at }, Event::Checked { status }) => self.check_done(
                forced,
                at,
                status,
                exhausted,
            ),
            (Stage::CheckRefresh, Event::Refreshed { captured }) => if captured {
                self.go(Stage::Restart, Action::RestartVpn)
            } else {
                self.pause()
            },
            (Stage::Restart, Event::VpnStarted { .. }) => self.pause(),
            _ => Action::Nothing,
        }
    }

    /// Takes what has happened, and when, and says what to do next and
    /// whether the count of notifications starts from none again; `exhausted`
    /// tells whether their limit is reached. An event that is not waited for
    /// changes nothing.
    pub fn turn(&mut self, event: Event, exhausted: bool, now: Clock) -> (r: (Action, bool))
        ensures
            r.0 == old(self).turn_of(event, exhausted, now).action,
            r.1 == old(self).turn_of(event, exhausted, now).reset,
            *final(self) == old(self).turn_of(event, exhausted, now).after,
    {
        let action = self.advance(event, exhausted, now);
        let valid = match event {
            Event::Checked { status } => status == CookieStatus::Valid,
            Event::Refreshed { captured } => captured,
            _ => false,
        };
        (action, valid && action != Action::Nothing)
    }

    /// Takes what has happened, and when, with the notifications that were
    /// sent so far, and says what to do next. Where a cookie that the VPN
    /// accepts has turned up, none is counted any more; else the count stays.
    pub fn step(&mut self, event: Event, now: Clock, attempts: &mut MfaAttempts) -> (r: Action)
        ensures
            ({
                let exhausted = old(attempts).count >= MAX_MFA_PUSH_ATTEMPTS;
                let turn = old(self).turn_of(event, exhausted, now);
                &&& r == turn.action
                &&& *final(self) == turn.after
                &&& final(attempts).count == if turn.reset {
                    0
                } else {
                    old(attempts).count
                }
            }),
    {
        let (action, reset) = self.turn(event, attempts.exhausted(), now);
        if reset {
            *attempts = MfaAttempts::none();
        }
        action
    }
}

// ── Laws ─────────────────────────────────────────────────────────────────

/// The loop polls at least every fifteen seconds and at least four times per
/// check interval.
pub proof fn law_polls_are_frequent(check_interval: u128)
    ensures
        poll_interval_of(check_interval) <= MAX_POLL,
        4 * poll_interval_of(check_interval) <= check_interval,
{
}

/// A pause between two checks after a resume never goes beyond the deadline,
/// is never longer than the longest, and never empty before the deadline.
pub proof fn law_retry_keeps_the_deadline(r: CookieRetry, status: CookieStatus, now: u128)
    requires
        r.wf(),
        r.delay > 0,
    ensures
        ({
            let (after, step) = retry_step(r, status, now);
            &&& after.deadline == r.deadline
            &&& after.wf()
            &&& after.delay >= r.delay
            &&& match step {
                RetryStep::Sleep(pause) => {
                    &&& status == CookieStatus::NetworkError
                    &&& 0 < pause <= MAX_DELAY
                    &&& now + pause <= r.deadline
                },
                RetryStep::Done(s) => s == status && (status == CookieStatus::NetworkError ==> now
                    >= r.deadline),
            }
        }),
{
}

/// A periodic check that reached nobody is not counted: the time of the last
/// check stays, so that the next poll checks again.
pub proof fn law_outage_is_retried_at_the_next_poll(
    s: Supervisor,
    at: u128,
    exhausted: bool,
    now: Clock,
    later: Clock,
)
    requires
        s.stage == (Stage::Check { forced: false, at }),
        elapsed(s.last_check, at) >= s.check_interval,
        at <= later.mono,
    ensures
        ({
            let first = s.turn_of(
                Event::Checked { status: CookieStatus::NetworkError },
                exhausted,
                now,
            );
            let next = first.after.turn_of(
                Event::Waited { why: WaitResult::Timeout, alive: true },
                exhausted,
                later,
            );
            &&& first.action == Action::Wait(poll_interval_of(s.check_interval))
            &&& first.after.last_check == s.last_check
            &&& next.action == Action::CheckCookie || next.action == Action::CheckCookieWithRetry
        }),
{
}

/// After a resume the VPN is restarted even if its cookie is still accepted;
/// a periodic check leaves a VPN with an accepted cookie alone.
pub proof fn law_resume_restarts_the_vpn(
    s: Supervisor,
    forced: bool,
    at: u128,
    exhausted: bool,
    now: Clock,
)
    requires
        s.stage == (Stage::Check { forced, at }),
    ensures
        (s.turn_of(Event::Checked { status: CookieStatus::Valid }, exhausted, now).action
            == Action::RestartVpn) == forced,
{
}

/// A wake-up, and a jump of the wall clock beyond the threshold, lead to a
/// check at once, with retries, if the VPN runs.
pub proof fn law_resume_is_noticed(
    s: Supervisor,
    why: WaitResult,
    exhausted: bool,
    now: Clock,
)
    requires
        s.stage == Stage::Watching,
        why != WaitResult::Stop,
        why == WaitResult::Wake || elapsed(s.last_wall, now.wall) > suspend_threshold_of(
            poll_interval_of(s.check_interval),
        ),
    ensures
        s.turn_of(Event::Waited { why, alive: true }, exhausted, now).action == Action::CheckCookieWithRetry,
{
}

/// A cookie is checked at least every check interval, as long as polls take
/// place and the VPN runs.
pub proof fn law_checks_are_periodic(s: Supervisor, exhausted: bool, now: Clock)
    requires
        s.stage == Stage::Watching,
        elapsed(s.last_check, now.mono) >= s.check_interval,
    ensures
        ({
            let action = s.turn_of(
                Event::Waited { why: WaitResult::Timeout, alive: true },
                exhausted,
                now,
            ).action;
            action == Action::CheckCookie || action == Action::CheckCookieWithRetry
        }),
{
}

/// Once the limit of notifications is reached, no check opens the browser;
/// the cookie is still checked, and an accepted one is used.
pub proof fn law_exhausted_budget_opens_no_browser(s: Supervisor, status: CookieStatus, now: Clock)
    ensures
        s.turn_of(Event::Checked { status }, true, now).action != Action::RefreshCookie,
        s.stage == Stage::ReviveCheck && status == CookieStatus::Valid ==> s.turn_of(
            Event::Checked { status },
            true,
            now,
        ).action == Action::StartVpn,
{
}

/// What happens in a run of the supervisor.
pub enum RunStep {
    /// The supervisor takes an event.
    Supervise(Event, Clock),
    /// A browser session, whichever it is, takes an event.
    Poll(FetchPollView, PollEventView),
}

/// A run of the supervisor between two steps.
pub struct RunView {
    pub supervisor: Supervisor,
    /// How many notifications are counted.
    pub count: usize,
}

/// A run after one more step: the supervisor and its browser sessions take
/// turns on one count.
pub open spec fn run_step(run: RunView, step: RunStep) -> RunView {
    match step {
        RunStep::Supervise(event, now) => {
            let turn = run.supervisor.turn_of(event, run.count >= MAX_MFA_PUSH_ATTEMPTS, now);
            RunView {
                supervisor: turn.after,
                count: if turn.reset {
                    0
                } else {
                    run.count
                },
            }
        },
        RunStep::Poll(p, event) => RunView { count: poll_turn(p, event, run.count).count, ..run },
    }
}

/// Whether a step lets a notification through: a browser session reports a new
/// one.
pub open spec fn sends(run: RunView, step: RunStep) -> bool {
    step matches RunStep::Poll(p, event) && match poll_turn(p, event, run.count).action {
        PollAction::Settle { attempt } => attempt is Some,
        PollAction::Number { attempt, .. } => attempt is Some,
        PollAction::Pending { attempt, .. } => attempt is Some,
        _ => false,
    }
}

/// A run that begins with `first` and with no notification counted, after the
/// first `n` of these steps.
pub open spec fn run_at(first: Supervisor, steps: Seq<RunStep>, n: int) -> RunView
    decreases n,
{
    if n <= 0 {
        RunView { supervisor: first, count: 0 }
    } else {
        run_step(run_at(first, steps, n - 1), steps[n - 1])
    }
}

/// How many notifications the steps from `from` up to `to` let through.
pub open spec fn sent_between(first: Supervisor, steps: Seq<RunStep>, from: int, to: int) -> nat
    decreases to - from,
{
    if from >= to {
        0
    } else {
        sent_between(first, steps, from, to - 1) + if sends(
            run_at(first, steps, to - 1),
            steps[to - 1],
        ) {
            1nat
        } else {
            0nat
        }
    }
}

/// No step from `from` up to `to` shows the supervisor a cookie that the VPN
/// accepts.
pub open spec fn no_accepted_cookie(steps: Seq<RunStep>, from: int, to: int) -> bool {
    forall|i: int|
        from <= i < to ==> (#[trigger] steps[i] matches RunStep::Supervise(event, _)
            ==> !Supervisor::shows_valid_cookie(event))
}

proof fn lemma_run_keeps_the_limit(first: Supervisor, steps: Seq<RunStep>, n: int)
    ensures
        run_at(first, steps, n).count <= MAX_MFA_PUSH_ATTEMPTS,
    decreases n,
{
    if n > 0 {
        lemma_run_keeps_the_limit(first, steps, n - 1);
        match steps[n - 1] {
            RunStep::Poll(p, event) => law_polls_keep_the_limit(
                p,
                event,
                run_at(first, steps, n - 1).count,
            ),
            _ => {},
        }
    }
}

proof fn lemma_run_counts_what_it_sends(
    first: Supervisor,
    steps: Seq<RunStep>,
    from: int,
    to: int,
)
    requires
        0 <= from <= to <= steps.len(),
        no_accepted_cookie(steps, from, to),
    ensures
        run_at(first, steps, to).count == run_at(first, steps, from).count + sent_between(
            first,
            steps,
            from,
            to,
        ),
    decreases to - from,
{
    if from < to {
        lemma_run_counts_what_it_sends(first, steps, from, to - 1);
        lemma_run_keeps_the_limit(first, steps, to - 1);
        match steps[to - 1] {
            RunStep::Poll(p, event) => law_polls_keep_the_limit(
                p,
                event,
                run_at(first, steps, to - 1).count,
            ),
            _ => {},
        }
    }
}

/// However a run of the supervisor goes, between two cookies that the VPN
/// accepts, or before the first, it lets no more than three notifications
/// through.
pub proof fn law_three_notifications_per_cookie(
    first: Supervisor,
    steps: Seq<RunStep>,
    from: int,
    to: int,
)
    requires
        0 <= from <= to <= steps.len(),
        no_accepted_cookie(steps, from, to),
    ensures
        sent_between(first, steps, from, to) <= 3,
        run_at(first, steps, to).count <= 3,
{
    lemma_run_keeps_the_limit(first, steps, to);
    lemma_run_counts_what_it_sends(first, steps, from, to);
}

/// Once a run has let three notifications through, and no cookie that the VPN
/// accepts has turned up since, no check leads to the browser, whatever it
/// finds; an attempt to open one fails with the error for the limit; and no
/// session, whatever it meets, lets a fourth notification through.
pub proof fn law_no_fourth_notification(
    first: Supervisor,
    steps: Seq<RunStep>,
    from: int,
    to: int,
    event: Event,
    now: Clock,
    vpn_url: Seq<char>,
    headless: bool,
    step: RunStep,
)
    requires
        0 <= from <= to <= steps.len(),
        no_accepted_cookie(steps, from, to),
        sent_between(first, steps, from, to) == 3,
    ensures
        ({
            let run = run_at(first, steps, to);
            &&& run.supervisor.turn_of(event, run.count >= MAX_MFA_PUSH_ATTEMPTS, now).action
                != Action::RefreshCookie
            &&& start_of(run.count, vpn_url, headless) == Err::<Launch, FetchError>(
                FetchError::Limit(MfaAttemptLimitReached { attempts: 3 }),
            )
            &&& !sends(run, step)
        }),
{
    lemma_run_keeps_the_limit(first, steps, to);
    lemma_run_counts_what_it_sends(first, steps, from, to);
    match step {
        RunStep::Poll(p, event) => law_polls_keep_the_limit(
            p,
            event,
            run_at(first, steps, to).count,
        ),
        _ => {},
    }
}

/// After a cookie that the VPN accepts, and that the supervisor waited for,
/// three notifications are allowed again.
pub proof fn law_accepted_cookie_allows_three_again(run: RunView, event: Event, now: Clock)
    requires
        Supervisor::shows_valid_cookie(event),
        run.supervisor.turn_of(event, run.count >= MAX_MFA_PUSH_ATTEMPTS, now).action
            != Action::Nothing,
    ensures
        run_step(run, RunStep::Supervise(event, now)).count == 0,
{
}

/// The browser is opened only for a cookie that the VPN rejected.
pub proof fn law_browser_is_for_rejected_cookies(
    s: Supervisor,
    event: Event,
    exhausted: bool,
    now: Clock,
)
    requires
        s.turn_of(event, exhausted, now).action == Action::RefreshCookie,
    ensures
        event == (Event::Checked { status: CookieStatus::Invalid }),
        !exhausted,
{
}

/// The count of notifications is reset only where a cookie that the VPN
/// accepts turns up.
pub proof fn law_reset_needs_a_valid_cookie(
    s: Supervisor,
    event: Event,
    exhausted: bool,
    now: Clock,
)
    requires
        s.turn_of(event, exhausted, now).reset,
    ensures
        event matches Event::Checked { status } && status == CookieStatus::Valid
            || event == (Event::Refreshed { captured: true }),
{
}

/// The program ends only when it is told to, or when the VPN process cannot
/// be started at the very first attempt: a failed sign-in never ends it.
pub proof fn law_failed_sign_in_never_ends_the_program(
    s: Supervisor,
    event: Event,
    exhausted: bool,
    now: Clock,
)
    requires
        s.stage != Stage::Over,
        s.turn_of(event, exhausted, now).after.stage == Stage::Over,
    ensures
        event matches Event::Waited { why, .. } && why == WaitResult::Stop || (s.stage
            == Stage::FirstStart && event == (Event::VpnStarted { running: false })),
{
}

/// Whether the services run at a stage.
pub open spec fn services_run(stage: Stage) -> bool {
    match stage {
        Stage::Created | Stage::FirstCheck | Stage::FirstRefresh | Stage::Services {
            ..
        } => false,
        _ => true,
    }
}

/// The services are started before the VPN, and however the first sign-in
/// went: once the supervisor has got beyond it, they run, with the VPN only
/// if there is a usable cookie.
pub proof fn law_services_come_first(
    s: Supervisor,
    event: Event,
    exhausted: bool,
    now: Clock,
)
    ensures
        ({
            let turn = s.turn_of(event, exhausted, now);
            &&& turn.action == Action::StartVpn ==> services_run(turn.after.stage)
            &&& services_run(s.stage) ==> services_run(turn.after.stage)
            &&& !services_run(s.stage) && services_run(turn.after.stage) ==> event
                == Event::ServicesUp
            &&& s.stage == Stage::FirstRefresh && event is Refreshed ==> turn.action
                == Action::StartServices
        }),
{
}

/// A VPN that died is started again only with a cookie that was found usable
/// or freshly captured.
pub proof fn law_vpn_starts_only_with_a_cookie(
    s: Supervisor,
    event: Event,
    exhausted: bool,
    now: Clock,
)
    requires
        s.turn_of(event, exhausted, now).action == Action::StartVpn,
    ensures
        match event {
            Event::Checked { status } => status != CookieStatus::Invalid,
            Event::Refreshed { captured } => captured,
            Event::ServicesUp => s.stage == (Stage::Services { usable: true }),
            _ => false,
        },
{
}

/// Whether the supervisor, at this stage, waits for an event of this kind.
pub open spec fn awaits(stage: Stage, event: Event) -> bool {
    match event {
        Event::Begin => stage == Stage::Created,
        Event::Checked { .. } => stage == Stage::FirstCheck || stage == Stage::ReviveCheck
            || stage is Check,
        Event::Refreshed { .. } => stage == Stage::FirstRefresh || stage == Stage::ReviveRefresh
            || stage == Stage::CheckRefresh,
        Event::ServicesUp => stage is Services,
        Event::VpnStarted { .. } => stage == Stage::FirstStart || stage == Stage::ReviveStart
            || stage == Stage::Restart,
        Event::Waited { .. } => stage == Stage::Watching,
    }
}

/// An event that is not waited for changes nothing and asks for nothing; any
/// other asks for something. The check interval is never changed.
pub proof fn law_only_awaited_events_count(
    s: Supervisor,
    event: Event,
    exhausted: bool,
    now: Clock,
)
    ensures
        s.turn_of(event, exhausted, now).after.check_interval == s.check_interval,
        awaits(s.stage, event) <==> s.turn_of(event, exhausted, now).action != Action::Nothing,
        !awaits(s.stage, event) ==> s.turn_of(event, exhausted, now).after == s && !s.turn_of(
            event,
            exhausted,
            now,
        ).reset,
{
}

/// A VPN that runs is restarted only on an event that shows a cookie that the
/// VPN accepts: never with one that was rejected, and never after a sign-in
/// that failed.
pub proof fn law_restart_needs_an_accepted_cookie(
    s: Supervisor,
    event: Event,
    exhausted: bool,
    now: Clock,
)
    requires
        s.turn_of(event, exhausted, now).action == Action::RestartVpn,
    ensures
        event == (Event::Checked { status: CookieStatus::Valid }) || event == (Event::Refreshed {
            captured: true,
        }),
        s.stage is Check || s.stage == Stage::CheckRefresh,
{
}

/// After a sign-in that failed, whatever runs is left alone: the supervisor
/// pauses and tries again later, or, at the very beginning, goes on to the
/// services and pauses without having started the VPN.
pub proof fn law_failed_sign_in_leaves_the_vpn_alone(
    s: Supervisor,
    exhausted: bool,
    now: Clock,
    later: Clock,
)
    requires
        s.stage == Stage::CheckRefresh || s.stage == Stage::ReviveRefresh || s.stage
            == Stage::FirstRefresh,
    ensures
        ({
            let turn = s.turn_of(Event::Refreshed { captured: false }, exhausted, now);
            let next = turn.after.turn_of(Event::ServicesUp, exhausted, later);
            &&& !turn.reset
            &&& s.stage != Stage::FirstRefresh ==> turn.action is Wait && turn.after == (Supervisor {
                stage: Stage::Watching,
                ..s
            })
            &&& s.stage == Stage::FirstRefresh ==> turn.action == Action::StartServices
                && next.action is Wait && next.after == (Supervisor {
                stage: Stage::Watching,
                last_check: later.mono,
                last_wall: later.wall,
                ..s
            })
        }),
{
}

/// After a sign-in that succeeded the VPN is started, or restarted if it runs;
/// at the very beginning the services come first.
pub proof fn law_fresh_cookie_is_put_to_use(
    s: Supervisor,
    exhausted: bool,
    now: Clock,
    later: Clock,
)
    ensures
        ({
            let turn = s.turn_of(Event::Refreshed { captured: true }, exhausted, now);
            let next = turn.after.turn_of(Event::ServicesUp, exhausted, later);
            &&& s.stage == Stage::CheckRefresh ==> turn.action == Action::RestartVpn && turn.reset
            &&& s.stage == Stage::ReviveRefresh ==> turn.action == Action::StartVpn && turn.reset
            &&& s.stage == Stage::FirstRefresh ==> turn.action == Action::StartServices
                && turn.reset && next.action == Action::StartVpn
        }),
{
}

/// What a check of the cookie leads to, wherever it is made. A rejected cookie
/// is refreshed unless the limit of notifications is reached. Any other leads
/// on: to the services and the VPN at the beginning, to the VPN where it died;
/// where it runs, it is left alone but for a restart after a resume with a
/// cookie that is accepted.
pub proof fn law_checks_lead_on(
    s: Supervisor,
    status: CookieStatus,
    exhausted: bool,
    now: Clock,
    later: Clock,
)
    requires
        s.stage == Stage::FirstCheck || s.stage == Stage::ReviveCheck || s.stage is Check,
    ensures
        ({
            let turn = s.turn_of(Event::Checked { status }, exhausted, now);
            let next = turn.after.turn_of(Event::ServicesUp, exhausted, later);
            &&& turn.action == Action::RefreshCookie <==> status == CookieStatus::Invalid
                && !exhausted
            &&& turn.reset <==> status == CookieStatus::Valid
            &&& s.stage == Stage::FirstCheck && turn.action != Action::RefreshCookie ==> {
                &&& turn.action == Action::StartServices
                &&& status != CookieStatus::Invalid ==> next.action == Action::StartVpn
                &&& status == CookieStatus::Invalid ==> next.action is Wait
            }
            &&& s.stage == Stage::ReviveCheck && turn.action != Action::RefreshCookie ==> {
                &&& status != CookieStatus::Invalid ==> turn.action == Action::StartVpn
                &&& status == CookieStatus::Invalid ==> turn.action is Wait && turn.after.stage
                    == Stage::Watching
            }
            &&& s.stage matches Stage::Check { forced, at } ==> {
                &&& turn.action == Action::RestartVpn <==> status == CookieStatus::Valid && forced
                &&& turn.action is Wait <==> turn.action != Action::RestartVpn && turn.action
                    != Action::RefreshCookie
                &&& turn.action is Wait ==> turn.after.stage == Stage::Watching
                &&& turn.after.last_check == if status == CookieStatus::NetworkError {
                    s.last_check
                } else {
                    at
                }
            }
            &&& turn.after.last_wall == s.last_wall
            &&& !(s.stage is Check) ==> turn.after.last_check == s.last_check
        }),
{
}

/// Which answer a refresh or a start is awaited in: what was asked for is what
/// is waited for next.
pub proof fn law_answers_are_awaited(
    s: Supervisor,
    event: Event,
    exhausted: bool,
    now: Clock,
    answer: Event,
)
    ensures
        ({
            let turn = s.turn_of(event, exhausted, now);
            let stage = turn.after.stage;
            &&& turn.action == Action::CheckCookie || turn.action == Action::CheckCookieWithRetry
                ==> (awaits(stage, answer) <==> answer is Checked)
            &&& turn.action == Action::RefreshCookie ==> (awaits(stage, answer) <==> answer
                is Refreshed)
            &&& turn.action == Action::StartServices ==> (awaits(stage, answer) <==> answer
                == Event::ServicesUp)
            &&& turn.action == Action::StartVpn || turn.action == Action::RestartVpn ==> (awaits(
                stage,
                answer,
            ) <==> answer is VpnStarted)
            &&& turn.action is Wait ==> (awaits(stage, answer) <==> answer is Waited)
            &&& turn.action == Action::ShutDown || turn.action == Action::Fail ==> !awaits(
                stage,
                answer,
            )
        }),
{
}

/// The supervisor is set off with a check of the cookie.
pub proof fn law_first_thing_is_the_cookie(
    options: SupervisorOptions,
    s: Supervisor,
    exhausted: bool,
    now: Clock,
)
    requires
        call_ensures(Supervisor::new, (&options,), s),
    ensures
        s.check_interval == options.check_interval,
        s.turn_of(Event::Begin, exhausted, now).action == Action::CheckCookie,
{
}

/// A VPN that was started is watched from then on; one that could not be ends
/// the program at its very first start and is tried again later at any other.
pub proof fn law_started_vpn_is_watched(
    s: Supervisor,
    running: bool,
    exhausted: bool,
    now: Clock,
)
    ensures
        ({
            let turn = s.turn_of(Event::VpnStarted { running }, exhausted, now);
            &&& s.stage == Stage::FirstStart && running ==> turn.action is Wait && turn.after == (
            Supervisor {
                stage: Stage::Watching,
                last_check: now.mono,
                last_wall: now.wall,
                ..s
            })
            &&& s.stage == Stage::FirstStart && !running ==> turn.action == Action::Fail
            &&& s.stage == Stage::ReviveStart || s.stage == Stage::Restart ==> turn.action is Wait
                && turn.after == (Supervisor { stage: Stage::Watching, ..s })
        }),
{
}

/// How a pause ends. A stop is always heeded. A VPN that died has its cookie
/// checked at once, and that counts as a check. While the VPN runs, a wake-up
/// and a jump of the wall clock by more than half a minute and four polls lead
/// to a check with retries; else a check is made exactly where the last one
/// lies a check interval back; else the next pause follows.
pub proof fn law_end_of_a_pause(
    s: Supervisor,
    why: WaitResult,
    alive: bool,
    exhausted: bool,
    now: Clock,
)
    requires
        s.stage == Stage::Watching,
    ensures
        ({
            let turn = s.turn_of(Event::Waited { why, alive }, exhausted, now);
            let jump = now.wall - s.last_wall;
            let resumed = why == WaitResult::Wake || jump > 30_000_000_000 && jump > 4
                * poll_interval_of(s.check_interval);
            let due = now.mono - s.last_check >= s.check_interval || s.check_interval == 0;
            &&& why == WaitResult::Stop <==> turn.action == Action::ShutDown
            &&& why != WaitResult::Stop ==> turn.after.last_wall == now.wall
            &&& why != WaitResult::Stop && !alive ==> turn.action == Action::CheckCookie
                && turn.after.stage == Stage::ReviveCheck && turn.after.last_check == now.mono
            &&& why != WaitResult::Stop && alive ==> {
                &&& turn.action == Action::CheckCookieWithRetry <==> resumed
                &&& turn.action == Action::CheckCookie <==> due && !resumed
                &&& turn.action is Wait <==> !due && !resumed
                &&& turn.after.last_check == s.last_check
                &&& turn.after.stage == if resumed {
                    Stage::Check { forced: true, at: now.mono }
                } else if due {
                    Stage::Check { forced: false, at: now.mono }
                } else {
                    Stage::Watching
                }
            }
        }),
{
}

/// A clock that was set back neither looks like a suspension nor makes a check
/// due.
pub proof fn law_clock_set_back_is_no_resume(
    s: Supervisor,
    exhausted: bool,
    now: Clock,
)
    requires
        s.stage == Stage::Watching,
        now.wall <= s.last_wall,
        now.mono <= s.last_check,
        s.check_interval > 0,
    ensures
        s.turn_of(
            Event::Waited { why: WaitResult::Timeout, alive: true },
            exhausted,
            now,
        ).action is Wait,
{
}

/// Every pause is a quarter of the check interval long, rounded down, but at
/// most fifteen seconds.
pub proof fn law_pauses_are_polls(s: Supervisor, event: Event, exhausted: bool, now: Clock, poll: u128)
    requires
        call_ensures(poll_interval, (s.check_interval,), poll),
    ensures
        s.turn_of(event, exhausted, now).action matches Action::Wait(pause) ==> pause == poll,
        poll <= 15_000_000_000,
        4 * poll <= s.check_interval,
        poll == 15_000_000_000 || s.check_interval < 4 * poll + 4,
        poll_interval_of(s.check_interval) == poll,
{
}

/// After a resume the check is repeated after pauses that grow by half each
/// time, from one second up to ten, for as long as the VPN cannot be asked and
/// the deadline lies ahead; a pause never goes beyond the deadline.
pub proof fn law_retry_schedule(
    start: u128,
    max_wait: u128,
    first: CookieRetry,
    r: CookieRetry,
    status: CookieStatus,
    now: u128,
)
    requires
        call_ensures(CookieRetry::start, (start, max_wait), first),
    ensures
        first.delay == 1_000_000_000,
        RESUME_MAX_WAIT == 60_000_000_000,
        start + max_wait <= u128::MAX ==> first.deadline == start + max_wait,
        start + max_wait > u128::MAX ==> first.deadline == u128::MAX,
        ({
            let (after, step) = retry_step(r, status, now);
            &&& step is Sleep <==> status == CookieStatus::NetworkError && now < r.deadline
            &&& step matches RetryStep::Done(s) ==> s == status && after == r
            &&& step matches RetryStep::Sleep(pause) ==> {
                &&& pause == if r.delay <= r.deadline - now {
                    r.delay as int
                } else {
                    r.deadline - now
                }
                &&& after.deadline == r.deadline
                &&& after.delay == if 3 * r.delay >= 20_000_000_000 {
                    10_000_000_000
                } else {
                    3 * r.delay / 2
                }
            }
        }),
{
}

/// The services listen where the configuration says: each setting is its own
/// field, or its default where the file does not have it, and the PAC server
/// runs exactly if it is asked for.
pub proof fn law_services_are_where_configured(cfg: FileConfig, serve_pac: bool, r: ServicePlan)
    requires
        call_ensures(start_services, (&cfg, serve_pac), r),
    ensures
        r.upstream_port == (match cfg.socks_port {
            Some(p) => p,
            None => 1080u16,
        }),
        cfg.routing_proxy is None ==> r.routing_bind@ == "127.0.0.1"@ && r.routing_port == 1081,
        cfg.routing_proxy matches Some(t) ==> {
            &&& t.bind matches Some(b) ==> r.routing_bind@ == b@
            &&& t.bind is None ==> r.routing_bind@ == "127.0.0.1"@
            &&& t.port matches Some(p) ==> r.routing_port == p
            &&& t.port is None ==> r.routing_port == 1081
        },
        r.pac is Some <==> serve_pac,
        r.pac matches Some((bind, port)) ==> {
            &&& cfg.pac_server is None ==> bind@ == "127.0.0.1"@ && port == 8091
            &&& cfg.pac_server matches Some(t) ==> {
                &&& t.bind matches Some(b) ==> bind@ == b@
                &&& t.bind is None ==> bind@ == "127.0.0.1"@
                &&& t.port matches Some(p) ==> port == p
                &&& t.port is None ==> port == 8091
            }
        },
{
    law_text_settings_are_their_fields(cfg, "127.0.0.1"@);
    law_port_settings_are_their_fields(cfg, 1080);
    law_port_settings_are_their_fields(cfg, 1081);
    law_port_settings_are_their_fields(cfg, 8091);
}

/// What is done about a cookie before the VPN is started, and whether a
/// refresh has a window: it goes without one only with credentials, where no
/// window was asked for, and not on macOS.
pub proof fn law_cookie_decisions(
    status: CookieStatus,
    exhausted: bool,
    decision: CookieDecision,
    has_credentials: bool,
    no_headless: bool,
    macos: bool,
    headless: bool,
)
    requires
        call_ensures(ensure_valid_cookie, (status, exhausted), decision),
        call_ensures(refresh_headless, (has_credentials, no_headless, macos), headless),
    ensures
        decision == CookieDecision::Use <==> status != CookieStatus::Invalid,
        decision == CookieDecision::Refresh <==> status == CookieStatus::Invalid && !exhausted,
        headless ==> has_credentials && !no_headless && !macos,
        has_credentials && !no_headless && !macos ==> headless,
{
}

/// What the program does on an event is what the laws of the supervisor speak
/// of, on the count that it has; and the count is set back exactly where a
/// cookie turns up that the VPN accepts and that was waited for. At the limit
/// no browser is opened.
pub proof fn law_steps_keep_the_count(
    s: &mut Supervisor,
    event: Event,
    now: Clock,
    attempts: &mut MfaAttempts,
    r: Action,
)
    requires
        call_ensures(Supervisor::step, (s, event, now, attempts), r),
    ensures
        ({
            let turn = old(s).turn_of(event, old(attempts).count >= 3, now);
            let accepted = event == (Event::Checked { status: CookieStatus::Valid }) || event == (
            Event::Refreshed { captured: true });
            &&& r == turn.action
            &&& *final(s) == turn.after
            &&& accepted && awaits(old(s).stage, event) ==> final(attempts).count == 0
            &&& !(accepted && awaits(old(s).stage, event)) ==> final(attempts).count == old(
                attempts,
            ).count
            &&& old(attempts).count >= 3 ==> r != Action::RefreshCookie
        }),
{
}

/// The same without a count at hand: the action, the state after it, and
/// whether the count is to be set back.
pub proof fn law_turns_are_the_laws(
    s: &mut Supervisor,
    event: Event,
    exhausted: bool,
    now: Clock,
    r: (Action, bool),
)
    requires
        call_ensures(Supervisor::turn, (s, event, exhausted, now), r),
    ensures
        r.0 == old(s).turn_of(event, exhausted, now).action,
        *final(s) == old(s).turn_of(event, exhausted, now).after,
        r.1 <==> awaits(old(s).stage, event) && (event == (Event::Checked {
            status: CookieStatus::Valid,
        }) || event == (Event::Refreshed { captured: true })),
{
}

/// What the program does after a check that follows a resume is what the
/// schedule says.
pub proof fn law_retries_follow_the_schedule(
    retry: &mut CookieRetry,
    status: CookieStatus,
    now: u128,
    r: RetryStep,
)
    requires
        old(retry).wf(),
        call_ensures(CookieRetry::after_check, (retry, status, now), r),
    ensures
        r == retry_step(*old(retry), status, now).1,
        *final(retry) == retry_step(*old(retry), status, now).0,
{
}

} // verus!
