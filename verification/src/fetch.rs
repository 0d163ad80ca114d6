//! Capturing a fresh cookie: the decisions of one browser session, poll by
//! poll, and of the attempt as a whole, which starts over with a visible
//! window where a headless session meets a prompt that it cannot answer.
use vstd::prelude::*;
use vstd::string::*;

use crate::config::{
    cfg_string, chromium_path, default_browser_profile_dir, effective_text,
    law_text_settings_are_their_fields, COOKIE_NAME, DEFAULT_VPN_URL,
};
use crate::config_file::FileConfig;
use crate::cookie::CookieStatus;
use crate::mfa::{
    count_after, recorded, MfaAttemptLimitReached, MfaAttempts, MfaPhase,
    PhaseView, MAX_MFA_PUSH_ATTEMPTS,
};
use crate::text::{chars_of, concat2, contains, decimal, decimal_of, has_text, opt_text, path_below, same};

verus! {

// ── One browser session ──────────────────────────────────────────────────

/// What is known of the notification in flight. It keeps a number screen from
/// being counted again after its notification was triggered here.
#[derive(Debug, Clone)]
pub enum MfaAttemptState {
    /// None is in flight.
    Idle,
    /// One was sent; its number has not been seen.
    Triggered,
    /// One was sent and shows this number.
    Number(String),
}

/// A state by its contents.
pub enum AttemptStateView {
    Idle,
    Triggered,
    Number(Seq<char>),
}

impl View for MfaAttemptState {
    type V = AttemptStateView;

    open spec fn view(&self) -> AttemptStateView {
        match self {
            MfaAttemptState::Idle => AttemptStateView::Idle,
            MfaAttemptState::Triggered => AttemptStateView::Triggered,
            MfaAttemptState::Number(n) => AttemptStateView::Number(n@),
        }
    }
}

/// A browser session between two polls.
pub struct FetchSession {
    headless: bool,
    warned_invalid: bool,
    notified: Option<String>,
    state: MfaAttemptState,
    stuck: u32,
    last_url: String,
}

/// A session by its contents.
pub struct FetchSessionView {
    /// No window is visible.
    pub headless: bool,
    /// The user has been warned of a cookie that the VPN rejects.
    pub warned_invalid: bool,
    /// The number that the user was last notified of.
    pub notified: Option<Seq<char>>,
    /// The notification in flight.
    pub state: AttemptStateView,
    /// For how many polls in a row the page has not changed.
    pub stuck: u32,
    /// The page at the last poll.
    pub last_url: Seq<char>,
}

impl View for FetchSession {
    type V = FetchSessionView;

    closed spec fn view(&self) -> FetchSessionView {
        FetchSessionView {
            headless: self.headless,
            warned_invalid: self.warned_invalid,
            notified: opt_text(self.notified),
            state: self.state@,
            stuck: self.stuck,
            last_url: self.last_url@,
        }
    }
}

/// A session that has just been opened.
pub open spec fn new_fetch_session(headless: bool) -> FetchSessionView {
    FetchSessionView {
        headless,
        warned_invalid: false,
        notified: None,
        state: AttemptStateView::Idle,
        stuck: 0,
        last_url: Seq::empty(),
    }
}

/// What is done about a cookie that the browser holds.
#[derive(Debug, Clone, Copy, PartialEq, Eq, Structural)]
pub enum CookieAction {
    /// The VPN accepts it: the session is over.
    Capture,
    /// The VPN does not accept it; the user is warned, once.
    Warn,
    /// The VPN does not accept it.
    Wait,
}

/// What is done about a cookie with this status.
pub open spec fn cookie_step(s: FetchSessionView, status: CookieStatus) -> (
    FetchSessionView,
    CookieAction,
) {
    if status == CookieStatus::Valid {
        (s, CookieAction::Capture)
    } else if !s.warned_invalid {
        (FetchSessionView { warned_invalid: true, ..s }, CookieAction::Warn)
    } else {
        (s, CookieAction::Wait)
    }
}

/// After this many polls without a change a page counts as stuck.
pub const STUCK_POLLS: u32 = 5;

/// The page that hangs without a window.
pub const DEVICE_AUTH_PATH: &'static str = "/DeviceAuthTls";

/// What is done about the page that is open: a session without a window that
/// has been on the device-authentication page for too long loads the VPN's
/// page again (`true`).
pub open spec fn url_step(s: FetchSessionView, url: Seq<char>) -> (FetchSessionView, bool) {
    let stuck: u32 = if url != s.last_url {
        0
    } else if s.stuck < u32::MAX {
        (s.stuck + 1) as u32
    } else {
        s.stuck
    };
    if s.headless && stuck >= STUCK_POLLS && has_text(url, DEVICE_AUTH_PATH@) {
        (FetchSessionView { stuck: 0, last_url: url, ..s }, true)
    } else {
        (FetchSessionView { stuck, last_url: url, ..s }, false)
    }
}

/// What is done about the phase that the page shows.
#[derive(Debug, Clone, Copy, PartialEq, Eq, Structural)]
pub enum PhaseAction {
    /// Nothing.
    Nothing,
    /// Click the Authenticator option, then report whether that worked.
    Click,
    /// A number is shown. A notification that was not counted before now is
    /// counted, under this ordinal; the number is put before the user if
    /// `announce` is set.
    Number { attempt: Option<usize>, announce: bool },
    /// A notification waits for approval. As above; the page's text is
    /// logged if `dump` is set.
    Pending { attempt: Option<usize>, dump: bool },
    /// Only a visible window can go on.
    NeedWindow,
    /// The limit of notifications is reached: the session is over.
    Limit(MfaAttemptLimitReached),
}

/// The session and the count after a phase was seen, and what is done.
pub struct PhaseStep {
    pub session: FetchSessionView,
    pub count: usize,
    pub action: PhaseAction,
}

/// Whether a number belongs to a notification that was not counted yet.
pub open spec fn is_new_number(state: AttemptStateView, number: Seq<char>) -> bool {
    match state {
        AttemptStateView::Idle => true,
        AttemptStateView::Triggered => false,
        AttemptStateView::Number(previous) => previous != number,
    }
}

/// A number screen: a notification is counted once, and its number announced
/// once if there is no window to show it.
pub open spec fn number_step(s: FetchSessionView, number: Seq<char>, count: usize) -> PhaseStep {
    let new = is_new_number(s.state, number);
    let announce = s.headless && s.notified != Some(number);
    if new && recorded(count) is Err {
        PhaseStep { session: s, count, action: PhaseAction::Limit(recorded(count)->Err_0) }
    } else {
        PhaseStep {
            session: FetchSessionView {
                state: AttemptStateView::Number(number),
                notified: if announce {
                    Some(number)
                } else {
                    s.notified
                },
                ..s
            },
            count: if new {
                count_after(count)
            } else {
                count
            },
            action: PhaseAction::Number {
                attempt: if new {
                    Some(recorded(count)->Ok_0)
                } else {
                    None
                },
                announce,
            },
        }
    }
}

/// An approval screen without a number: a notification is counted unless one
/// is in flight already.
pub open spec fn pending_step(s: FetchSessionView, count: usize) -> PhaseStep {
    let new = s.state is Idle;
    if new && recorded(count) is Err {
        PhaseStep { session: s, count, action: PhaseAction::Limit(recorded(count)->Err_0) }
    } else {
        PhaseStep {
            session: FetchSessionView {
                state: if new {
                    AttemptStateView::Triggered
                } else {
                    s.state
                },
                ..s
            },
            count: if new {
                count_after(count)
            } else {
                count
            },
            action: PhaseAction::Pending {
                attempt: if new {
                    Some(recorded(count)->Ok_0)
                } else {
                    None
                },
                dump: s.headless && s.notified is None,
            },
        }
    }
}

/// The choice of a method: without a window the Authenticator option is
/// clicked, unless the click's effect is still awaited, as long as the limit
/// is not reached.
pub open spec fn picker_step(s: FetchSessionView, count: usize) -> PhaseStep {
    PhaseStep {
        session: s,
        count,
        action: if !s.headless || s.state is Triggered {
            PhaseAction::Nothing
        } else if count >= MAX_MFA_PUSH_ATTEMPTS {
            PhaseAction::Limit(MfaAttemptLimitReached { attempts: count })
        } else {
            PhaseAction::Click
        },
    }
}

/// What is done about a phase, with `count` notifications sent so far.
pub open spec fn phase_step(s: FetchSessionView, phase: PhaseView, count: usize) -> PhaseStep {
    match phase {
        PhaseView::Nothing => PhaseStep { session: s, count, action: PhaseAction::Nothing },
        PhaseView::MethodPicker => picker_step(s, count),
        PhaseView::NumberMatch(number) => number_step(s, number, count),
        PhaseView::ApprovalPending => pending_step(s, count),
        PhaseView::InteractivePrompt => PhaseStep {
            session: s,
            count,
            action: if s.headless {
                PhaseAction::NeedWindow
            } else {
                PhaseAction::Nothing
            },
        },
    }
}

/// The session and the count after a click on the Authenticator option, and
/// what came of counting: a click that worked has sent a notification.
pub struct ClickStep {
    pub session: FetchSessionView,
    pub count: usize,
    pub attempt: Result<Option<usize>, MfaAttemptLimitReached>,
}

/// What follows a click.
pub open spec fn click_step(s: FetchSessionView, clicked: bool, count: usize) -> ClickStep {
    if !clicked {
        ClickStep { session: s, count, attempt: Ok(None) }
    } else {
        match recorded(count) {
            Ok(n) => ClickStep {
                session: FetchSessionView { state: AttemptStateView::Triggered, ..s },
                count: count_after(count),
                attempt: Ok(Some(n)),
            },
            Err(e) => ClickStep { session: s, count, attempt: Err(e) },
        }
    }
}

impl FetchSession {
    /// A session that has just been opened.
    pub fn new(headless: bool) -> (r: FetchSession)
        ensures
            r@ == new_fetch_session(headless),
    {
        let r = FetchSession {
            headless,
            warned_invalid: false,
            notified: None,
            state: MfaAttemptState::Idle,
            stuck: 0,
            last_url: String::new(),
        };
        assert(r.last_url@ =~= Seq::empty());
        r
    }

    /// Takes the status of the cookie that the browser holds.
    pub fn on_cookie(&mut self, status: CookieStatus) -> (r: CookieAction)
        ensures
            (final(self)@, r) == cookie_step(old(self)@, status),
    {
        if status == CookieStatus::Valid {
            CookieAction::Capture
        } else if !self.warned_invalid {
            self.warned_invalid = true;
            CookieAction::Warn
        } else {
            CookieAction::Wait
        }
    }

    /// Takes the address of the page that is open and says whether to load
    /// the VPN's page again.
    pub fn on_url(&mut self, url: &str) -> (r: bool)
        ensures
            (final(self)@, r) == url_step(old(self)@, url@),
    {
        if same(url, self.last_url.as_str()) {
            if self.stuck < u32::MAX {
                self.stuck = self.stuck + 1;
            }
        } else {
            self.stuck = 0;
            self.last_url = url.to_owned();
        }
        if self.headless && self.stuck >= STUCK_POLLS && contains(
            &chars_of(url),
            &chars_of(DEVICE_AUTH_PATH),
        ) {
            self.stuck = 0;
            return true;
        }
        false
    }

    fn is_new(&self, number: &str) -> (r: bool)
        ensures
            r == is_new_number(self@.state, number@),
    {
        match &self.state {
            MfaAttemptState::Idle => true,
            MfaAttemptState::Triggered => false,
            MfaAttemptState::Number(previous) => !same(previous.as_str(), number),
        }
    }

    fn already_notified(&self, number: &str) -> (r: bool)
        ensures
            r == (self@.notified == Some(number@)),
    {
        match &self.notified {
            Some(n) => same(n.as_str(), number),
            None => false,
        }
    }

    fn number_turn(&mut self, number: &str, attempts: &mut MfaAttempts) -> (r: PhaseAction)
        ensures
            number_step(old(self)@, number@, old(attempts).count) == (PhaseStep {
                session: final(self)@,
                count: final(attempts).count,
                action: r,
            }),
    {
        let mut attempt: Option<usize> = None;
        if self.is_new(number) {
            match attempts.record() {
                Ok(n) => {
                    attempt = Some(n);
                },
                Err(e) => {
                    return PhaseAction::Limit(e);
                },
            }
        }
        let announce: bool = self.headless && !self.already_notified(number);
        self.state = MfaAttemptState::Number(number.to_owned());
        if announce {
            self.notified = Some(number.to_owned());
        }
        PhaseAction::Number { attempt, announce }
    }

    fn pending_turn(&mut self, attempts: &mut MfaAttempts) -> (r: PhaseAction)
        ensures
            pending_step(old(self)@, old(attempts).count) == (PhaseStep {
                session: final(self)@,
                count: final(attempts).count,
                action: r,
            }),
    {
        let mut attempt: Option<usize> = None;
        if let MfaAttemptState::Idle = self.state {
            match attempts.record() {
                Ok(n) => {
                    attempt = Some(n);
                },
                Err(e) => {
                    return PhaseAction::Limit(e);
                },
            }
            self.state = MfaAttemptState::Triggered;
        }
        PhaseAction::Pending { attempt, dump: self.headless && self.notified.is_none() }
    }

    fn picker_turn(&self, attempts: &MfaAttempts) -> (r: PhaseAction)
        ensures
            r == picker_step(self@, attempts.count).action,
    {
        let awaited = match &self.state {
            MfaAttemptState::Triggered => true,
            _ => false,
        };
        if !self.headless || awaited {
            PhaseAction::Nothing
        } else if attempts.exhausted() {
            PhaseAction::Limit(MfaAttemptLimitReached { attempts: attempts.count })
        } else {
            PhaseAction::Click
        }
    }

    /// Takes the phase that the page shows, with the notifications that were
    /// sent so far, and says what to do.
    pub fn phase_turn(&mut self, phase: &MfaPhase, attempts: &mut MfaAttempts) -> (r: PhaseAction)
        ensures
            phase_step(old(self)@, phase@, old(attempts).count) == (PhaseStep {
                session: final(self)@,
                count: final(attempts).count,
                action: r,
            }),
    {
        match phase {
            MfaPhase::Nothing => PhaseAction::Nothing,
            MfaPhase::MethodPicker => self.picker_turn(attempts),
            MfaPhase::NumberMatch(number) => self.number_turn(number.as_str(), attempts),
            MfaPhase::ApprovalPending => self.pending_turn(attempts),
            MfaPhase::InteractivePrompt => if self.headless {
                PhaseAction::NeedWindow
            } else {
                PhaseAction::Nothing
            },
        }
    }

    /// Takes whether a click on the Authenticator option worked, with the
    /// notifications that were sent so far.
    pub fn click_turn(&mut self, clicked: bool, attempts: &mut MfaAttempts) -> (r: Result<
        Option<usize>,
        MfaAttemptLimitReached,
    >)
        ensures
            click_step(old(self)@, clicked, old(attempts).count) == (ClickStep {
                session: final(self)@,
                count: final(attempts).count,
                attempt: r,
            }),
    {
        if !clicked {
            return Ok(None);
        }
        match attempts.record() {
            Ok(n) => {
                self.state = MfaAttemptState::Triggered;
                Ok(Some(n))
            },
            Err(e) => Err(e),
        }
    }
}

/// What the user is told when no accepted cookie turned up in time.
pub fn no_cookie_message(max_wait_secs: u64) -> (r: String)
    ensures
        r@ == "did not find a valid "@ + COOKIE_NAME@ + " cookie within "@ + decimal(
            max_wait_secs as nat,
        ) + "s"@,
{
    let mut out = concat2("did not find a valid ", COOKIE_NAME);
    out.append(" cookie within ");
    out.append(decimal_of(max_wait_secs as u128).as_str());
    out.append("s");
    out
}

// ── The polls of a session ───────────────────────────────────────────────

/// What a session is waiting for in the course of a poll.
#[derive(Debug, Clone, Copy, PartialEq, Eq, Structural)]
pub enum PollStage {
    /// The page to open.
    Opening,
    /// The browser's cookies.
    Cookie,
    /// The address of the page.
    Url,
    /// The VPN's page to load again.
    Reload,
    /// What the page shows.
    Phase,
    /// The click on the Authenticator option.
    Click,
    /// What follows from what the page shows.
    FollowUp,
    /// The box that suppresses further prompts.
    Remember,
    /// The sign-in form.
    Form,
    /// The end of the pause between two polls.
    Pause,
    /// Nothing.
    Over,
}

/// What has happened in the course of a poll.
#[derive(Debug)]
pub enum PollEvent {
    /// What was asked for has been done.
    Done,
    /// The browser holds a session cookie with this status, or none.
    Cookie(Option<CookieStatus>),
    /// The page's address.
    Url(String),
    /// What the page shows.
    Phase(MfaPhase),
    /// The Authenticator option was clicked, or was not there.
    Clicked(bool),
    /// The form was filled; `expired` tells whether the time is up.
    Filled { expired: bool },
    /// The program is stopping.
    Stop,
}

/// An event by its contents.
pub enum PollEventView {
    Done,
    Cookie(Option<CookieStatus>),
    Url(Seq<char>),
    Phase(PhaseView),
    Clicked(bool),
    Filled { expired: bool },
    Stop,
}

impl View for PollEvent {
    type V = PollEventView;

    open spec fn view(&self) -> PollEventView {
        match self {
            PollEvent::Done => PollEventView::Done,
            PollEvent::Cookie(status) => PollEventView::Cookie(*status),
            PollEvent::Url(url) => PollEventView::Url(url@),
            PollEvent::Phase(phase) => PollEventView::Phase(phase@),
            PollEvent::Clicked(clicked) => PollEventView::Clicked(*clicked),
            PollEvent::Filled { expired } => PollEventView::Filled { expired: *expired },
            PollEvent::Stop => PollEventView::Stop,
        }
    }
}

/// What has to be done next in the course of a poll.
#[derive(Debug, Clone, Copy, PartialEq, Eq, Structural)]
pub enum PollAction {
    /// Look for a session cookie and have its status checked.
    LookForCookie,
    /// Read the page's address; first warn of a rejected cookie, if `warn` is
    /// set.
    ReadUrl { warn: bool },
    /// Load the VPN's page again and pause for three seconds.
    Reload,
    /// Read what the page shows.
    ReadPhase,
    /// Click the Authenticator option.
    Click,
    /// The click has sent the notification with this ordinal, if any: pause
    /// for two seconds.
    Settle { attempt: Option<usize> },
    /// A number is shown; see `PhaseAction`.
    Number { attempt: Option<usize>, announce: bool },
    /// A notification waits for approval; see `PhaseAction`.
    Pending { attempt: Option<usize>, dump: bool },
    /// Tick the box that suppresses further prompts.
    Remember,
    /// Fill the sign-in form, if there are credentials.
    FillForm,
    /// Pause for a second.
    Pause,
    /// Over: the cookie that was just checked is captured.
    Capture,
    /// Over: only a visible window can go on.
    NeedWindow,
    /// Over: the limit of notifications is reached.
    Limit(MfaAttemptLimitReached),
    /// Over: the time is up.
    TimedOut,
    /// Over: the program is stopping.
    Interrupted,
    /// Nothing: the event was not waited for.
    Nothing,
}

/// A session in the course of its polls.
pub struct FetchPoll {
    session: FetchSession,
    stage: PollStage,
}

/// A session in the course of its polls, by its contents.
pub struct FetchPollView {
    pub session: FetchSessionView,
    pub stage: PollStage,
}

impl View for FetchPoll {
    type V = FetchPollView;

    closed spec fn view(&self) -> FetchPollView {
        FetchPollView { session: self.session@, stage: self.stage }
    }
}

/// The session and the count after an event, and what is done.
pub struct PollTurn {
    pub poll: FetchPollView,
    pub count: usize,
    pub action: PollAction,
}

/// On to `stage` with `action`.
pub open spec fn poll_goes(
    session: FetchSessionView,
    stage: PollStage,
    count: usize,
    action: PollAction,
) -> PollTurn {
    PollTurn { poll: FetchPollView { session, stage }, count, action }
}

/// What the status of the browser's cookie leads to.
pub open spec fn cookie_turn(
    s: FetchSessionView,
    status: Option<CookieStatus>,
    count: usize,
) -> PollTurn {
    match status {
        None => poll_goes(s, PollStage::Url, count, PollAction::ReadUrl { warn: false }),
        Some(status) => {
            let (after, action) = cookie_step(s, status);
            match action {
                CookieAction::Capture => poll_goes(
                    after,
                    PollStage::Over,
                    count,
                    PollAction::Capture,
                ),
                CookieAction::Warn => poll_goes(
                    after,
                    PollStage::Url,
                    count,
                    PollAction::ReadUrl { warn: true },
                ),
                CookieAction::Wait => poll_goes(
                    after,
                    PollStage::Url,
                    count,
                    PollAction::ReadUrl { warn: false },
                ),
            }
        },
    }
}

/// What the page's address leads to.
pub open spec fn address_turn(s: FetchSessionView, url: Seq<char>, count: usize) -> PollTurn {
    let (after, reload) = url_step(s, url);
    if reload {
        poll_goes(after, PollStage::Reload, count, PollAction::Reload)
    } else {
        poll_goes(after, PollStage::Phase, count, PollAction::ReadPhase)
    }
}

/// What the page's phase leads to.
pub open spec fn shown_turn(s: FetchSessionView, phase: PhaseView, count: usize) -> PollTurn {
    let step = phase_step(s, phase, count);
    match step.action {
        PhaseAction::Nothing => poll_goes(
            step.session,
            PollStage::Remember,
            step.count,
            PollAction::Remember,
        ),
        PhaseAction::Click => poll_goes(
            step.session,
            PollStage::Click,
            step.count,
            PollAction::Click,
        ),
        PhaseAction::Number { attempt, announce } => poll_goes(
            step.session,
            PollStage::FollowUp,
            step.count,
            PollAction::Number { attempt, announce },
        ),
        PhaseAction::Pending { attempt, dump } => poll_goes(
            step.session,
            PollStage::FollowUp,
            step.count,
            PollAction::Pending { attempt, dump },
        ),
        PhaseAction::NeedWindow => poll_goes(
            step.session,
            PollStage::Over,
            step.count,
            PollAction::NeedWindow,
        ),
        PhaseAction::Limit(limit) => poll_goes(
            step.session,
            PollStage::Over,
            step.count,
            PollAction::Limit(limit),
        ),
    }
}

/// What a click leads to.
pub open spec fn clicked_turn(s: FetchSessionView, clicked: bool, count: usize) -> PollTurn {
    let step = click_step(s, clicked, count);
    match step.attempt {
        Ok(attempt) => poll_goes(
            step.session,
            PollStage::FollowUp,
            step.count,
            PollAction::Settle { attempt },
        ),
        Err(limit) => poll_goes(
            step.session,
            PollStage::Over,
            step.count,
            PollAction::Limit(limit),
        ),
    }
}

/// What the end of a poll leads to: a pause, unless the time is up.
pub open spec fn filled_turn(s: FetchSessionView, expired: bool, count: usize) -> PollTurn {
    if !expired {
        poll_goes(s, PollStage::Pause, count, PollAction::Pause)
    } else if count >= MAX_MFA_PUSH_ATTEMPTS {
        poll_goes(
            s,
            PollStage::Over,
            count,
            PollAction::Limit(MfaAttemptLimitReached { attempts: count }),
        )
    } else {
        poll_goes(s, PollStage::Over, count, PollAction::TimedOut)
    }
}

/// What is done on an event, with `count` notifications sent so far. A poll
/// looks for the cookie, then at the page's address, then at what the page
/// shows, and ends with the form and a pause. A stop is heeded where the
/// cookies are awaited and in the pause.
pub open spec fn poll_turn(p: FetchPollView, event: PollEventView, count: usize) -> PollTurn {
    let s = p.session;
    match (p.stage, event) {
        (PollStage::Opening, PollEventView::Done) => poll_goes(
            s,
            PollStage::Cookie,
            count,
            PollAction::LookForCookie,
        ),
        (PollStage::Cookie, PollEventView::Cookie(status)) => cookie_turn(s, status, count),
        (PollStage::Cookie, PollEventView::Stop) => poll_goes(
            s,
            PollStage::Over,
            count,
            PollAction::Interrupted,
        ),
        (PollStage::Url, PollEventView::Url(url)) => address_turn(s, url, count),
        (PollStage::Reload, PollEventView::Done) => poll_goes(
            s,
            PollStage::Cookie,
            count,
            PollAction::LookForCookie,
        ),
        (PollStage::Phase, PollEventView::Phase(phase)) => shown_turn(s, phase, count),
        (PollStage::Click, PollEventView::Clicked(clicked)) => clicked_turn(s, clicked, count),
        (PollStage::FollowUp, PollEventView::Done) => poll_goes(
            s,
            PollStage::Remember,
            count,
            PollAction::Remember,
        ),
        (PollStage::Remember, PollEventView::Done) => poll_goes(
            s,
            PollStage::Form,
            count,
            PollAction::FillForm,
        ),
        (PollStage::Form, PollEventView::Filled { expired }) => filled_turn(s, expired, count),
        (PollStage::Pause, PollEventView::Done) => poll_goes(
            s,
            PollStage::Cookie,
            count,
            PollAction::LookForCookie,
        ),
        (PollStage::Pause, PollEventView::Stop) => poll_goes(
            s,
            PollStage::Over,
            count,
            PollAction::Interrupted,
        ),
        _ => poll_goes(s, p.stage, count, PollAction::Nothing),
    }
}

impl FetchPoll {
    /// A session whose page is being opened.
    pub fn new(headless: bool) -> (r: FetchPoll)
        ensures
            r@ == new_fetch_poll(headless),
    {
        FetchPoll { session: FetchSession::new(headless), stage: PollStage::Opening }
    }

    fn go(&mut self, stage: PollStage, action: PollAction) -> (r: PollAction)
        ensures
            r == action,
            final(self)@.session == old(self)@.session,
            final(self)@.stage == stage,
    {
        self.stage = stage;
        action
    }

    fn take_cookie(&mut self, status: Option<CookieStatus>) -> (r: PollAction)
        ensures
            forall|count: usize| #[trigger]
                cookie_turn(old(self)@.session, status, count) == (PollTurn {
                    poll: final(self)@,
                    count,
                    action: r,
                }),
    {
        match status {
            None => self.go(PollStage::Url, PollAction::ReadUrl { warn: false }),
            Some(status) => match self.session.on_cookie(status) {
                CookieAction::Capture => self.go(PollStage::Over, PollAction::Capture),
                CookieAction::Warn => self.go(PollStage::Url, PollAction::ReadUrl { warn: true }),
                CookieAction::Wait => self.go(PollStage::Url, PollAction::ReadUrl { warn: false }),
            },
        }
    }

    fn take_phase(&mut self, phase: &MfaPhase, attempts: &mut MfaAttempts) -> (r: PollAction)
        ensures
            shown_turn(old(self)@.session, phase@, old(attempts).count) == (PollTurn {
                poll: final(self)@,
                count: final(attempts).count,
                action: r,
            }),
    {
        match self.session.phase_turn(phase, attempts) {
            PhaseAction::Nothing => self.go(PollStage::Remember, PollAction::Remember),
            PhaseAction::Click => self.go(PollStage::Click, PollAction::Click),
            PhaseAction::Number { attempt, announce } => self.go(
                PollStage::FollowUp,
                PollAction::Number { attempt, announce },
            ),
            PhaseAction::Pending { attempt, dump } => self.go(
                PollStage::FollowUp,
                PollAction::Pending { attempt, dump },
            ),
            PhaseAction::NeedWindow => self.go(PollStage::Over, PollAction::NeedWindow),
            PhaseAction::Limit(limit) => self.go(PollStage::Over, PollAction::Limit(limit)),
        }
    }

    /// Takes what has happened, with the notifications that were sent so far,
    /// and says what to do next. An event that is not waited for changes
    /// nothing.
    pub fn turn(&mut self, event: PollEvent, attempts: &mut MfaAttempts) -> (r: PollAction)
        ensures
            poll_turn(old(self)@, event@, old(attempts).count) == (PollTurn {
                poll: final(self)@,
                count: final(attempts).count,
                action: r,
            }),
    {
        match (self.stage, event) {
            (PollStage::Opening, PollEvent::Done) => self.go(
                PollStage::Cookie,
                PollAction::LookForCookie,
            ),
            (PollStage::Cookie, PollEvent::Cookie(status)) => self.take_cookie(status),
            (PollStage::Cookie, PollEvent::Stop) => self.go(
                PollStage::Over,
                PollAction::Interrupted,
            ),
            (PollStage::Url, PollEvent::Url(url)) => {
                if self.session.on_url(url.as_str()) {
                    self.go(PollStage::Reload, PollAction::Reload)
                } else {
                    self.go(PollStage::Phase, PollAction::ReadPhase)
                }
            },
            (PollStage::Reload, PollEvent::Done) => self.go(
                PollStage::Cookie,
                PollAction::LookForCookie,
            ),
            (PollStage::Phase, PollEvent::Phase(phase)) => self.take_phase(&phase, attempts),
            (PollStage::Click, PollEvent::Clicked(clicked)) => {
                match self.session.click_turn(clicked, attempts) {
                    Ok(attempt) => self.go(PollStage::FollowUp, PollAction::Settle { attempt }),
                    Err(limit) => self.go(PollStage::Over, PollAction::Limit(limit)),
                }
            },
            (PollStage::FollowUp, PollEvent::Done) => self.go(
                PollStage::Remember,
                PollAction::Remember,
            ),
            (PollStage::Remember, PollEvent::Done) => self.go(PollStage::Form, PollAction::FillForm),
            (PollStage::Form, PollEvent::Filled { expired }) => {
                if !expired {
                    self.go(PollStage::Pause, PollAction::Pause)
                } else if attempts.exhausted() {
                    let limit = MfaAttemptLimitReached { attempts: attempts.count };
                    self.go(PollStage::Over, PollAction::Limit(limit))
                } else {
                    self.go(PollStage::Over, PollAction::TimedOut)
                }
            },
            (PollStage::Pause, PollEvent::Done) => self.go(
                PollStage::Cookie,
                PollAction::LookForCookie,
            ),
            (PollStage::Pause, PollEvent::Stop) => self.go(
                PollStage::Over,
                PollAction::Interrupted,
            ),
            _ => PollAction::Nothing,
        }
    }
}

// ── The attempt as a whole ───────────────────────────────────────────────

/// What an attempt to capture a cookie starts from.
pub struct FetchOptions {
    /// The browser's profile directory; without one the profile is ephemeral.
    pub profile_dir: Option<String>,
    /// How long the user has for the whole sign-in, in seconds.
    pub max_wait_secs: u64,
    /// The browser's executable; without one it is looked for.
    pub chromium_path: Option<String>,
    /// Start without a visible window.
    pub headless: bool,
    /// The notifications that were sent so far; whoever runs several attempts
    /// hands the count on from one to the next.
    pub mfa_attempt_budget: MfaAttempts,
}

impl FetchOptions {
    /// The usual options: the persistent profile, five minutes, the configured
    /// executable, a visible window, and no notification sent.
    pub fn for_config(cfg: &FileConfig, state_dir: &str) -> (r: FetchOptions)
        ensures
            opt_text(r.profile_dir) == Some(path_below(state_dir@, "chromium-profile"@)),
            r.max_wait_secs == 300,
            opt_text(r.chromium_path) == opt_text(cfg.chromium_path),
            !r.headless,
            r.mfa_attempt_budget == (MfaAttempts { count: 0 }),
    {
        FetchOptions {
            profile_dir: Some(default_browser_profile_dir(state_dir)),
            max_wait_secs: 300,
            chromium_path: chromium_path(cfg),
            headless: false,
            mfa_attempt_budget: MfaAttempts::none(),
        }
    }
}

/// How a browser session ended.
#[derive(Debug)]
pub enum FetchOutcome {
    /// With a cookie that the VPN accepts.
    Cookie(String),
    /// At a prompt that only a visible window can answer.
    InteractionRequired,
}

/// Which browser session of an attempt is running.
#[derive(Debug, Clone, Copy, PartialEq, Eq, Structural)]
pub enum Launch {
    /// The first one, without a window.
    Headless,
    /// The second one, with a window, after one without met a prompt.
    Relaunched,
    /// The first one, with a window.
    Headed,
}

/// Why an attempt fails before or between browser sessions.
#[derive(Debug, Clone, Copy, PartialEq, Eq, Structural)]
pub enum FetchError {
    /// The limit of notifications is reached.
    Limit(MfaAttemptLimitReached),
    /// No VPN is configured.
    NoUrl,
    /// The program is stopping.
    Interrupted,
    /// A prompt needs a window, and the session with a window met it too.
    StillInteractive,
}

/// The words for a failed attempt.
pub open spec fn fetch_error_text(e: FetchError) -> Seq<char> {
    match e {
        FetchError::Limit(l) => crate::mfa::limit_text(l.attempts),
        FetchError::NoUrl =>
            "VPN_URL is not configured — set vpn_url in the config file or export VPN_URL"@,
        FetchError::Interrupted => "interrupted"@,
        FetchError::StillInteractive =>
            "interactive MFA required but headed browser also failed"@,
    }
}

impl FetchError {
    /// What the user is told.
    pub fn message(&self) -> (r: String)
        ensures
            r@ == fetch_error_text(*self),
    {
        match self {
            FetchError::Limit(l) => l.message(),
            FetchError::NoUrl =>
                "VPN_URL is not configured — set vpn_url in the config file or export VPN_URL".to_owned(),
            FetchError::Interrupted => "interrupted".to_owned(),
            FetchError::StillInteractive =>
                "interactive MFA required but headed browser also failed".to_owned(),
        }
    }
}

/// How an attempt starts: not at all once the limit is reached or without a
/// VPN, else with the session that was asked for.
pub open spec fn start_of(attempts: usize, vpn_url: Seq<char>, headless: bool) -> Result<
    Launch,
    FetchError,
> {
    if attempts >= MAX_MFA_PUSH_ATTEMPTS {
        Err(FetchError::Limit(MfaAttemptLimitReached { attempts }))
    } else if vpn_url.len() == 0 {
        Err(FetchError::NoUrl)
    } else if headless {
        Ok(Launch::Headless)
    } else {
        Ok(Launch::Headed)
    }
}

/// Starts an attempt to capture a cookie, with `attempts` notifications sent
/// so far.
pub fn fetch(cfg: &FileConfig, attempts: usize, headless: bool) -> (r: Result<Launch, FetchError>)
    ensures
        r == start_of(attempts, effective_text(*cfg, "VPN_URL"@, DEFAULT_VPN_URL@), headless),
{
    if attempts >= MAX_MFA_PUSH_ATTEMPTS {
        return Err(FetchError::Limit(MfaAttemptLimitReached { attempts }));
    }
    let vpn_url = cfg_string(cfg, "VPN_URL", DEFAULT_VPN_URL);
    if vpn_url.as_str().unicode_len() == 0 {
        return Err(FetchError::NoUrl);
    }
    if headless {
        Ok(Launch::Headless)
    } else {
        Ok(Launch::Headed)
    }
}

/// What follows a browser session.
#[derive(Debug)]
pub enum AfterSession {
    /// Save this cookie: the attempt has succeeded.
    Save(String),
    /// Open a browser with a visible window.
    Relaunch,
    /// The attempt has failed.
    Fail(FetchError),
}

/// Decides what follows a browser session that ended with `outcome`;
/// `stopping` tells whether the program is stopping. A session that started
/// out with a window never ends at a prompt.
pub fn after_session(launch: Launch, outcome: FetchOutcome, stopping: bool) -> (r: AfterSession)
    requires
        launch == Launch::Headed ==> outcome is Cookie,
    ensures
        match outcome {
            FetchOutcome::Cookie(c) => r matches AfterSession::Save(saved) && saved@ == c@,
            FetchOutcome::InteractionRequired => r == (if launch == Launch::Relaunched {
                AfterSession::Fail(FetchError::StillInteractive)
            } else if stopping {
                AfterSession::Fail(FetchError::Interrupted)
            } else {
                AfterSession::Relaunch
            }),
        },
{
    match outcome {
        FetchOutcome::Cookie(c) => AfterSession::Save(c),
        FetchOutcome::InteractionRequired => {
            if launch == Launch::Relaunched {
                AfterSession::Fail(FetchError::StillInteractive)
            } else if stopping {
                AfterSession::Fail(FetchError::Interrupted)
            } else {
                AfterSession::Relaunch
            }
        },
    }
}

// ── Laws ─────────────────────────────────────────────────────────────────

/// Whatever the page shows, the count stays within the limit and grows by at
/// most one, and only if the action reports a new attempt.
pub proof fn law_count_stays_within_the_limit(s: FetchSessionView, phase: PhaseView, count: usize)
    requires
        count <= MAX_MFA_PUSH_ATTEMPTS,
    ensures
        ({
            let step = phase_step(s, phase, count);
            &&& count <= step.count <= MAX_MFA_PUSH_ATTEMPTS
            &&& step.count <= count + 1
            &&& step.count == count + 1 <==> match step.action {
                PhaseAction::Number { attempt, .. } => attempt is Some,
                PhaseAction::Pending { attempt, .. } => attempt is Some,
                _ => false,
            }
        }),
{
}

/// Whatever happens in the course of the polls, the count stays within the
/// limit and never shrinks, and it grows exactly where an action reports a new
/// notification.
pub proof fn law_polls_keep_the_limit(p: FetchPollView, event: PollEventView, count: usize)
    requires
        count <= MAX_MFA_PUSH_ATTEMPTS,
    ensures
        ({
            let turn = poll_turn(p, event, count);
            &&& count <= turn.count <= MAX_MFA_PUSH_ATTEMPTS
            &&& turn.count == if (match turn.action {
                PollAction::Settle { attempt } => attempt is Some,
                PollAction::Number { attempt, .. } => attempt is Some,
                PollAction::Pending { attempt, .. } => attempt is Some,
                _ => false,
            }) {
                count + 1
            } else {
                count as int
            }
        }),
{
    match event {
        PollEventView::Phase(phase) => law_count_stays_within_the_limit(p.session, phase, count),
        _ => {},
    }
}

/// How many notifications are counted in the course of a session, event by
/// event.
pub open spec fn pushes_in(p: FetchPollView, events: Seq<PollEventView>, count: usize) -> nat
    decreases events.len(),
{
    if events.len() == 0 {
        0
    } else {
        let turn = poll_turn(p, events[0], count);
        (turn.count - count) as nat + pushes_in(turn.poll, events.drop_first(), turn.count)
    }
}

/// The count after a session.
pub open spec fn count_after_session(
    p: FetchPollView,
    events: Seq<PollEventView>,
    count: usize,
) -> usize
    decreases events.len(),
{
    if events.len() == 0 {
        count
    } else {
        let turn = poll_turn(p, events[0], count);
        count_after_session(turn.poll, events.drop_first(), turn.count)
    }
}

/// A session whose page is being opened.
pub open spec fn new_fetch_poll(headless: bool) -> FetchPollView {
    FetchPollView { session: new_fetch_session(headless), stage: PollStage::Opening }
}

/// How many notifications are counted in the course of several sessions that
/// share one count. Each is given by whether it goes without a window and by
/// what happens in it.
pub open spec fn pushes_in_sessions(
    sessions: Seq<(bool, Seq<PollEventView>)>,
    count: usize,
) -> nat
    decreases sessions.len(),
{
    if sessions.len() == 0 {
        0
    } else {
        let (headless, events) = sessions[0];
        let poll = new_fetch_poll(headless);
        pushes_in(poll, events, count) + pushes_in_sessions(
            sessions.drop_first(),
            count_after_session(poll, events, count),
        )
    }
}

proof fn lemma_pushes_in(p: FetchPollView, events: Seq<PollEventView>, count: usize)
    requires
        count <= MAX_MFA_PUSH_ATTEMPTS,
    ensures
        count_after_session(p, events, count) == count + pushes_in(p, events, count),
        count_after_session(p, events, count) <= MAX_MFA_PUSH_ATTEMPTS,
    decreases events.len(),
{
    if events.len() > 0 {
        law_polls_keep_the_limit(p, events[0], count);
        let turn = poll_turn(p, events[0], count);
        lemma_pushes_in(turn.poll, events.drop_first(), turn.count);
    }
}

/// However many sessions there are and whatever happens in them, they send no
/// more than three notifications together, as long as nothing resets the
/// count that they share.
pub proof fn law_at_most_three_notifications(
    sessions: Seq<(bool, Seq<PollEventView>)>,
    count: usize,
)
    requires
        count <= MAX_MFA_PUSH_ATTEMPTS,
    ensures
        count + pushes_in_sessions(sessions, count) <= MAX_MFA_PUSH_ATTEMPTS,
    decreases sessions.len(),
{
    if sessions.len() > 0 {
        let (headless, events) = sessions[0];
        let poll = new_fetch_poll(headless);
        lemma_pushes_in(poll, events, count);
        law_at_most_three_notifications(
            sessions.drop_first(),
            count_after_session(poll, events, count),
        );
    }
}

/// A session is over only with a cookie that the VPN accepts, at a prompt
/// that it cannot answer without a window, at the limit of notifications,
/// when its time is up, or when the program is stopping.
pub proof fn law_sessions_end_for_a_reason(p: FetchPollView, event: PollEventView, count: usize)
    requires
        p.stage != PollStage::Over,
        poll_turn(p, event, count).poll.stage == PollStage::Over,
    ensures
        match poll_turn(p, event, count).action {
            PollAction::Capture => event == PollEventView::Cookie(Some(CookieStatus::Valid)),
            PollAction::NeedWindow => p.session.headless && event == PollEventView::Phase(
                PhaseView::InteractivePrompt,
            ),
            PollAction::Limit(limit) => limit.attempts == count && count >= MAX_MFA_PUSH_ATTEMPTS,
            PollAction::TimedOut => event == (PollEventView::Filled { expired: true }),
            PollAction::Interrupted => event == PollEventView::Stop,
            _ => false,
        },
{
}

/// A cookie that the VPN accepts ends the session at once.
pub proof fn law_accepted_cookie_is_captured(p: FetchPollView, count: usize)
    requires
        p.stage == PollStage::Cookie,
    ensures
        poll_turn(p, PollEventView::Cookie(Some(CookieStatus::Valid)), count).action
            == PollAction::Capture,
{
}

/// A poll that nothing ends goes through all its steps and comes back to the
/// cookies: here one on a page that shows no prompt.
pub proof fn law_polls_come_round(
    s: FetchSessionView,
    url: Seq<char>,
    count: usize,
)
    requires
        !url_step(s, url).1,
    ensures
        ({
            let p0 = FetchPollView { session: s, stage: PollStage::Cookie };
            let t1 = poll_turn(p0, PollEventView::Cookie(None), count);
            let t2 = poll_turn(t1.poll, PollEventView::Url(url), t1.count);
            let t3 = poll_turn(t2.poll, PollEventView::Phase(PhaseView::Nothing), t2.count);
            let t4 = poll_turn(t3.poll, PollEventView::Done, t3.count);
            let t5 = poll_turn(t4.poll, PollEventView::Filled { expired: false }, t4.count);
            let t6 = poll_turn(t5.poll, PollEventView::Done, t5.count);
            &&& t1.action == PollAction::ReadUrl { warn: false }
            &&& t2.action == PollAction::ReadPhase
            &&& t3.action == PollAction::Remember
            &&& t4.action == PollAction::FillForm
            &&& t5.action == PollAction::Pause
            &&& t6.action == PollAction::LookForCookie
            &&& t6.count == count
            &&& t6.poll.session == url_step(s, url).0
        }),
{
}

/// Once a click has sent a notification, a picker that lingers on the page is
/// not clicked again.
pub proof fn law_picker_is_clicked_once(s: FetchSessionView, count: usize, later: usize)
    requires
        count < MAX_MFA_PUSH_ATTEMPTS,
    ensures
        ({
            let after = click_step(s, true, count).session;
            let step = phase_step(after, PhaseView::MethodPicker, later);
            step.action == PhaseAction::Nothing && step.session == after && step.count == later
        }),
{
}

/// The number screen of a notification that was triggered here is not counted
/// again, and neither is a number that stays on the page.
pub proof fn law_notification_is_counted_once(
    s: FetchSessionView,
    number: Seq<char>,
    count: usize,
)
    requires
        count < MAX_MFA_PUSH_ATTEMPTS,
    ensures
        ({
            let clicked = click_step(s, true, count);
            let shown = phase_step(clicked.session, PhaseView::NumberMatch(number), clicked.count);
            let again = phase_step(shown.session, PhaseView::NumberMatch(number), shown.count);
            &&& clicked.count == count + 1
            &&& shown.count == count + 1
            &&& again.count == count + 1
            &&& again.action == PhaseAction::Number { attempt: None, announce: false }
            &&& again.session == shown.session
        }),
{
}

/// A session with a window never asks for one, never clicks and never
/// notifies.
pub proof fn law_headed_session_leaves_the_page_alone(
    s: FetchSessionView,
    phase: PhaseView,
    count: usize,
)
    requires
        !s.headless,
    ensures
        ({
            let action = phase_step(s, phase, count).action;
            &&& action != PhaseAction::NeedWindow
            &&& action != PhaseAction::Click
            &&& action matches PhaseAction::Number { announce, .. } ==> !announce
        }),
{
}

/// Once the limit is reached, no phase leads to a click, and what would be a
/// further notification ends the session; nor is a browser opened again.
pub proof fn law_no_push_beyond_the_limit(
    s: FetchSessionView,
    phase: PhaseView,
    vpn_url: Seq<char>,
)
    ensures
        ({
            let step = phase_step(s, phase, MAX_MFA_PUSH_ATTEMPTS);
            &&& step.action != PhaseAction::Click
            &&& step.count == MAX_MFA_PUSH_ATTEMPTS
        }),
        s.state is Idle && (phase is NumberMatch || phase is ApprovalPending) ==> phase_step(
            s,
            phase,
            MAX_MFA_PUSH_ATTEMPTS,
        ).action == PhaseAction::Limit(MfaAttemptLimitReached { attempts: MAX_MFA_PUSH_ATTEMPTS }),
        start_of(MAX_MFA_PUSH_ATTEMPTS, vpn_url, s.headless) == Err::<Launch, FetchError>(
            FetchError::Limit(MfaAttemptLimitReached { attempts: MAX_MFA_PUSH_ATTEMPTS }),
        ),
{
}

/// A number is announced when it is new to the user, and only without a
/// window.
pub proof fn law_new_numbers_are_announced(s: FetchSessionView, number: Seq<char>, count: usize)
    requires
        count < MAX_MFA_PUSH_ATTEMPTS,
    ensures
        phase_step(s, PhaseView::NumberMatch(number), count).action matches PhaseAction::Number {
            announce,
            ..
        } && announce == (s.headless && s.notified != Some(number)),
{
}

/// Neither the mode of a session nor what was notified is changed by anything
/// but the number screen; the mode is never changed.
pub proof fn law_session_keeps_its_mode(
    s: FetchSessionView,
    phase: PhaseView,
    clicked: bool,
    url: Seq<char>,
    status: CookieStatus,
    count: usize,
)
    ensures
        phase_step(s, phase, count).session.headless == s.headless,
        click_step(s, clicked, count).session.headless == s.headless,
        url_step(s, url).0.headless == s.headless,
        cookie_step(s, status).0.headless == s.headless,
        !(phase is NumberMatch) ==> phase_step(s, phase, count).session.notified == s.notified,
{
}

/// Whether a session, at this stage of a poll, waits for an event of this
/// kind.
pub open spec fn poll_awaits(stage: PollStage, event: PollEventView) -> bool {
    match event {
        PollEventView::Done => stage == PollStage::Opening || stage == PollStage::Reload || stage
            == PollStage::FollowUp || stage == PollStage::Remember || stage == PollStage::Pause,
        PollEventView::Cookie(_) => stage == PollStage::Cookie,
        PollEventView::Url(_) => stage == PollStage::Url,
        PollEventView::Phase(_) => stage == PollStage::Phase,
        PollEventView::Clicked(_) => stage == PollStage::Click,
        PollEventView::Filled { .. } => stage == PollStage::Form,
        PollEventView::Stop => stage == PollStage::Cookie || stage == PollStage::Pause,
    }
}

/// An event that is not waited for changes nothing; any other asks for
/// something, and what was asked for is what is waited for next.
pub proof fn law_polls_wait_for_what_they_asked(
    p: FetchPollView,
    event: PollEventView,
    count: usize,
    answer: PollEventView,
)
    ensures
        ({
            let turn = poll_turn(p, event, count);
            let stage = turn.poll.stage;
            let next = poll_awaits(stage, answer);
            &&& turn.action == PollAction::Nothing <==> !poll_awaits(p.stage, event)
            &&& turn.action == PollAction::Nothing ==> turn.poll == p && turn.count == count
            &&& turn.action == PollAction::LookForCookie ==> (next <==> answer is Cookie || answer
                is Stop)
            &&& turn.action is ReadUrl ==> (next <==> answer is Url)
            &&& turn.action == PollAction::ReadPhase ==> (next <==> answer is Phase)
            &&& turn.action == PollAction::Click ==> (next <==> answer is Clicked)
            &&& turn.action == PollAction::FillForm ==> (next <==> answer is Filled)
            &&& turn.action == PollAction::Pause ==> (next <==> answer is Done || answer is Stop)
            &&& turn.action == PollAction::Reload || turn.action is Settle || turn.action is Number
                || turn.action is Pending || turn.action == PollAction::Remember ==> (next
                <==> answer is Done)
            &&& turn.action == PollAction::Capture || turn.action == PollAction::NeedWindow
                || turn.action is Limit || turn.action == PollAction::TimedOut || turn.action
                == PollAction::Interrupted ==> !next && stage == PollStage::Over
        }),
{
}

/// The steps of a poll follow each other: opening, reloading and pausing lead
/// to the cookies; what follows from the page leads to the box, the box to the
/// form, and the form to a pause or to the end of the session.
pub proof fn law_steps_of_a_poll(p: FetchPollView, count: usize, expired: bool)
    ensures
        ({
            let done = poll_turn(p, PollEventView::Done, count);
            let filled = poll_turn(p, PollEventView::Filled { expired }, count);
            let stopped = poll_turn(p, PollEventView::Stop, count);
            &&& p.stage == PollStage::Opening || p.stage == PollStage::Reload || p.stage
                == PollStage::Pause ==> done.action == PollAction::LookForCookie
            &&& p.stage == PollStage::FollowUp ==> done.action == PollAction::Remember
            &&& p.stage == PollStage::Remember ==> done.action == PollAction::FillForm
            &&& done.poll.session == p.session && done.count == count
            &&& p.stage == PollStage::Form ==> {
                &&& filled.action == PollAction::Pause <==> !expired
                &&& filled.action == PollAction::TimedOut <==> expired && count < 3
                &&& filled.action is Limit <==> expired && count >= 3
                &&& filled.poll.session == p.session && filled.count == count
            }
            &&& p.stage == PollStage::Cookie || p.stage == PollStage::Pause ==> stopped.action
                == PollAction::Interrupted
        }),
{
}

/// A cookie is captured exactly if the VPN accepts it. One that it does not
/// accept, and one that could not be checked, is waited out, with a warning
/// the first time; without a cookie there is none.
pub proof fn law_only_accepted_cookies_are_captured(
    p: FetchPollView,
    event: PollEventView,
    status: Option<CookieStatus>,
    count: usize,
)
    ensures
        poll_turn(p, event, count).action == PollAction::Capture <==> p.stage == PollStage::Cookie
            && event == PollEventView::Cookie(Some(CookieStatus::Valid)),
        ({
            let turn = poll_turn(p, PollEventView::Cookie(status), count);
            let rejected = status is Some && status != Some(CookieStatus::Valid);
            p.stage == PollStage::Cookie && status != Some(CookieStatus::Valid) ==> {
                &&& turn.action == (PollAction::ReadUrl {
                    warn: rejected && !p.session.warned_invalid,
                })
                &&& turn.poll.session.warned_invalid <==> p.session.warned_invalid || rejected
                &&& turn.poll.session == (FetchSessionView {
                    warned_invalid: turn.poll.session.warned_invalid,
                    ..p.session
                })
                &&& turn.count == count
            }
        }),
{
}

/// The VPN's page is loaded again exactly for a session without a window whose
/// page is the device-authentication page and has not changed for five polls;
/// then, and with every change of the page, the polls are counted anew.
pub proof fn law_stuck_page_is_loaded_again(p: FetchPollView, url: Seq<char>, count: usize)
    requires
        p.stage == PollStage::Url,
    ensures
        ({
            let turn = poll_turn(p, PollEventView::Url(url), count);
            let after = turn.poll.session;
            let reload = p.session.headless && url == p.session.last_url && p.session.stuck >= 4
                && has_text(url, "/DeviceAuthTls"@);
            &&& turn.action == PollAction::Reload <==> reload
            &&& turn.action == PollAction::ReadPhase <==> !reload
            &&& after.last_url == url
            &&& reload || url != p.session.last_url ==> after.stuck == 0
            &&& !reload && url == p.session.last_url && p.session.stuck < u32::MAX ==> after.stuck
                == p.session.stuck + 1
            &&& after == (FetchSessionView { stuck: after.stuck, last_url: url, ..p.session })
            &&& turn.count == count
        }),
{
}

/// What each phase of the page leads to, below the limit. A number is counted
/// unless its notification was counted before: when it was triggered here and
/// none was seen since, or when this very number was seen last. An approval
/// screen is counted unless a notification is in flight. The option is clicked
/// only without a window, and not while the effect of a click is awaited. A
/// prompt that needs a window ends a session that has none.
pub proof fn law_phases_below_the_limit(p: FetchPollView, phase: PhaseView, count: usize)
    requires
        p.stage == PollStage::Phase,
        count < 3,
    ensures
        ({
            let s = p.session;
            let turn = poll_turn(p, PollEventView::Phase(phase), count);
            let after = turn.poll.session;
            match phase {
                PhaseView::Nothing => turn.action == PollAction::Remember && after == s
                    && turn.count == count,
                PhaseView::MethodPicker => {
                    &&& turn.action == PollAction::Click <==> s.headless && !(s.state is Triggered)
                    &&& turn.action == PollAction::Remember <==> !s.headless || s.state is Triggered
                    &&& after == s && turn.count == count
                },
                PhaseView::NumberMatch(n) => {
                    let counted = s.state is Idle || (s.state matches AttemptStateView::Number(m)
                        && m != n);
                    &&& turn.action == (PollAction::Number {
                        attempt: if counted {
                            Some((count + 1) as usize)
                        } else {
                            None
                        },
                        announce: s.headless && s.notified != Some(n),
                    })
                    &&& turn.count == if counted {
                        count + 1
                    } else {
                        count as int
                    }
                    &&& after.state == AttemptStateView::Number(n)
                    &&& s.headless ==> after.notified == Some(n)
                    &&& !s.headless ==> after.notified == s.notified
                    &&& turn.poll.stage == PollStage::FollowUp
                },
                PhaseView::ApprovalPending => {
                    &&& turn.action == (PollAction::Pending {
                        attempt: if s.state is Idle {
                            Some((count + 1) as usize)
                        } else {
                            None
                        },
                        dump: s.headless && s.notified is None,
                    })
                    &&& turn.count == if s.state is Idle {
                        count + 1
                    } else {
                        count as int
                    }
                    &&& s.state is Idle ==> after.state is Triggered
                    &&& !(s.state is Idle) ==> after.state == s.state
                    &&& after.notified == s.notified
                },
                PhaseView::InteractivePrompt => {
                    &&& turn.action == PollAction::NeedWindow <==> s.headless
                    &&& turn.action == PollAction::Remember <==> !s.headless
                    &&& after == s && turn.count == count
                },
            }
        }),
{
}

/// At the limit nothing is counted any more: what would be a further
/// notification, and a click, end the session; a notification that was counted
/// before is still followed.
pub proof fn law_phases_at_the_limit(p: FetchPollView, phase: PhaseView, clicked: bool)
    ensures
        ({
            let s = p.session;
            let turn = poll_turn(p, PollEventView::Phase(phase), 3);
            let limit = PollAction::Limit(MfaAttemptLimitReached { attempts: 3 });
            p.stage == PollStage::Phase ==> {
                &&& turn.count == 3
                &&& phase matches PhaseView::NumberMatch(n) ==> (turn.action == limit <==> s.state
                    is Idle || (s.state matches AttemptStateView::Number(m) && m != n))
                &&& phase is ApprovalPending ==> (turn.action == limit <==> s.state is Idle)
                &&& phase is MethodPicker ==> (turn.action == limit <==> s.headless && !(s.state
                    is Triggered))
                &&& phase is Nothing || phase is InteractivePrompt ==> !(turn.action is Limit)
            }
        }),
        ({
            let turn = poll_turn(p, PollEventView::Clicked(clicked), 3);
            p.stage == PollStage::Click ==> {
                &&& turn.count == 3
                &&& turn.action is Limit <==> clicked
                &&& !clicked ==> turn.action == (PollAction::Settle { attempt: None })
            }
        }),
{
}

/// A click that worked is one notification, under the next number, and is
/// awaited from then on; one that did not work is none.
pub proof fn law_clicks_are_counted(p: FetchPollView, clicked: bool, count: usize)
    requires
        p.stage == PollStage::Click,
        count < 3,
    ensures
        ({
            let turn = poll_turn(p, PollEventView::Clicked(clicked), count);
            &&& clicked ==> turn.count == count + 1 && turn.action == (PollAction::Settle {
                attempt: Some((count + 1) as usize),
            }) && turn.poll.session.state is Triggered
            &&& !clicked ==> turn.count == count && turn.action == (PollAction::Settle {
                attempt: None,
            }) && turn.poll.session == p.session
        }),
{
}

/// How an attempt starts, by the configuration: not at the limit of three, not
/// without a VPN, and else with the window that was asked for or without.
pub proof fn law_attempt_starts(
    cfg: FileConfig,
    attempts: usize,
    headless: bool,
    r: Result<Launch, FetchError>,
)
    requires
        call_ensures(fetch, (&cfg, attempts, headless), r),
    ensures
        ({
            let named = cfg.vpn_url matches Some(u) && u@.len() > 0;
            &&& r == Err::<Launch, FetchError>(
                FetchError::Limit(MfaAttemptLimitReached { attempts }),
            ) <==> attempts >= 3
            &&& r == Err::<Launch, FetchError>(FetchError::NoUrl) <==> attempts < 3 && !named
            &&& r == Ok::<Launch, FetchError>(Launch::Headless) <==> attempts < 3 && named
                && headless
            &&& r == Ok::<Launch, FetchError>(Launch::Headed) <==> attempts < 3 && named
                && !headless
        }),
{
    law_text_settings_are_their_fields(cfg, DEFAULT_VPN_URL@);
    reveal_strlit("");
    assert(DEFAULT_VPN_URL@.len() == 0);
}

/// What follows a session: a cookie is saved as it was captured; a prompt
/// opens a window once, unless the program is stopping, and a second one is a
/// failure.
pub proof fn law_after_a_session(
    launch: Launch,
    outcome: FetchOutcome,
    stopping: bool,
    r: AfterSession,
)
    requires
        launch == Launch::Headed ==> outcome is Cookie,
        call_ensures(after_session, (launch, outcome, stopping), r),
    ensures
        outcome matches FetchOutcome::Cookie(c) ==> (r matches AfterSession::Save(saved) && saved@
            == c@),
        outcome is InteractionRequired ==> {
            &&& r is Relaunch <==> launch == Launch::Headless && !stopping
            &&& r == AfterSession::Fail(FetchError::StillInteractive) <==> launch
                == Launch::Relaunched
            &&& r == AfterSession::Fail(FetchError::Interrupted) <==> launch == Launch::Headless
                && stopping
        },
{
}

/// The usual options, and the words for an attempt that came to nothing.
pub proof fn law_usual_options(
    cfg: FileConfig,
    dir: &str,
    o: FetchOptions,
    secs: u64,
    words: String,
    e: FetchError,
    told: String,
)
    requires
        call_ensures(FetchOptions::for_config, (&cfg, dir), o),
        call_ensures(no_cookie_message, (secs,), words),
        call_ensures(FetchError::message, (&e,), told),
    ensures
        o.profile_dir matches Some(p) && p@ == path_below(dir@, "chromium-profile"@),
        o.max_wait_secs == 300,
        !o.headless,
        o.mfa_attempt_budget.count == 0,
        o.chromium_path is Some <==> cfg.chromium_path is Some,
        o.chromium_path matches Some(c) ==> (cfg.chromium_path matches Some(d) && c@ == d@),
        words@ == "did not find a valid "@ + "MRHSession"@ + " cookie within "@ + decimal(
            secs as nat,
        ) + "s"@,
        e matches FetchError::Limit(l) ==> told@ == crate::mfa::limit_text(l.attempts),
        e == FetchError::Interrupted ==> told@ == "interrupted"@,
        e == FetchError::StillInteractive ==> told@
            == "interactive MFA required but headed browser also failed"@,
        e == FetchError::NoUrl ==> told@
            == "VPN_URL is not configured — set vpn_url in the config file or export VPN_URL"@,
{
}

/// What the program does on an event of a poll is what the laws of the polls
/// speak of, on the count that it has.
pub proof fn law_polls_are_the_laws(
    p: &mut FetchPoll,
    event: PollEvent,
    attempts: &mut MfaAttempts,
    r: PollAction,
    fresh: FetchPoll,
    headless: bool,
)
    requires
        call_ensures(FetchPoll::turn, (p, event, attempts), r),
        call_ensures(FetchPoll::new, (headless,), fresh),
    ensures
        ({
            let turn = poll_turn(old(p)@, event@, old(attempts).count);
            &&& r == turn.action
            &&& final(p)@ == turn.poll
            &&& final(attempts).count == turn.count
            &&& fresh@.stage == PollStage::Opening
            &&& fresh@.session.headless == headless
            &&& fresh@.session.state is Idle
            &&& fresh@.session.notified is None
            &&& !fresh@.session.warned_invalid
            &&& fresh@.session.stuck == 0
        }),
{
}

/// What is known of a session changes only with what it is about: the warning
/// with the cookies, the page with its address, the notification with what the
/// page shows and with a click; and whether there is a window, never.
pub proof fn law_sessions_keep_what_is_not_concerned(
    p: FetchPollView,
    event: PollEventView,
    count: usize,
)
    ensures
        ({
            let s = p.session;
            let after = poll_turn(p, event, count).poll.session;
            &&& after.headless == s.headless
            &&& !(event is Cookie) ==> after.warned_invalid == s.warned_invalid
            &&& !(event is Url) ==> after.stuck == s.stuck && after.last_url == s.last_url
            &&& !(event is Phase) ==> after.notified == s.notified
            &&& !(event is Phase) && !(event is Clicked) ==> after.state == s.state
        }),
{
}

} // verus!
