//! Tunnel probes: a SOCKS5 CONNECT through the routing proxy to each
//! configured host, repeated while it fails.
use vstd::prelude::*;
use vstd::string::*;

use crate::config::{probe_hosts_from_config, probe_hosts_of, DEFAULT_PROBE_PORT};
use crate::config_file::FileConfig;
use crate::socks::{Exchange, Handshake, HandshakeError, HandshakeView, Stage, Target, TargetView};
use crate::text::{
    all_digits, before, before_mark, chars_of, concat2, copy_range, decimal, decimal_of,
    finishes_with, hex_pair,
    hex_pair_of, is_digit, is_space, last_mark, last_position, law_before_ends_at_the_first_mark,
    law_port_numbers_are_digits, lemma_decimal_digits, lemma_last_mark, lemma_last_mark_of,
    lemma_port_round_trip, number, opt_text, parse_port, port_number, string_from, texts,
    trim_chars, trimmed,
};

verus! {

// ── Targets ──────────────────────────────────────────────────────────────

/// A host and a port to probe.
#[derive(Debug, Clone, PartialEq, Eq)]
pub struct ProbeTarget {
    pub host: String,
    pub port: u16,
}

/// A probe target by its contents.
pub struct ProbeTargetView {
    pub host: Seq<char>,
    pub port: u16,
}

impl View for ProbeTarget {
    type V = ProbeTargetView;

    open spec fn view(&self) -> ProbeTargetView {
        ProbeTargetView { host: self.host@, port: self.port }
    }
}

/// The contents of an optional target.
pub open spec fn opt_target(t: Option<ProbeTarget>) -> Option<ProbeTargetView> {
    match t {
        Some(t) => Some(t@),
        None => None,
    }
}

/// A target as `host:port`.
pub open spec fn target_display(t: ProbeTargetView) -> Seq<char> {
    t.host + ":"@ + decimal(t.port as nat)
}

impl ProbeTarget {
    /// The target as `host:port`.
    pub fn display(&self) -> (r: String)
        ensures
            r@ == target_display(self@),
    {
        let mut out = self.host.clone();
        out.append(":");
        out.append(decimal_of(self.port as u128).as_str());
        out
    }
}

/// The port that follows the closing bracket: a colon and a port number, or
/// else the default.
pub open spec fn bracket_port(rest: Seq<char>, default_port: u16) -> u16 {
    if rest.len() > 0 && rest[0] == ':' && port_number(rest.drop_first()) is Some {
        port_number(rest.drop_first())->0
    } else {
        default_port
    }
}

/// The target that a text denotes, once the white space around it is gone.
///
/// - Nothing denotes no target.
/// - `[host]` and `[host]:port` denote the host between the brackets; without
///   the closing bracket there is no target, and a port that is not one gives
///   way to the default.
/// - `host:digits` denotes that host and port; where the digits are missing
///   or too large there is no target.
/// - Anything else is a host, with the default port.
pub open spec fn target_of(s: Seq<char>, default_port: u16) -> Option<ProbeTargetView> {
    let colon = last_mark(s, ':');
    if s.len() == 0 {
        None
    } else if s[0] == '[' {
        let end = before(s, ']').len() as int;
        if end == s.len() {
            None
        } else {
            Some(
                ProbeTargetView {
                    host: s.subrange(1, end),
                    port: bracket_port(s.skip(end + 1), default_port),
                },
            )
        }
    } else if colon > 0 && all_digits(s.skip(colon + 1)) {
        match port_number(s.skip(colon + 1)) {
            Some(port) => Some(ProbeTargetView { host: s.take(colon), port }),
            None => None,
        }
    } else {
        Some(ProbeTargetView { host: s, port: default_port })
    }
}

/// Parses `host` or `host:port`; a missing port is `default_port`.
pub fn parse_probe_target(input: &str, default_port: u16) -> (r: Option<ProbeTarget>)
    ensures
        opt_target(r) == target_of(trimmed(input@), default_port),
{
    let v = trim_chars(&chars_of(input));
    if v.len() == 0 {
        return None;
    }
    if v[0] == '[' {
        let end: usize = before_mark(&v, ']').len();
        proof {
            lemma_before_len(v@, ']');
        }
        if end == v.len() {
            return None;
        }
        let host = string_from(&v, 1, end);
        let mut port: u16 = default_port;
        if end + 1 < v.len() && v[end + 1] == ':' {
            let digits = copy_range(&v, end + 2, v.len());
            assert(digits@ =~= v@.skip(end + 1).drop_first());
            if let Some(p) = parse_port(&digits) {
                port = p;
            }
        }
        return Some(ProbeTarget { host, port });
    }
    proof {
        lemma_last_mark(v@, ':');
    }
    if let Some(colon) = last_position(&v, ':') {
        let digits = copy_range(&v, colon + 1, v.len());
        assert(digits@ =~= v@.skip(colon + 1));
        if colon > 0 && only_digits(&digits) {
            assert(v@.subrange(0, colon as int) =~= v@.take(colon as int));
            return match parse_port(&digits) {
                Some(port) => Some(ProbeTarget { host: string_from(&v, 0, colon), port }),
                None => None,
            };
        }
    }
    assert(v@.subrange(0, v@.len() as int) =~= v@);
    Some(ProbeTarget { host: string_from(&v, 0, v.len()), port: default_port })
}

/// The part before the first `mark` is a beginning of the text; it is shorter
/// than the text only where a `mark` follows it.
proof fn lemma_before_len(s: Seq<char>, mark: char)
    ensures
        before(s, mark).len() <= s.len(),
        before(s, mark).len() < s.len() ==> s[before(s, mark).len() as int] == mark,
        s.len() > 0 && s[0] != mark ==> before(s, mark).len() >= 1,
    decreases s.len(),
{
    if s.len() > 0 && s[0] != mark {
        lemma_before_len(s.drop_first(), mark);
    }
}

fn only_digits(v: &Vec<char>) -> (r: bool)
    ensures
        r == all_digits(v@),
{
    let mut i: usize = 0;
    while i < v.len()
        invariant
            i <= v@.len(),
            forall|j: int| 0 <= j < i ==> is_digit(#[trigger] v@[j]),
        decreases v@.len() - i,
    {
        if !('0' <= v[i] && v[i] <= '9') {
            assert(!is_digit(v@[i as int]));
            return false;
        }
        i = i + 1;
    }
    true
}

/// The targets that the entries of a list denote; entries that denote none
/// are left out.
pub open spec fn targets_of(list: Seq<Seq<char>>) -> Seq<ProbeTargetView>
    decreases list.len(),
{
    if list.len() == 0 {
        Seq::empty()
    } else {
        let rest = targets_of(list.drop_last());
        match target_of(trimmed(list.last()), DEFAULT_PROBE_PORT) {
            Some(t) => rest.push(t),
            None => rest,
        }
    }
}

/// The contents of a list of targets.
pub open spec fn target_views(list: Seq<ProbeTarget>) -> Seq<ProbeTargetView> {
    list.map_values(|t: ProbeTarget| t@)
}

/// The targets that a list of entries denotes.
pub fn parse_targets(list: &Vec<String>) -> (r: Vec<ProbeTarget>)
    ensures
        target_views(r@) == targets_of(texts(list@)),
{
    let mut out: Vec<ProbeTarget> = Vec::new();
    let mut i: usize = 0;
    assert(target_views(out@) =~= Seq::empty());
    while i < list.len()
        invariant
            i <= list@.len(),
            target_views(out@) == targets_of(texts(list@).take(i as int)),
        decreases list@.len() - i,
    {
        let ghost had = target_views(out@);
        let ghost t = texts(list@);
        assert(t.take(i + 1).drop_last() == t.take(i as int));
        assert(t.take(i + 1).last() == list@[i as int]@);
        if let Some(target) = parse_probe_target(list[i].as_str(), DEFAULT_PROBE_PORT) {
            let ghost tv = target@;
            out.push(target);
            assert(target_views(out@) =~= had.push(tv));
        }
        i = i + 1;
    }
    assert(texts(list@).take(list@.len() as int) == texts(list@));
    out
}

/// The probe targets that the configuration names.
pub open spec fn configured_targets(cfg: FileConfig) -> Seq<ProbeTargetView> {
    match probe_hosts_of(cfg) {
        Some(hosts) => targets_of(hosts),
        None => Seq::empty(),
    }
}

/// The probe targets that the configuration names.
pub fn probe_targets(cfg: &FileConfig) -> (r: Vec<ProbeTarget>)
    ensures
        target_views(r@) == configured_targets(*cfg),
{
    match probe_hosts_from_config(cfg) {
        Some(hosts) => parse_targets(&hosts),
        None => {
            let none: Vec<ProbeTarget> = Vec::new();
            assert(target_views(none@) =~= Seq::empty());
            none
        },
    }
}

// ── One probe ────────────────────────────────────────────────────────────

/// The handshake of one probe: the host goes to the routing proxy as a name.
pub fn probe_handshake(target: &ProbeTarget) -> (r: Handshake)
    ensures
        r@ == (HandshakeView {
            target: TargetView::Domain(target.host@, target.port),
            stage: Stage::Start,
            buf: Seq::empty(),
        }),
{
    Handshake::new(Target::Domain(target.host.clone(), target.port))
}

/// What a probe reports of a failed handshake.
pub open spec fn probe_error_text(e: HandshakeError) -> Seq<char> {
    match e {
        HandshakeError::Greeting(a, b) => "SOCKS5 greeting failed: got "@ + hex_pair(a) + " "@
            + hex_pair(b),
        HandshakeError::NotADomain => "SOCKS5 probes require a host name"@,
        HandshakeError::DomainTooLong => "domain name exceeds 255 bytes"@,
        HandshakeError::BadAddressType(a) => "SOCKS5 reply used unsupported ATYP: 0x"@ + hex_pair(
            a,
        ),
        HandshakeError::Refused(rep) => "SOCKS5 CONNECT failed with REP=0x"@ + hex_pair(rep),
    }
}

/// The text that a probe reports of a failed handshake.
pub fn probe_error(e: HandshakeError) -> (r: String)
    ensures
        r@ == probe_error_text(e),
{
    match e {
        HandshakeError::Greeting(a, b) => {
            let mut out = "SOCKS5 greeting failed: got ".to_owned();
            out.append(hex_pair_of(a).as_str());
            out.append(" ");
            out.append(hex_pair_of(b).as_str());
            out
        },
        HandshakeError::NotADomain => "SOCKS5 probes require a host name".to_owned(),
        HandshakeError::DomainTooLong => "domain name exceeds 255 bytes".to_owned(),
        HandshakeError::BadAddressType(a) => {
            let mut out = "SOCKS5 reply used unsupported ATYP: 0x".to_owned();
            out.append(hex_pair_of(a).as_str());
            out
        },
        HandshakeError::Refused(rep) => {
            let mut out = "SOCKS5 CONNECT failed with REP=0x".to_owned();
            out.append(hex_pair_of(rep).as_str());
            out
        },
    }
}

/// The words for an exchange that took too long.
pub open spec fn timeout_text(x: Exchange) -> Seq<char> {
    match x {
        Exchange::Greeting => "timed out during SOCKS5 greeting"@,
        Exchange::GreetingAnswer => "timed out waiting for SOCKS5 greeting reply"@,
        Exchange::Request => "timed out sending SOCKS5 CONNECT"@,
        Exchange::ReplyHead => "timed out waiting for SOCKS5 CONNECT reply"@,
        Exchange::ReplyNameLength => "timed out reading SOCKS5 reply domain length"@,
        Exchange::ReplyAddress => "timed out reading SOCKS5 reply bind address"@,
    }
}

/// The words before the error of an exchange that failed.
pub open spec fn failure_text(x: Exchange) -> Seq<char> {
    match x {
        Exchange::Greeting => "SOCKS5 greeting write failed: "@,
        Exchange::GreetingAnswer => "SOCKS5 greeting read failed: "@,
        Exchange::Request => "SOCKS5 CONNECT write failed: "@,
        Exchange::ReplyHead => "SOCKS5 CONNECT read failed: "@,
        Exchange::ReplyNameLength | Exchange::ReplyAddress => "SOCKS5 reply read failed: "@,
    }
}

/// The words for an exchange that failed with `error`, or took too long.
pub fn exchange_error(x: Exchange, error: Option<&str>) -> (r: String)
    ensures
        r@ == (match error {
            Some(e) => failure_text(x) + e@,
            None => timeout_text(x),
        }),
{
    match error {
        Some(e) => concat2(
            match x {
                Exchange::Greeting => "SOCKS5 greeting write failed: ",
                Exchange::GreetingAnswer => "SOCKS5 greeting read failed: ",
                Exchange::Request => "SOCKS5 CONNECT write failed: ",
                Exchange::ReplyHead => "SOCKS5 CONNECT read failed: ",
                Exchange::ReplyNameLength
                | Exchange::ReplyAddress => "SOCKS5 reply read failed: ",
            },
            e,
        ),
        None => match x {
            Exchange::Greeting => "timed out during SOCKS5 greeting".to_owned(),
            Exchange::GreetingAnswer => "timed out waiting for SOCKS5 greeting reply".to_owned(),
            Exchange::Request => "timed out sending SOCKS5 CONNECT".to_owned(),
            Exchange::ReplyHead => "timed out waiting for SOCKS5 CONNECT reply".to_owned(),
            Exchange::ReplyNameLength => "timed out reading SOCKS5 reply domain length".to_owned(),
            Exchange::ReplyAddress => "timed out reading SOCKS5 reply bind address".to_owned(),
        },
    }
}

// ── Repeating a probe ────────────────────────────────────────────────────

/// The outcome of all attempts at one target.
#[derive(Debug, Clone)]
pub struct ProbeResult {
    pub target: ProbeTarget,
    pub ok: bool,
    /// How long the successful attempt took, in milliseconds; zero where none
    /// succeeded.
    pub latency_ms: u128,
    pub error: Option<String>,
}

/// A result by its contents.
pub struct ProbeResultView {
    pub target: ProbeTargetView,
    pub ok: bool,
    pub latency_ms: u128,
    pub error: Option<Seq<char>>,
}

impl View for ProbeResult {
    type V = ProbeResultView;

    open spec fn view(&self) -> ProbeResultView {
        ProbeResultView {
            target: self.target@,
            ok: self.ok,
            latency_ms: self.latency_ms,
            error: opt_text(self.error),
        }
    }
}

/// The outcome of one attempt: its duration in milliseconds, or why it
/// failed.
pub type Attempt = Result<u128, String>;

/// What to do after an attempt.
pub enum ProbeStep {
    /// Try again.
    Retry,
    /// This is the result.
    Finished(ProbeResult),
}

/// The step after attempt number `attempt` (counted from zero) of at most
/// `retries + 1`: a success ends the probe at once, a failure when no attempt
/// is left.
pub open spec fn finished_result(
    target: ProbeTargetView,
    attempt: u32,
    retries: u32,
    outcome: Result<u128, Seq<char>>,
) -> Option<ProbeResultView> {
    match outcome {
        Ok(ms) => Some(ProbeResultView { target, ok: true, latency_ms: ms, error: None }),
        Err(e) => if attempt < retries {
            None
        } else {
            Some(ProbeResultView { target, ok: false, latency_ms: 0, error: Some(e) })
        },
    }
}

/// An attempt's outcome by its contents.
pub open spec fn attempt_view(a: Attempt) -> Result<u128, Seq<char>> {
    match a {
        Ok(ms) => Ok(ms),
        Err(e) => Err(e@),
    }
}

/// Decides what follows attempt number `attempt` of at most `retries + 1`.
pub fn after_attempt(
    target: &ProbeTarget,
    attempt: u32,
    retries: u32,
    outcome: Attempt,
) -> (r: ProbeStep)
    ensures
        match r {
            ProbeStep::Retry => finished_result(target@, attempt, retries, attempt_view(outcome))
                is None,
            ProbeStep::Finished(result) => finished_result(
                target@,
                attempt,
                retries,
                attempt_view(outcome),
            ) == Some(result@),
        },
{
    let copy = ProbeTarget { host: target.host.clone(), port: target.port };
    match outcome {
        Ok(ms) => ProbeStep::Finished(
            ProbeResult { target: copy, ok: true, latency_ms: ms, error: None },
        ),
        Err(e) => if attempt < retries {
            ProbeStep::Retry
        } else {
            ProbeStep::Finished(
                ProbeResult { target: copy, ok: false, latency_ms: 0, error: Some(e) },
            )
        },
    }
}

// ── All targets in turn ──────────────────────────────────────────────────

/// The results by their contents.
pub open spec fn result_views(list: Seq<ProbeResult>) -> Seq<ProbeResultView> {
    list.map_values(|r: ProbeResult| r@)
}

/// The probes of all targets, one target after the other.
pub struct ProbeRun {
    targets: Vec<ProbeTarget>,
    /// How often a failed attempt is repeated.
    retries: u32,
    /// The number of the attempt at the current target, counted from zero.
    attempt: u32,
    /// What is known of the targets that are done with.
    results: Vec<ProbeResult>,
}

/// A run of probes by its contents.
#[verifier::ext_equal]
pub struct ProbeRunView {
    pub targets: Seq<ProbeTargetView>,
    pub retries: u32,
    pub attempt: u32,
    pub results: Seq<ProbeResultView>,
}

impl ProbeRunView {
    /// The results are those of the first targets, in their order, and no
    /// attempt goes beyond the last repetition.
    pub open spec fn wf(self) -> bool {
        &&& self.results.len() <= self.targets.len()
        &&& self.attempt <= self.retries
        &&& forall|i: int|
            0 <= i < self.results.len() ==> #[trigger] self.results[i].target == self.targets[i]
    }

    /// The target of the next attempt; none once all are done with.
    pub open spec fn next(self) -> Option<ProbeTargetView> {
        if self.results.len() < self.targets.len() {
            Some(self.targets[self.results.len() as int])
        } else {
            None
        }
    }
}

/// A run that no attempt was made in.
pub open spec fn new_probe_run(targets: Seq<ProbeTargetView>, retries: u32) -> ProbeRunView {
    ProbeRunView { targets, retries, attempt: 0, results: Seq::empty() }
}

/// A run after the outcome of an attempt at its next target: the target is
/// done with, or it is attempted again. Where no attempt is waited for,
/// nothing changes.
pub open spec fn probe_turn(run: ProbeRunView, outcome: Result<u128, Seq<char>>) -> ProbeRunView {
    match run.next() {
        None => run,
        Some(target) => match finished_result(target, run.attempt, run.retries, outcome) {
            None => ProbeRunView { attempt: (run.attempt + 1) as u32, ..run },
            Some(result) => ProbeRunView { attempt: 0, results: run.results.push(result), ..run },
        },
    }
}

impl View for ProbeRun {
    type V = ProbeRunView;

    closed spec fn view(&self) -> ProbeRunView {
        ProbeRunView {
            targets: target_views(self.targets@),
            retries: self.retries,
            attempt: self.attempt,
            results: result_views(self.results@),
        }
    }
}

impl ProbeRun {
    /// A run over these targets that repeats a failed attempt up to `retries`
    /// times.
    pub fn new(targets: Vec<ProbeTarget>, retries: u32) -> (r: ProbeRun)
        ensures
            r@ == new_probe_run(target_views(targets@), retries),
            r@.wf(),
    {
        let r = ProbeRun { targets, retries, attempt: 0, results: Vec::new() };
        assert(r@.results =~= Seq::empty());
        r
    }

    /// The target of the next attempt; none once all are done with.
    pub fn next(&self) -> (r: Option<&ProbeTarget>)
        ensures
            match r {
                Some(target) => self@.next() == Some(target@),
                None => self@.next() is None,
            },
    {
        if self.results.len() < self.targets.len() {
            Some(&self.targets[self.results.len()])
        } else {
            None
        }
    }

    /// Takes the outcome of an attempt at the next target.
    pub fn turn(&mut self, outcome: Attempt)
        ensures
            final(self)@ == probe_turn(old(self)@, attempt_view(outcome)),
            old(self)@.wf() ==> final(self)@.wf(),
    {
        if self.results.len() >= self.targets.len() {
            return ;
        }
        let step = after_attempt(
            &self.targets[self.results.len()],
            self.attempt,
            self.retries,
            outcome,
        );
        match step {
            ProbeStep::Retry => {
                self.attempt = self.attempt + 1;
            },
            ProbeStep::Finished(result) => {
                self.attempt = 0;
                self.results.push(result);
                assert(self@.results =~= old(self)@.results.push(result@));
            },
        }
    }

    /// The results so far, one for each target that is done with.
    pub fn results(self) -> (r: Vec<ProbeResult>)
        ensures
            result_views(r@) == self@.results,
    {
        self.results
    }
}

// ── Laws ─────────────────────────────────────────────────────────────────

/// A target that is written as `host:port` is read back unchanged, provided
/// that its host is not empty and begins neither with a bracket nor with
/// white space.
pub proof fn law_target_round_trip(t: ProbeTargetView, default_port: u16)
    requires
        t.host.len() > 0,
        t.host[0] != '[',
        !is_space(t.host[0]),
    ensures
        target_of(trimmed(target_display(t)), default_port) == Some(t),
{
    let digits = decimal(t.port as nat);
    lemma_decimal_digits(t.port as nat);
    lemma_port_round_trip(t.port);
    reveal_strlit(":");
    let s = target_display(t);
    assert(s =~= t.host + seq![':'] + digits);
    assert forall|i: int| 0 <= i < digits.len() implies digits[i] != ':' by {
        assert(is_digit(digits[i]));
    }
    lemma_last_mark_of(t.host, ':', digits);
    assert(s.skip(t.host.len() as int + 1) =~= digits);
    assert(s.take(t.host.len() as int) =~= t.host);
    assert(s.first() == t.host[0]);
    assert(s.last() == digits.last());
    assert(is_digit(digits[digits.len() - 1]));
    assert(trimmed(s) == s);
}

/// A probe that keeps failing is attempted exactly `retries + 1` times: the
/// failure of an attempt before that is not the result, the failure of that
/// one is.
pub proof fn law_retries_are_additional(
    target: ProbeTargetView,
    attempt: u32,
    retries: u32,
    e: Seq<char>,
)
    requires
        attempt <= retries,
    ensures
        finished_result(target, attempt, retries, Err(e)) is None <==> attempt < retries,
{
}

/// A success ends the probe at once, and is its result.
pub proof fn law_success_ends_a_probe(
    target: ProbeTargetView,
    attempt: u32,
    retries: u32,
    ms: u128,
)
    ensures
        finished_result(target, attempt, retries, Ok(ms)) matches Some(r) && r.ok && r.latency_ms
            == ms && r.error is None,
{
}

/// The outcomes of all attempts at one target: every attempt but the last
/// failed, and the last one succeeded or is the last that is allowed.
pub open spec fn are_tries(tries: Seq<Result<u128, Seq<char>>>, retries: u32) -> bool {
    &&& 1 <= tries.len() <= retries + 1
    &&& forall|j: int| 0 <= j < tries.len() - 1 ==> #[trigger] tries[j] is Err
    &&& tries.last() is Ok || tries.len() == retries + 1
}

/// What the attempts at one target come to: the target, whether the last one
/// succeeded, how long that took, and else its own words.
pub open spec fn result_of_tries(
    target: ProbeTargetView,
    tries: Seq<Result<u128, Seq<char>>>,
) -> ProbeResultView {
    match tries.last() {
        Ok(ms) => ProbeResultView { target, ok: true, latency_ms: ms, error: None },
        Err(e) => ProbeResultView { target, ok: false, latency_ms: 0, error: Some(e) },
    }
}

/// A run after the outcomes of several attempts, one after the other.
pub open spec fn probe_turns(
    run: ProbeRunView,
    outcomes: Seq<Result<u128, Seq<char>>>,
) -> ProbeRunView
    decreases outcomes.len(),
{
    if outcomes.len() == 0 {
        run
    } else {
        probe_turn(probe_turns(run, outcomes.drop_last()), outcomes.last())
    }
}

/// A run after the attempts at several targets, one target after the other.
pub open spec fn probe_rounds(
    run: ProbeRunView,
    rounds: Seq<Seq<Result<u128, Seq<char>>>>,
) -> ProbeRunView
    decreases rounds.len(),
{
    if rounds.len() == 0 {
        run
    } else {
        probe_turns(probe_rounds(run, rounds.drop_last()), rounds.last())
    }
}

proof fn lemma_failures_are_repeated(run: ProbeRunView, failures: Seq<Result<u128, Seq<char>>>)
    requires
        run.next() is Some,
        run.attempt + failures.len() <= run.retries,
        forall|j: int| 0 <= j < failures.len() ==> #[trigger] failures[j] is Err,
    ensures
        probe_turns(run, failures) == (ProbeRunView {
            attempt: (run.attempt + failures.len()) as u32,
            ..run
        }),
    decreases failures.len(),
{
    if failures.len() > 0 {
        lemma_failures_are_repeated(run, failures.drop_last());
        assert(failures[failures.len() - 1] is Err);
    }
}

/// A target is attempted until an attempt succeeds, and at most `retries + 1`
/// times; nothing is known of it before that. Then the run goes on to the next
/// target with what the attempts come to.
pub proof fn law_target_is_tried_until_success(
    run: ProbeRunView,
    tries: Seq<Result<u128, Seq<char>>>,
    made: int,
)
    requires
        run.attempt == 0,
        run.next() is Some,
        are_tries(tries, run.retries),
        0 <= made < tries.len(),
    ensures
        probe_turns(run, tries.take(made)) == (ProbeRunView { attempt: made as u32, ..run }),
        probe_turns(run, tries) == (ProbeRunView {
            results: run.results.push(
                result_of_tries(run.targets[run.results.len() as int], tries),
            ),
            ..run
        }),
{
    assert forall|j: int| 0 <= j < tries.take(made).len() implies #[trigger] tries.take(made)[j]
        is Err by {
        assert(tries[j] is Err);
    }
    lemma_failures_are_repeated(run, tries.take(made));
    assert forall|j: int| 0 <= j < tries.drop_last().len() implies #[trigger] tries.drop_last()[j]
        is Err by {
        assert(tries[j] is Err);
    }
    lemma_failures_are_repeated(run, tries.drop_last());
}

/// A whole run: with the outcomes of the attempts at each target, there is one
/// result for each target, in their order, and each is what the attempts at
/// its target come to; the run asks for no further attempt.
pub proof fn law_every_target_gets_its_result(
    targets: Seq<ProbeTargetView>,
    retries: u32,
    rounds: Seq<Seq<Result<u128, Seq<char>>>>,
)
    requires
        rounds.len() == targets.len(),
        forall|i: int| 0 <= i < rounds.len() ==> are_tries(#[trigger] rounds[i], retries),
    ensures
        ({
            let done = probe_rounds(new_probe_run(targets, retries), rounds);
            &&& done.next() is None
            &&& done.results.len() == targets.len()
            &&& forall|i: int|
                0 <= i < targets.len() ==> #[trigger] done.results[i] == result_of_tries(
                    targets[i],
                    rounds[i],
                )
        }),
{
    lemma_rounds(targets, retries, rounds);
}

proof fn lemma_rounds(
    targets: Seq<ProbeTargetView>,
    retries: u32,
    rounds: Seq<Seq<Result<u128, Seq<char>>>>,
)
    requires
        rounds.len() <= targets.len(),
        forall|i: int| 0 <= i < rounds.len() ==> are_tries(#[trigger] rounds[i], retries),
    ensures
        ({
            let done = probe_rounds(new_probe_run(targets, retries), rounds);
            &&& done.targets == targets
            &&& done.retries == retries
            &&& done.attempt == 0
            &&& done.results.len() == rounds.len()
            &&& forall|i: int|
                0 <= i < rounds.len() ==> #[trigger] done.results[i] == result_of_tries(
                    targets[i],
                    rounds[i],
                )
        }),
    decreases rounds.len(),
{
    if rounds.len() > 0 {
        let first = rounds.drop_last();
        assert forall|i: int| 0 <= i < first.len() implies are_tries(#[trigger] first[i], retries) by {
            assert(first[i] == rounds[i]);
        }
        lemma_rounds(targets, retries, first);
        let run = probe_rounds(new_probe_run(targets, retries), first);
        assert(rounds.last() == rounds[rounds.len() - 1]);
        law_target_is_tried_until_success(run, rounds.last(), 0);
        assert forall|i: int| 0 <= i < first.len() implies #[trigger] run.results[i]
            == result_of_tries(targets[i], rounds[i]) by {
            assert(first[i] == rounds[i]);
        }
    }
}

/// A result is a success exactly if one of the attempts at its target
/// succeeded, and exactly if it has no error.
pub proof fn law_success_is_one_successful_try(
    target: ProbeTargetView,
    tries: Seq<Result<u128, Seq<char>>>,
    retries: u32,
)
    requires
        are_tries(tries, retries),
    ensures
        ({
            let r = result_of_tries(target, tries);
            &&& r.target == target
            &&& r.ok <==> exists|j: int| 0 <= j < tries.len() && #[trigger] tries[j] is Ok
            &&& r.ok <==> r.error is None
            &&& r.ok ==> Ok::<u128, Seq<char>>(r.latency_ms) == tries.last()
            &&& !r.ok ==> r.latency_ms == 0 && tries.last() == Err::<u128, Seq<char>>(
                r.error->0,
            )
        }),
{
    assert(tries.last() == tries[tries.len() - 1]);
}

/// Without a colon a text is a host, with the default port; nothing is no
/// target; and so is an opening bracket without a closing one.
pub proof fn law_plain_hosts(input: &str, default_port: u16, r: Option<ProbeTarget>)
    requires
        call_ensures(parse_probe_target, (input, default_port), r),
    ensures
        ({
            let s = trimmed(input@);
            &&& s.len() == 0 ==> r is None
            &&& s.len() > 0 && s[0] != '[' && (forall|i: int| 0 <= i < s.len() ==> s[i] != ':')
                ==> (r matches Some(t) && t.host@ == s && t.port == default_port)
            &&& s.len() > 0 && s[0] == '[' && (forall|i: int| 0 <= i < s.len() ==> s[i] != ']')
                ==> r is None
        }),
{
    let s = trimmed(input@);
    lemma_last_mark(s, ':');
    law_before_ends_at_the_first_mark(s, ']');
    if s.len() > 0 && s[0] == '[' && (forall|i: int| 0 <= i < s.len() ==> s[i] != ']') {
        let k = before(s, ']').len() as int;
        if k < s.len() {
            assert(s[k] == ']');
        }
    }
}

/// What stands behind the last colon is the port if it is made of digits only:
/// then the host is what stands before, and there is no target where the
/// digits are missing or denote no port. Behind anything else the whole text
/// is a host.
pub proof fn law_hosts_with_a_port(
    input: &str,
    host: Seq<char>,
    tail: Seq<char>,
    default_port: u16,
    r: Option<ProbeTarget>,
)
    requires
        call_ensures(parse_probe_target, (input, default_port), r),
        trimmed(input@) == host + seq![':'] + tail,
        host.len() > 0,
        host[0] != '[',
        forall|i: int| 0 <= i < tail.len() ==> tail[i] != ':',
    ensures
        ({
            let digits = forall|i: int| 0 <= i < tail.len() ==> '0' <= #[trigger] tail[i] <= '9';
            &&& digits && tail.len() > 0 && number(tail) <= 65535 ==> (r matches Some(t) && t.host@
                == host && t.port == number(tail))
            &&& digits && (tail.len() == 0 || number(tail) > 65535) ==> r is None
            &&& !digits ==> (r matches Some(t) && t.host@ == host + seq![':'] + tail && t.port
                == default_port)
        }),
{
    let s = host + seq![':'] + tail;
    lemma_last_mark_of(host, ':', tail);
    assert(s.skip(host.len() as int + 1) =~= tail);
    assert(s.take(host.len() as int) =~= host);
    assert(s[0] == host[0]);
    law_port_numbers_are_digits(tail);
    if forall|i: int| 0 <= i < tail.len() ==> '0' <= #[trigger] tail[i] <= '9' {
        assert(all_digits(tail));
        if tail.len() > 0 {
            assert('0' <= tail[0] <= '9');
        }
    }
    if all_digits(tail) {
        assert forall|i: int| 0 <= i < tail.len() implies '0' <= #[trigger] tail[i] <= '9' by {
            assert(is_digit(tail[i]));
        }
    }
}

/// A host in brackets may hold colons; a port may follow the closing bracket,
/// and what follows and is no port gives way to the default.
pub proof fn law_hosts_in_brackets(
    input: &str,
    host: Seq<char>,
    rest: Seq<char>,
    default_port: u16,
    r: Option<ProbeTarget>,
)
    requires
        call_ensures(parse_probe_target, (input, default_port), r),
        trimmed(input@) == seq!['['] + host + seq![']'] + rest,
        forall|i: int| 0 <= i < host.len() ==> host[i] != ']',
    ensures
        r matches Some(t) && t.host@ == host,
        rest.len() == 0 || rest[0] != ':' ==> (r matches Some(t) && t.port == default_port),
        rest.len() > 0 && rest[0] == ':' ==> (r matches Some(t) && t.port == (match port_number(
            rest.skip(1),
        ) {
            Some(p) => p,
            None => default_port,
        })),
{
    let s = seq!['['] + host + seq![']'] + rest;
    let k = host.len() as int + 1;
    law_before_ends_at_the_first_mark(s, ']');
    let b = before(s, ']').len() as int;
    assert(s[k] == ']');
    if b > k {
        assert(s[k] != ']');
    }
    if b < k {
        assert(s[b] == ']');
        if b > 0 {
            assert(s[b] == host[b - 1]);
        }
    }
    assert(s.subrange(1, k) =~= host);
    assert(s.skip(k + 1) =~= rest);
    if rest.len() > 0 {
        assert(rest.drop_first() =~= rest.skip(1));
    }
}

/// The entries of a list are read one by one, in their order: each that
/// denotes a target gives it, with port 443 where it names none, and each that
/// denotes none is left out.
pub proof fn law_entries_are_read_one_by_one(list: Seq<Seq<char>>, entry: Seq<char>)
    ensures
        targets_of(Seq::<Seq<char>>::empty()).len() == 0,
        targets_of(list.push(entry)) == (match target_of(trimmed(entry), 443) {
            Some(t) => targets_of(list).push(t),
            None => targets_of(list),
        }),
{
    assert(list.push(entry).drop_last() =~= list);
}

/// Where every entry denotes a target, there is a target for each, in their
/// order.
pub proof fn law_no_target_is_lost(list: Vec<String>, r: Vec<ProbeTarget>)
    requires
        call_ensures(parse_targets, (&list,), r),
        forall|i: int| 0 <= i < list@.len() ==> target_of(trimmed((#[trigger] list@[i])@), 443) is Some,
    ensures
        r@.len() == list@.len(),
        forall|i: int|
            0 <= i < list@.len() ==> target_of(trimmed((#[trigger] list@[i])@), 443) == Some(
                r@[i]@,
            ),
{
    let t = texts(list@);
    assert forall|i: int| 0 <= i < t.len() implies target_of(trimmed(#[trigger] t[i]), 443)
        is Some by {
        assert(t[i] == list@[i]@);
    }
    lemma_all_targets(t);
    let v = target_views(r@);
    assert(v.len() == r@.len());
    assert forall|i: int| 0 <= i < list@.len() implies target_of(
        trimmed((#[trigger] list@[i])@),
        443,
    ) == Some(r@[i]@) by {
        assert(t[i] == list@[i]@);
        assert(v[i] == r@[i]@);
    }
}

proof fn lemma_all_targets(list: Seq<Seq<char>>)
    requires
        forall|i: int| 0 <= i < list.len() ==> target_of(trimmed(#[trigger] list[i]), 443) is Some,
    ensures
        targets_of(list).len() == list.len(),
        forall|i: int|
            0 <= i < list.len() ==> target_of(trimmed(#[trigger] list[i]), 443) == Some(
                targets_of(list)[i],
            ),
    decreases list.len(),
{
    if list.len() > 0 {
        let head = list.drop_last();
        assert forall|i: int| 0 <= i < head.len() implies target_of(trimmed(#[trigger] head[i]), 443)
            is Some by {
            assert(head[i] == list[i]);
        }
        lemma_all_targets(head);
        assert(target_of(trimmed(list[list.len() - 1]), 443) is Some);
        assert forall|i: int| 0 <= i < list.len() implies target_of(trimmed(#[trigger] list[i]), 443)
            == Some(targets_of(list)[i]) by {
            if i < head.len() {
                assert(head[i] == list[i]);
            }
        }
    }
}

/// The configured hosts are the ones that are probed; without any there is no
/// target. A probe asks for the host by its name.
pub proof fn law_configured_targets(
    cfg: FileConfig,
    r: Vec<ProbeTarget>,
    t: ProbeTarget,
    h: Handshake,
    shown: String,
)
    requires
        call_ensures(probe_targets, (&cfg,), r),
        call_ensures(probe_handshake, (&t,), h),
        call_ensures(ProbeTarget::display, (&t,), shown),
    ensures
        cfg.probe is None ==> r@.len() == 0,
        cfg.probe matches Some(p) ==> {
            &&& p.hosts is None ==> r@.len() == 0
            &&& p.hosts matches Some(list) ==> target_views(r@) == targets_of(texts(list@))
        },
        h@.target == TargetView::Domain(t.host@, t.port),
        h@.stage == Stage::Start,
        shown@ == t.host@ + seq![':'] + decimal(t.port as nat),
{
    reveal_strlit(":");
    assert(":"@ =~= seq![':']);
    assert(target_views(r@).len() == r@.len());
}

/// What a probe reports of a handshake holds the bytes that were received.
pub proof fn law_probe_errors(e: HandshakeError, r: String)
    requires
        call_ensures(probe_error, (e,), r),
    ensures
        e matches HandshakeError::Refused(rep) ==> r@ == "SOCKS5 CONNECT failed with REP=0x"@
            + hex_pair(rep),
        e matches HandshakeError::Greeting(a, b) ==> r@ == "SOCKS5 greeting failed: got "@
            + hex_pair(a) + " "@ + hex_pair(b),
        e matches HandshakeError::BadAddressType(a) ==> r@
            == "SOCKS5 reply used unsupported ATYP: 0x"@ + hex_pair(a),
{
}

/// The outcome of one attempt decides: a success is the result at once, with
/// its own time and without an error; a failure is repeated while attempts are
/// left, and else is the result with its own words.
pub proof fn law_after_an_attempt(
    target: ProbeTarget,
    attempt: u32,
    retries: u32,
    outcome: Attempt,
    r: ProbeStep,
)
    requires
        call_ensures(after_attempt, (&target, attempt, retries, outcome), r),
    ensures
        r is Retry <==> outcome is Err && attempt < retries,
        r matches ProbeStep::Finished(result) ==> {
            &&& result.target.host@ == target.host@ && result.target.port == target.port
            &&& result.ok <==> outcome is Ok
            &&& outcome matches Ok(ms) ==> result.latency_ms == ms && result.error is None
            &&& outcome matches Err(e) ==> result.latency_ms == 0 && (result.error matches Some(
                words,
            ) && words@ == e@)
        },
{
    if let ProbeStep::Finished(result) = r {
        let v = result@;
        assert(v.target.host == result.target.host@);
        assert(v.error == opt_text(result.error));
    }
}

/// What the program does with the outcome of an attempt is what the laws of a
/// run speak of; the next target and the results are those of the run.
pub proof fn law_runs_are_the_laws(
    run: &mut ProbeRun,
    outcome: Attempt,
    targets: Vec<ProbeTarget>,
    retries: u32,
    fresh: ProbeRun,
    done: ProbeRun,
    results: Vec<ProbeResult>,
)
    requires
        call_ensures(ProbeRun::turn, (run, outcome), ()),
        call_ensures(ProbeRun::new, (targets, retries), fresh),
        call_ensures(ProbeRun::results, (done,), results),
    ensures
        final(run)@ == probe_turn(old(run)@, attempt_view(outcome)),
        fresh@.targets == target_views(targets@) && fresh@.retries == retries && fresh@.attempt
            == 0 && fresh@.results.len() == 0,
        results@.len() == done@.results.len(),
        forall|i: int| 0 <= i < results@.len() ==> (#[trigger] results@[i])@ == done@.results[i],
{
    assert(result_views(results@).len() == results@.len());
    assert forall|i: int| 0 <= i < results@.len() implies (#[trigger] results@[i])@
        == done@.results[i] by {
        assert(result_views(results@)[i] == results@[i]@);
    }
}

/// The next target is the first one without a result, and there is one until
/// every target has a result.
pub proof fn law_next_target(run: &ProbeRun, r: Option<&ProbeTarget>)
    requires
        call_ensures(ProbeRun::next, (run,), r),
    ensures
        r is Some <==> run@.results.len() < run@.targets.len(),
        r matches Some(t) ==> t@ == run@.targets[run@.results.len() as int],
{
}

/// An exchange that failed is reported with its own error, and one that took
/// too long says what was waited for.
pub proof fn law_exchange_errors(x: Exchange, error: Option<&str>, r: String)
    requires
        call_ensures(exchange_error, (x, error), r),
    ensures
        error is None ==> r@ == (match x {
            Exchange::Greeting => "timed out during SOCKS5 greeting"@,
            Exchange::GreetingAnswer => "timed out waiting for SOCKS5 greeting reply"@,
            Exchange::Request => "timed out sending SOCKS5 CONNECT"@,
            Exchange::ReplyHead => "timed out waiting for SOCKS5 CONNECT reply"@,
            Exchange::ReplyNameLength => "timed out reading SOCKS5 reply domain length"@,
            Exchange::ReplyAddress => "timed out reading SOCKS5 reply bind address"@,
        }),
        error matches Some(e) ==> {
            &&& finishes_with(r@, e@)
            &&& x == Exchange::Greeting ==> r@ == "SOCKS5 greeting write failed: "@ + e@
            &&& x == Exchange::GreetingAnswer ==> r@ == "SOCKS5 greeting read failed: "@ + e@
            &&& x == Exchange::Request ==> r@ == "SOCKS5 CONNECT write failed: "@ + e@
            &&& x == Exchange::ReplyHead ==> r@ == "SOCKS5 CONNECT read failed: "@ + e@
        },
{
    if let Some(e) = error {
        assert(r@.subrange(r@.len() - e@.len(), r@.len() as int) =~= e@);
    }
}

} // verus!
