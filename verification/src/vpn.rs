//! The VPN process: openconnect with ocproxy at its other end. Which command
//! starts it, what stands in the way, and how it is stopped.
use vstd::prelude::*;
use vstd::string::*;

use crate::config::{
    cfg_string, cfg_u32, effective_text, law_text_settings_are_their_fields, number_setting,
    DEFAULT_OCPROXY_KEEPALIVE,
    DEFAULT_VPN_PROTOCOL, DEFAULT_VPN_URL,
};
use crate::config_file::FileConfig;
use crate::text::{
    concat2, decimal, decimal_of, has_text, is_digit, lemma_decimal_digits, occurs_at, texts,
};

verus! {

/// What a VPN process was started with.
#[derive(Debug, Clone)]
pub struct VpnSpawnInfo {
    pub vpn_url: String,
    pub socks_port: u16,
    pub cookie_file: String,
}

/// What is known of the files that a start needs.
#[derive(Debug, Clone, Copy, PartialEq, Eq, Structural)]
pub struct StartFacts {
    pub cookie_exists: bool,
    pub cookie_len: u64,
    pub openconnect_found: bool,
    pub ocproxy_found: bool,
}

/// What stands in the way of a start.
#[derive(Debug, Clone, Copy, PartialEq, Eq, Structural)]
pub enum StartError {
    NoCookieFile,
    EmptyCookieFile,
    NoOpenconnect,
    NoOcproxy,
}

/// What stands in the way, if anything: the cookie is looked at first, then
/// the programs.
pub open spec fn obstacle(f: StartFacts) -> Option<StartError> {
    if !f.cookie_exists {
        Some(StartError::NoCookieFile)
    } else if f.cookie_len == 0 {
        Some(StartError::EmptyCookieFile)
    } else if !f.openconnect_found {
        Some(StartError::NoOpenconnect)
    } else if !f.ocproxy_found {
        Some(StartError::NoOcproxy)
    } else {
        None
    }
}

/// The words for what stands in the way.
pub open spec fn start_error_text(e: StartError, cookie_file: Seq<char>) -> Seq<char> {
    match e {
        StartError::NoCookieFile => "cookie file does not exist: "@ + cookie_file,
        StartError::EmptyCookieFile => "cookie file is empty: "@ + cookie_file,
        StartError::NoOpenconnect => "missing required executable: openconnect"@,
        StartError::NoOcproxy => "missing required executable: ocproxy"@,
    }
}

/// The words for what stands in the way.
pub fn start_error(e: StartError, cookie_file: &str) -> (r: String)
    ensures
        r@ == start_error_text(e, cookie_file@),
{
    match e {
        StartError::NoCookieFile => concat2("cookie file does not exist: ", cookie_file),
        StartError::EmptyCookieFile => concat2("cookie file is empty: ", cookie_file),
        StartError::NoOpenconnect => "missing required executable: openconnect".to_owned(),
        StartError::NoOcproxy => "missing required executable: ocproxy".to_owned(),
    }
}

/// The command that openconnect runs at the tunnel's other end. It is never
/// told to serve other machines.
pub open spec fn script_text(socks_port: u16, keepalive: u32) -> Seq<char> {
    "ocproxy -D "@ + decimal(socks_port as nat) + " -k "@ + decimal(keepalive as nat)
}

/// openconnect's arguments.
pub open spec fn openconnect_args(
    url: Seq<char>,
    protocol: Seq<char>,
    socks_port: u16,
    keepalive: u32,
) -> Seq<Seq<char>> {
    seq![
        "--protocol="@ + protocol,
        "--cookie-on-stdin"@,
        "--script-tun"@,
        "--script"@,
        script_text(socks_port, keepalive),
        url,
    ]
}

/// The configured keepalive.
pub open spec fn keepalive_of(cfg: FileConfig) -> u32 {
    match number_setting(cfg, "OCPROXY_KEEPALIVE"@) {
        Some(v) => v,
        None => DEFAULT_OCPROXY_KEEPALIVE,
    }
}

/// How the VPN process is started: with the cookie file as its input.
#[derive(Debug)]
pub struct StartPlan {
    pub program: &'static str,
    pub args: Vec<String>,
    pub info: VpnSpawnInfo,
}

/// Plans the start of the VPN process.
pub fn start(cfg: &FileConfig, cookie_file: &str, socks_port: u16, facts: StartFacts) -> (r: Result<
    StartPlan,
    StartError,
>)
    ensures
        match r {
            Ok(plan) => {
                let url = effective_text(*cfg, "VPN_URL"@, DEFAULT_VPN_URL@);
                &&& obstacle(facts) is None
                &&& plan.program@ == "openconnect"@
                &&& texts(plan.args@) == openconnect_args(
                    url,
                    effective_text(*cfg, "VPN_PROTOCOL"@, DEFAULT_VPN_PROTOCOL@),
                    socks_port,
                    keepalive_of(*cfg),
                )
                &&& plan.info.vpn_url@ == url
                &&& plan.info.socks_port == socks_port
                &&& plan.info.cookie_file@ == cookie_file@
            },
            Err(e) => obstacle(facts) == Some(e),
        },
{
    if !facts.cookie_exists {
        return Err(StartError::NoCookieFile);
    }
    if facts.cookie_len == 0 {
        return Err(StartError::EmptyCookieFile);
    }
    if !facts.openconnect_found {
        return Err(StartError::NoOpenconnect);
    }
    if !facts.ocproxy_found {
        return Err(StartError::NoOcproxy);
    }
    let vpn_url = cfg_string(cfg, "VPN_URL", DEFAULT_VPN_URL);
    let protocol = cfg_string(cfg, "VPN_PROTOCOL", DEFAULT_VPN_PROTOCOL);
    let keepalive: u32 = cfg_u32(cfg, "OCPROXY_KEEPALIVE", DEFAULT_OCPROXY_KEEPALIVE);
    let mut script = "ocproxy -D ".to_owned();
    script.append(decimal_of(socks_port as u128).as_str());
    script.append(" -k ");
    script.append(decimal_of(keepalive as u128).as_str());
    let mut args: Vec<String> = Vec::new();
    args.push(concat2("--protocol=", protocol.as_str()));
    args.push("--cookie-on-stdin".to_owned());
    args.push("--script-tun".to_owned());
    args.push("--script".to_owned());
    args.push(script);
    args.push(vpn_url.clone());
    assert(texts(args@) =~= openconnect_args(
        vpn_url@,
        protocol@,
        socks_port,
        keepalive,
    ));
    Ok(
        StartPlan {
            program: "openconnect",
            args,
            info: VpnSpawnInfo { vpn_url, socks_port, cookie_file: cookie_file.to_owned() },
        },
    )
}

// ── Stopping ─────────────────────────────────────────────────────────────

/// How far a stop has come.
#[derive(Debug, Clone, Copy, PartialEq, Eq, Structural)]
pub enum StopStep {
    /// Ask the process to end and wait for it, for a limited time.
    Terminate,
    /// End the process by force and wait for it.
    Kill,
    /// The process has ended.
    Stopped,
    /// Waiting for the process failed.
    Failed,
}

/// What a wait for the process came to.
#[derive(Debug, Clone, Copy, PartialEq, Eq, Structural)]
pub enum StopWait {
    /// The process has ended.
    Exited,
    /// Waiting failed.
    WaitFailed,
    /// The time was up.
    TimedOut,
}

/// How a stop begins: a process that was reaped already has ended.
pub fn begin_stop(has_pid: bool) -> (r: StopStep)
    ensures
        r == (if has_pid {
            StopStep::Terminate
        } else {
            StopStep::Stopped
        }),
{
    if has_pid {
        StopStep::Terminate
    } else {
        StopStep::Stopped
    }
}

/// What follows a wait in the course of a stop: force is used only when a
/// polite request was not heeded in time, and settles it.
pub open spec fn stop_step_after(step: StopStep, wait: StopWait) -> StopStep {
    match step {
        StopStep::Terminate => match wait {
            StopWait::Exited => StopStep::Stopped,
            StopWait::WaitFailed => StopStep::Failed,
            StopWait::TimedOut => StopStep::Kill,
        },
        StopStep::Kill => StopStep::Stopped,
        StopStep::Stopped | StopStep::Failed => step,
    }
}

/// What follows a wait in the course of a stop.
pub fn next_stop_step(step: StopStep, wait: StopWait) -> (r: StopStep)
    ensures
        r == stop_step_after(step, wait),
{
    match step {
        StopStep::Terminate => match wait {
            StopWait::Exited => StopStep::Stopped,
            StopWait::WaitFailed => StopStep::Failed,
            StopWait::TimedOut => StopStep::Kill,
        },
        StopStep::Kill => StopStep::Stopped,
        StopStep::Stopped | StopStep::Failed => step,
    }
}

// ── Laws ─────────────────────────────────────────────────────────────────

/// ocproxy is never told to serve other machines: whatever the port and the
/// keepalive, its command line holds no `-g`.
pub proof fn law_ocproxy_stays_local(socks_port: u16, keepalive: u32)
    ensures
        !has_text(script_text(socks_port, keepalive), "-g"@),
{
    let s = script_text(socks_port, keepalive);
    reveal_strlit("ocproxy -D ");
    reveal_strlit(" -k ");
    reveal_strlit("-g");
    let a = decimal(socks_port as nat);
    let b = decimal(keepalive as nat);
    lemma_decimal_digits(socks_port as nat);
    lemma_decimal_digits(keepalive as nat);
    assert forall|i: int| 0 <= i < s.len() implies s[i] != 'g' by {
        if 11 <= i < 11 + a.len() {
            assert(s[i] == a[i - 11]);
            assert(is_digit(a[i - 11]));
        } else if i >= 15 + a.len() {
            assert(s[i] == b[i - 15 - a.len()]);
            assert(is_digit(b[i - 15 - a.len()]));
        }
    }
    if has_text(s, "-g"@) {
        let k = choose|k: int| #[trigger] occurs_at(s, "-g"@, k);
        assert(s.subrange(k, k + 2)[1] == 'g');
        assert(s[k + 1] == 'g');
    }
}

/// A stop ends after at most two waits.
pub proof fn law_stop_ends(first: StopWait, second: StopWait)
    ensures
        ({
            let end = stop_step_after(stop_step_after(StopStep::Terminate, first), second);
            end == StopStep::Stopped || end == StopStep::Failed
        }),
{
}

/// A start is planned exactly where there is a cookie that is not empty and
/// both programs are there; else the first thing that is missing is named.
/// The plan is openconnect with the cookie on its input, the configured
/// protocol and address, and ocproxy at the port and keepalive.
pub proof fn law_start_plan(
    cfg: FileConfig,
    cookie_file: &str,
    socks_port: u16,
    f: StartFacts,
    r: Result<StartPlan, StartError>,
)
    requires
        call_ensures(start, (&cfg, cookie_file, socks_port, f), r),
    ensures
        r is Ok <==> f.cookie_exists && f.cookie_len > 0 && f.openconnect_found && f.ocproxy_found,
        r matches Err(e) ==> {
            &&& e == StartError::NoCookieFile <==> !f.cookie_exists
            &&& e == StartError::EmptyCookieFile <==> f.cookie_exists && f.cookie_len == 0
            &&& e == StartError::NoOpenconnect <==> f.cookie_exists && f.cookie_len > 0
                && !f.openconnect_found
        },
        r matches Ok(plan) ==> {
            let keepalive = match cfg.ocproxy_keepalive {
                Some(n) => n,
                None => 60u32,
            };
            let url = match cfg.vpn_url {
                Some(u) => u@,
                None => ""@,
            };
            let protocol = match cfg.vpn_protocol {
                Some(p) => p@,
                None => "f5"@,
            };
            &&& plan.program@ == "openconnect"@
            &&& plan.args@.len() == 6
            &&& plan.args@[0]@ == "--protocol="@ + protocol
            &&& plan.args@[1]@ == "--cookie-on-stdin"@
            &&& plan.args@[2]@ == "--script-tun"@
            &&& plan.args@[3]@ == "--script"@
            &&& plan.args@[4]@ == "ocproxy -D "@ + decimal(socks_port as nat) + " -k "@ + decimal(
                keepalive as nat,
            )
            &&& plan.args@[5]@ == url
            &&& plan.info.vpn_url@ == url
            &&& plan.info.socks_port == socks_port
            &&& plan.info.cookie_file@ == cookie_file@
        },
{
    law_text_settings_are_their_fields(cfg, ""@);
    law_text_settings_are_their_fields(cfg, "f5"@);
    if let Ok(plan) = r {
        let t = texts(plan.args@);
        assert(t.len() == plan.args@.len());
        assert(t[0] == plan.args@[0]@ && t[1] == plan.args@[1]@ && t[2] == plan.args@[2]@ && t[3]
            == plan.args@[3]@ && t[4] == plan.args@[4]@ && t[5] == plan.args@[5]@);
    }
}

/// A process that runs is first asked to end; force follows only a request
/// that was not heeded in time; whatever has ended stays ended.
pub proof fn law_force_is_the_last_resort(
    has_pid: bool,
    first: StopStep,
    step: StopStep,
    wait: StopWait,
    r: StopStep,
)
    requires
        call_ensures(begin_stop, (has_pid,), first),
        call_ensures(next_stop_step, (step, wait), r),
    ensures
        crate::jumphost::STOP_TIMEOUT_SECS == 10,
        first == StopStep::Terminate <==> has_pid,
        first == StopStep::Stopped <==> !has_pid,
        r == StopStep::Kill <==> step == StopStep::Terminate && wait == StopWait::TimedOut,
        r == StopStep::Failed <==> step == StopStep::Failed || step == StopStep::Terminate && wait
            == StopWait::WaitFailed,
        r != StopStep::Terminate,
{
}

/// The words name what is missing, and the cookie file where it is at fault.
pub proof fn law_start_errors_name_the_cause(e: StartError, file: &str, r: String)
    requires
        call_ensures(start_error, (e, file), r),
    ensures
        e == StartError::NoCookieFile ==> r@ == "cookie file does not exist: "@ + file@,
        e == StartError::EmptyCookieFile ==> r@ == "cookie file is empty: "@ + file@,
        e == StartError::NoOpenconnect ==> r@ == "missing required executable: openconnect"@,
        e == StartError::NoOcproxy ==> r@ == "missing required executable: ocproxy"@,
{
}

} // verus!
