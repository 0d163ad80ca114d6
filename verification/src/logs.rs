//! Showing the program's logs: where they come from, and the command that
//! shows them.
use vstd::prelude::*;
use vstd::string::*;

use crate::text::{decimal, decimal_of, join_path, path_below, same, texts, trim, trimmed};

verus! {

/// The service's name.
pub const SYSTEMD_UNIT: &'static str = "vpn-jumphost.service";

/// Where the log is under launchd.
pub const LAUNCHD_LOG_PATH: &'static str = "/tmp/vpn-jumphost.log";

/// Where logs come from.
#[derive(Debug, Clone, Copy, PartialEq, Eq, Structural)]
pub enum LogSource {
    /// The first of the others that is there.
    Auto,
    /// The journal of the systemd user service.
    Systemd,
    /// The file that a detached run writes.
    Detached,
    /// The file that launchd writes.
    Launchd,
}

/// What the command is run with.
#[derive(Debug, Clone)]
pub struct LogsArgs {
    /// Keep showing new lines.
    pub follow: bool,
    /// How many recent lines to show.
    pub lines: u32,
    pub source: LogSource,
}

/// What is there to show.
#[derive(Debug, Clone, Copy, PartialEq, Eq, Structural)]
pub struct SourceState {
    pub systemd_service_known: bool,
    pub journalctl_available: bool,
    pub detached_log_exists: bool,
    pub launchd_log_exists: bool,
}

/// The source that is taken without a choice: a known service, then the
/// detached log, then launchd's log, then whatever the journal has.
pub open spec fn auto_source(state: SourceState) -> Option<LogSource> {
    if state.systemd_service_known {
        Some(LogSource::Systemd)
    } else if state.detached_log_exists {
        Some(LogSource::Detached)
    } else if state.launchd_log_exists {
        Some(LogSource::Launchd)
    } else if state.journalctl_available {
        Some(LogSource::Systemd)
    } else {
        None
    }
}

/// The source that is taken without a choice.
pub fn select_auto_source_from_state(state: SourceState) -> (r: Option<LogSource>)
    ensures
        r == auto_source(state),
{
    if state.systemd_service_known {
        return Some(LogSource::Systemd);
    }
    if state.detached_log_exists {
        return Some(LogSource::Detached);
    }
    if state.launchd_log_exists {
        return Some(LogSource::Launchd);
    }
    if state.journalctl_available {
        return Some(LogSource::Systemd);
    }
    None
}

/// The source to show: the one that was chosen, else the one that is there.
pub fn select_auto_source(chosen: LogSource, state: SourceState) -> (r: Option<LogSource>)
    ensures
        r == (if chosen == LogSource::Auto {
            auto_source(state)
        } else {
            Some(chosen)
        }),
        r != Some(LogSource::Auto),
{
    if chosen == LogSource::Auto {
        select_auto_source_from_state(state)
    } else {
        Some(chosen)
    }
}

/// Where a detached run writes its log.
pub fn detached_log_path(state_dir: &str) -> (r: String)
    ensures
        r@ == path_below(state_dir@, "jumphost.log"@),
{
    join_path(state_dir, "jumphost.log")
}

/// A program and its arguments.
#[derive(Debug)]
pub struct LogCommand {
    pub program: &'static str,
    pub args: Vec<String>,
}

/// The arguments that have the journal shown.
pub open spec fn journal_args(lines: u32, follow: bool) -> Seq<Seq<char>> {
    let always = seq![
        "--user"@,
        "-u"@,
        SYSTEMD_UNIT@,
        "-n"@,
        decimal(lines as nat),
        "--no-pager"@,
    ];
    if follow {
        always.push("-f"@)
    } else {
        always
    }
}

/// The arguments that have a file shown.
pub open spec fn tail_args(lines: u32, follow: bool, path: Seq<char>) -> Seq<Seq<char>> {
    let options = seq!["-n"@, decimal(lines as nat)];
    if follow {
        options.push("-f"@).push(path)
    } else {
        options.push(path)
    }
}

/// Why no log is shown.
#[derive(Debug, Clone, Copy, PartialEq, Eq, Structural)]
pub enum LogsError {
    NoJournalctl,
    NoFile,
    NoTail,
}

/// The command that shows the journal, if there is one.
pub fn run_systemd_logs(args: &LogsArgs, journalctl_available: bool) -> (r: Result<
    LogCommand,
    LogsError,
>)
    ensures
        match r {
            Ok(c) => journalctl_available && c.program@ == "journalctl"@ && texts(c.args@)
                == journal_args(args.lines, args.follow),
            Err(e) => !journalctl_available && e == LogsError::NoJournalctl,
        },
{
    if !journalctl_available {
        return Err(LogsError::NoJournalctl);
    }
    let mut list: Vec<String> = Vec::new();
    list.push("--user".to_owned());
    list.push("-u".to_owned());
    list.push(SYSTEMD_UNIT.to_owned());
    list.push("-n".to_owned());
    list.push(decimal_of(args.lines as u128));
    list.push("--no-pager".to_owned());
    if args.follow {
        list.push("-f".to_owned());
    }
    assert(texts(list@) =~= journal_args(args.lines, args.follow));
    Ok(LogCommand { program: "journalctl", args: list })
}

/// The command that shows a log file, if the file and the program are there.
pub fn run_file_logs(args: &LogsArgs, path: &str, is_file: bool, tail_available: bool) -> (r: Result<
    LogCommand,
    LogsError,
>)
    ensures
        match r {
            Ok(c) => is_file && tail_available && c.program@ == "tail"@ && texts(c.args@)
                == tail_args(args.lines, args.follow, path@),
            Err(e) => if !is_file {
                e == LogsError::NoFile
            } else {
                !tail_available && e == LogsError::NoTail
            },
        },
{
    if !is_file {
        return Err(LogsError::NoFile);
    }
    if !tail_available {
        return Err(LogsError::NoTail);
    }
    let mut list: Vec<String> = Vec::new();
    list.push("-n".to_owned());
    list.push(decimal_of(args.lines as u128));
    if args.follow {
        list.push("-f".to_owned());
    }
    list.push(path.to_owned());
    assert(texts(list@) =~= tail_args(args.lines, args.follow, path@));
    Ok(LogCommand { program: "tail", args: list })
}

/// The exit code for a command that ended: none where a signal ended it. A
/// failure stays a failure and fits a byte.
pub open spec fn exit_code_of(code: Option<i32>) -> u8 {
    match code {
        Some(c) => if c == 0 {
            0
        } else if c < 1 {
            1
        } else if c > 255 {
            255
        } else {
            c as u8
        },
        None => 1,
    }
}

/// The exit code for a command that ended.
pub fn status_to_exit_code(code: Option<i32>) -> (r: u8)
    ensures
        r == exit_code_of(code),
{
    match code {
        Some(c) => if c == 0 {
            0
        } else if c < 1 {
            1
        } else if c > 255 {
            255
        } else {
            c as u8
        },
        None => 1,
    }
}

/// A load state that `systemctl` reports for a unit that it knows.
pub open spec fn is_loaded(report: Seq<char>) -> bool {
    trimmed(report).len() > 0 && trimmed(report) != "not-found"@
}

/// Whether `systemctl` knows the unit, by the load state that it reports.
pub fn systemd_user_service_loaded(report: Option<&str>) -> (r: bool)
    ensures
        r == (match report {
            Some(s) => is_loaded(s@),
            None => false,
        }),
{
    match report {
        Some(s) => {
            let state = trim(s);
            state.as_str().unicode_len() > 0 && !same(state.as_str(), "not-found")
        },
        None => false,
    }
}

/// Whether the service is known: `systemctl` is there, and the unit is active
/// or loaded.
pub fn systemd_user_service_known(systemctl_available: bool, active: bool, loaded: bool) -> (r:
    bool)
    ensures
        r == (systemctl_available && (active || loaded)),
{
    systemctl_available && (active || loaded)
}

// ── Laws ─────────────────────────────────────────────────────────────────

/// A command that failed is never reported as a success, nor the other way
/// round.
pub proof fn law_failures_stay_failures(code: Option<i32>)
    ensures
        exit_code_of(code) == 0 <==> code == Some(0i32),
{
}

/// Without a choice a source is found exactly if there is one.
pub proof fn law_auto_finds_what_is_there(state: SourceState)
    ensures
        auto_source(state) is None <==> !state.systemd_service_known && !state.journalctl_available
            && !state.detached_log_exists && !state.launchd_log_exists,
        auto_source(state) == Some(LogSource::Detached) ==> state.detached_log_exists,
        auto_source(state) == Some(LogSource::Launchd) ==> state.launchd_log_exists,
{
}

/// Without a choice a known service comes before the detached log, that before
/// launchd's, and that before a journal of which nothing is known; a choice is
/// kept, whatever is there.
pub proof fn law_order_of_sources(chosen: LogSource, state: SourceState, r: Option<LogSource>)
    requires
        call_ensures(select_auto_source, (chosen, state), r),
    ensures
        chosen != LogSource::Auto ==> r == Some(chosen),
        chosen == LogSource::Auto ==> {
            &&& r == Some(LogSource::Systemd) <==> state.systemd_service_known
                || !state.detached_log_exists && !state.launchd_log_exists
                && state.journalctl_available
            &&& r == Some(LogSource::Detached) <==> !state.systemd_service_known
                && state.detached_log_exists
            &&& r == Some(LogSource::Launchd) <==> !state.systemd_service_known
                && !state.detached_log_exists && state.launchd_log_exists
            &&& r != Some(LogSource::Auto)
        },
{
}

/// The command that shows the journal: of the user's service, so many lines,
/// and the new ones exactly if they are asked for.
pub proof fn law_journal_command(args: LogsArgs, available: bool, r: Result<LogCommand, LogsError>)
    requires
        call_ensures(run_systemd_logs, (&args, available), r),
    ensures
        r is Ok <==> available,
        r matches Err(e) ==> e == LogsError::NoJournalctl,
        r matches Ok(c) ==> {
            &&& c.program@ == "journalctl"@
            &&& c.args@.len() == if args.follow {
                7nat
            } else {
                6nat
            }
            &&& c.args@[0]@ == "--user"@ && c.args@[1]@ == "-u"@ && c.args@[2]@
                == "vpn-jumphost.service"@
            &&& c.args@[3]@ == "-n"@ && c.args@[4]@ == decimal(args.lines as nat)
            &&& c.args@[5]@ == "--no-pager"@
            &&& args.follow ==> c.args@[6]@ == "-f"@
        },
{
    if let Ok(c) = r {
        let t = texts(c.args@);
        assert(t.len() == c.args@.len());
        assert forall|i: int| 0 <= i < t.len() implies #[trigger] c.args@[i]@ == t[i] by {
        }
    }
}

/// The command that shows a file: so many of its last lines, and the new ones
/// exactly if they are asked for; the file comes last.
pub proof fn law_tail_command(
    args: LogsArgs,
    path: &str,
    is_file: bool,
    available: bool,
    r: Result<LogCommand, LogsError>,
)
    requires
        call_ensures(run_file_logs, (&args, path, is_file, available), r),
    ensures
        r is Ok <==> is_file && available,
        r == Err::<LogCommand, LogsError>(LogsError::NoFile) <==> !is_file,
        r == Err::<LogCommand, LogsError>(LogsError::NoTail) <==> is_file && !available,
        r matches Ok(c) ==> {
            &&& c.program@ == "tail"@
            &&& c.args@.len() == if args.follow {
                4nat
            } else {
                3nat
            }
            &&& c.args@[0]@ == "-n"@ && c.args@[1]@ == decimal(args.lines as nat)
            &&& args.follow ==> c.args@[2]@ == "-f"@
            &&& c.args@.last()@ == path@
        },
{
    if let Ok(c) = r {
        let t = texts(c.args@);
        assert(t.len() == c.args@.len());
        assert forall|i: int| 0 <= i < t.len() implies #[trigger] c.args@[i]@ == t[i] by {
        }
    }
}

/// A code between zero and 255 is passed on; a larger one becomes 255, and a
/// negative one, or none, becomes one.
pub proof fn law_exit_codes_are_passed_on(code: Option<i32>, r: u8)
    requires
        call_ensures(status_to_exit_code, (code,), r),
    ensures
        code matches Some(c) ==> (0 <= c <= 255 ==> r == c),
        code matches Some(c) ==> (c > 255 ==> r == 255),
        code matches Some(c) ==> (c < 0 ==> r == 1),
        code is None ==> r == 1,
{
}

/// The service is known exactly where `systemctl` is there and calls the unit
/// active or loaded, that is, reports anything but nothing and `not-found`.
pub proof fn law_known_service(
    report: Option<&str>,
    loaded: bool,
    available: bool,
    active: bool,
    known: bool,
    dir: &str,
    path: String,
)
    requires
        call_ensures(systemd_user_service_loaded, (report,), loaded),
        call_ensures(systemd_user_service_known, (available, active, loaded), known),
        call_ensures(detached_log_path, (dir,), path),
    ensures
        report is None ==> !loaded,
        report matches Some(s) ==> (loaded <==> trimmed(s@).len() > 0 && trimmed(s@)
            != "not-found"@),
        known <==> available && active || available && loaded,
        LAUNCHD_LOG_PATH@ == "/tmp/vpn-jumphost.log"@,
        path@ == path_below(dir@, "jumphost.log"@),
{
}

} // verus!
