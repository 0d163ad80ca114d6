//! End-to-end probes through the routing proxy: which targets, how long and
//! how often, and what their outcome amounts to.
use vstd::prelude::*;
use vstd::string::*;

use crate::config::{
    direct_list, probe_retries, probe_retries_of, probe_timeout, probe_timeout_of, proxy_list,
    route_label_for_host,
};
use crate::config_file::FileConfig;
use crate::domains::is_tunnelled;
use crate::probe::{
    configured_targets, parse_targets, probe_targets, result_views, target_display, target_views,
    targets_of, ProbeResult, ProbeResultView, ProbeTarget, ProbeTargetView,
};
use crate::text::{decimal, decimal_of, left_align, left_aligned, texts};

verus! {

/// What the command is run with.
#[derive(Debug, Clone)]
pub struct TestTunnelArgs {
    /// The targets, as `host` or `host:port`; without any, the configured
    /// ones.
    pub hosts: Vec<String>,
    /// The timeout of one attempt in seconds; zero for the configured one.
    pub timeout: u64,
    /// How many more attempts a failing probe gets; zero for the configured
    /// number.
    pub retries: u32,
    /// One probe that succeeds is enough.
    pub require_any: bool,
    /// Print failures only.
    pub quiet: bool,
}

/// The timeout of one attempt, in seconds.
pub fn chosen_timeout(cfg: &FileConfig, args: &TestTunnelArgs) -> (r: u64)
    ensures
        r == (if args.timeout > 0 {
            args.timeout
        } else {
            probe_timeout_of(*cfg)
        }),
{
    if args.timeout > 0 {
        args.timeout
    } else {
        probe_timeout(cfg)
    }
}

/// How many more attempts a failing probe gets.
pub fn chosen_retries(cfg: &FileConfig, args: &TestTunnelArgs) -> (r: u32)
    ensures
        r == (if args.retries > 0 {
            args.retries
        } else {
            probe_retries_of(*cfg)
        }),
{
    if args.retries > 0 {
        args.retries
    } else {
        probe_retries(cfg)
    }
}

/// The targets: those of the command line if it names any, else the
/// configured ones.
pub open spec fn chosen_targets(cfg: FileConfig, hosts: Seq<Seq<char>>) -> Seq<ProbeTargetView> {
    if hosts.len() > 0 {
        targets_of(hosts)
    } else {
        configured_targets(cfg)
    }
}

/// The targets to probe.
pub fn resolve_targets(cfg: &FileConfig, cli_hosts: &Vec<String>) -> (r: Vec<ProbeTarget>)
    ensures
        target_views(r@) == chosen_targets(*cfg, texts(cli_hosts@)),
{
    assert(texts(cli_hosts@).len() == cli_hosts@.len());
    if cli_hosts.len() > 0 {
        parse_targets(cli_hosts)
    } else {
        probe_targets(cfg)
    }
}

/// Why no probe is made.
#[derive(Debug, Clone, Copy, PartialEq, Eq, Structural)]
pub enum NotProbed {
    /// The routing proxy's address is none.
    BadAddress,
    /// The routing proxy does not listen.
    ProxyDown,
    /// There is no target.
    NoTargets,
}

/// Whether probes can be made, by whether the routing proxy's address is one,
/// whether something listens there, and how many targets there are.
pub fn preflight(address_ok: bool, listening: bool, targets: usize) -> (r: Option<NotProbed>)
    ensures
        r == (if !address_ok {
            Some(NotProbed::BadAddress)
        } else if !listening {
            Some(NotProbed::ProxyDown)
        } else if targets == 0 {
            Some(NotProbed::NoTargets)
        } else {
            None
        }),
{
    if !address_ok {
        Some(NotProbed::BadAddress)
    } else if !listening {
        Some(NotProbed::ProxyDown)
    } else if targets == 0 {
        Some(NotProbed::NoTargets)
    } else {
        None
    }
}

/// The exit code where no probe is made: 2 if the routing proxy is at fault,
/// 1 if there is no target.
pub fn not_probed_exit_code(why: NotProbed) -> (r: u8)
    ensures
        r == (match why {
            NotProbed::BadAddress | NotProbed::ProxyDown => 2u8,
            NotProbed::NoTargets => 1u8,
        }),
{
    match why {
        NotProbed::BadAddress | NotProbed::ProxyDown => 2,
        NotProbed::NoTargets => 1,
    }
}

/// The exit code of a test that made its probes: 0 if it succeeded, else 1.
pub fn tunnel_exit_code(success: bool) -> (r: u8)
    ensures
        r == (if success {
            0u8
        } else {
            1u8
        }),
{
    if success {
        0
    } else {
        1
    }
}

/// How many probes succeeded.
pub open spec fn passed_of(results: Seq<ProbeResultView>) -> nat
    decreases results.len(),
{
    if results.len() == 0 {
        0
    } else {
        passed_of(results.drop_last()) + if results.last().ok {
            1nat
        } else {
            0nat
        }
    }
}

/// Whether the probes count as a success: all of them, or one of them if that
/// is enough.
pub open spec fn is_success(results: Seq<ProbeResultView>, require_any: bool) -> bool {
    if require_any {
        passed_of(results) > 0
    } else {
        passed_of(results) == results.len()
    }
}

/// The line for one result.
pub open spec fn result_line_text(
    r: ProbeResultView,
    direct: Seq<Seq<char>>,
    proxy: Seq<Seq<char>>,
) -> Seq<char> {
    let tag = if r.ok {
        "ok  "@
    } else {
        "FAIL"@
    };
    let route = if is_tunnelled(r.target.host, direct, proxy) {
        "tunnel"@
    } else {
        "direct"@
    };
    let detail = if r.ok {
        decimal(r.latency_ms as nat) + "ms"@
    } else {
        match r.error {
            Some(e) => e,
            None => "unknown error"@,
        }
    };
    "  ["@ + tag + "]  "@ + left_aligned(target_display(r.target), 40) + " "@ + left_aligned(
        route,
        7,
    ) + " "@ + detail
}

/// The line that sums up.
pub open spec fn summary_text(passed: nat, total: nat, success: bool, quiet: bool) -> Seq<char> {
    let ratio = decimal(passed) + "/"@ + decimal(total);
    if !quiet {
        "test-tunnel: "@ + ratio + " probes passed"@
    } else if success {
        "test-tunnel: ok ("@ + ratio + ")"@
    } else {
        "test-tunnel: FAIL ("@ + ratio + ")"@
    }
}

/// The line for one result.
pub fn result_line(cfg: &FileConfig, result: &ProbeResult) -> (r: String)
    ensures
        r@ == result_line_text(result@, direct_list(*cfg), proxy_list(*cfg)),
{
    let mut out = "  [".to_owned();
    if result.ok {
        out.append("ok  ");
    } else {
        out.append("FAIL");
    }
    out.append("]  ");
    out.append(left_align(result.target.display().as_str(), 40).as_str());
    out.append(" ");
    out.append(left_align(route_label_for_host(cfg, result.target.host.as_str()), 7).as_str());
    out.append(" ");
    if result.ok {
        out.append(decimal_of(result.latency_ms).as_str());
        out.append("ms");
    } else {
        match &result.error {
            Some(e) => {
                out.append(e.as_str());
            },
            None => {
                out.append("unknown error");
            },
        }
    }
    assert(out@ =~= result_line_text(result@, direct_list(*cfg), proxy_list(*cfg)));
    out
}

/// The lines that are shown: one per result, in their order; of a quiet run
/// only those of the probes that failed.
pub open spec fn shown_line_texts(
    results: Seq<ProbeResultView>,
    quiet: bool,
    direct: Seq<Seq<char>>,
    proxy: Seq<Seq<char>>,
) -> Seq<Seq<char>> {
    results.filter(|r: ProbeResultView| !quiet || !r.ok).map_values(
        |r: ProbeResultView| result_line_text(r, direct, proxy),
    )
}

/// The lines that are shown.
pub fn shown_lines(cfg: &FileConfig, results: &Vec<ProbeResult>, quiet: bool) -> (r: Vec<String>)
    ensures
        texts(r@) == shown_line_texts(
            result_views(results@),
            quiet,
            direct_list(*cfg),
            proxy_list(*cfg),
        ),
{
    let ghost keep = |r: ProbeResultView| !quiet || !r.ok;
    let ghost show = |r: ProbeResultView|
        result_line_text(r, direct_list(*cfg), proxy_list(*cfg));
    let ghost all = result_views(results@);
    let mut lines: Vec<String> = Vec::new();
    let mut i: usize = 0;
    proof {
        reveal(Seq::filter);
    }
    assert(texts(lines@) =~= all.take(0).filter(keep).map_values(show));
    while i < results.len()
        invariant
            i <= results@.len(),
            all == result_views(results@),
            keep == (|r: ProbeResultView| !quiet || !r.ok),
            show == (|r: ProbeResultView|
                result_line_text(r, direct_list(*cfg), proxy_list(*cfg))),
            texts(lines@) == all.take(i as int).filter(keep).map_values(show),
        decreases results@.len() - i,
    {
        proof {
            reveal(Seq::filter);
        }
        let ghost sofar = all.take(i as int).filter(keep);
        let ghost old_lines = lines@;
        assert(all.take(i + 1).drop_last() == all.take(i as int));
        assert(all[i as int] == results@[i as int]@);
        if !quiet || !results[i].ok {
            lines.push(result_line(cfg, &results[i]));
            assert(lines@.last()@ == show(all[i as int]));
            assert(texts(lines@) =~= texts(old_lines).push(show(all[i as int])));
            assert(sofar.push(all[i as int]).map_values(show) =~= sofar.map_values(show).push(
                show(all[i as int]),
            ));
        }
        i = i + 1;
    }
    assert(all.take(i as int) =~= all);
    lines
}

/// How many probes succeeded.
pub fn passed(results: &Vec<ProbeResult>) -> (r: usize)
    ensures
        r == passed_of(result_views(results@)),
        r <= results@.len(),
{
    let ghost all = result_views(results@);
    let mut n: usize = 0;
    let mut i: usize = 0;
    while i < results.len()
        invariant
            i <= results@.len(),
            n <= i,
            all == result_views(results@),
            n == passed_of(all.take(i as int)),
        decreases results@.len() - i,
    {
        assert(all.take(i + 1).drop_last() == all.take(i as int));
        assert(all[i as int] == results@[i as int]@);
        if results[i].ok {
            n = n + 1;
        }
        i = i + 1;
    }
    assert(all.take(i as int) =~= all);
    n
}

/// What the probes amount to.
#[derive(Debug)]
pub struct TunnelReport {
    pub success: bool,
    pub summary: String,
}

/// Sums up the probes.
pub fn tunnel_report(results: &Vec<ProbeResult>, require_any: bool, quiet: bool) -> (r:
    TunnelReport)
    ensures
        r.success == is_success(result_views(results@), require_any),
        r.summary@ == summary_text(
            passed_of(result_views(results@)),
            results@.len(),
            r.success,
            quiet,
        ),
{
    let n: usize = passed(results);
    let total: usize = results.len();
    let success = if require_any {
        n > 0
    } else {
        n == total
    };
    let mut out = String::new();
    if !quiet {
        out.append("test-tunnel: ");
    } else if success {
        out.append("test-tunnel: ok (");
    } else {
        out.append("test-tunnel: FAIL (");
    }
    out.append(decimal_of(n as u128).as_str());
    out.append("/");
    out.append(decimal_of(total as u128).as_str());
    if !quiet {
        out.append(" probes passed");
    } else {
        out.append(")");
    }
    assert(out@ =~= summary_text(n as nat, total as nat, success, quiet));
    TunnelReport { success, summary: out }
}

// ── Laws ─────────────────────────────────────────────────────────────────

proof fn lemma_passed(results: Seq<ProbeResultView>)
    ensures
        passed_of(results) <= results.len(),
        passed_of(results) == results.len() <==> forall|i: int|
            0 <= i < results.len() ==> #[trigger] results[i].ok,
        passed_of(results) > 0 <==> exists|i: int| 0 <= i < results.len() && #[trigger] results[i].ok,
    decreases results.len(),
{
    if results.len() > 0 {
        let rest = results.drop_last();
        lemma_passed(rest);
        assert(forall|i: int| 0 <= i < rest.len() ==> rest[i] == #[trigger] results[i]);
        if passed_of(rest) > 0 {
            let i = choose|i: int| 0 <= i < rest.len() && #[trigger] rest[i].ok;
            assert(results[i].ok);
        }
        if exists|i: int| 0 <= i < results.len() && #[trigger] results[i].ok {
            let i = choose|i: int| 0 <= i < results.len() && #[trigger] results[i].ok;
            if i < rest.len() {
                assert(rest[i].ok);
            }
        }
        if forall|i: int| 0 <= i < results.len() ==> #[trigger] results[i].ok {
            assert forall|i: int| 0 <= i < rest.len() implies #[trigger] rest[i].ok by {
                assert(results[i].ok);
            }
        }
        if passed_of(results) == results.len() {
            assert forall|i: int| 0 <= i < results.len() implies #[trigger] results[i].ok by {
                if i < rest.len() {
                    assert(rest[i].ok);
                }
            }
        }
    }
}

/// By default the command succeeds exactly if every probe did; where one is
/// enough, exactly if some probe did.
pub proof fn law_all_must_pass_unless_any_will_do(results: Seq<ProbeResultView>)
    ensures
        is_success(results, false) <==> forall|i: int|
            0 <= i < results.len() ==> #[trigger] results[i].ok,
        is_success(results, true) <==> exists|i: int|
            0 <= i < results.len() && #[trigger] results[i].ok,
{
    lemma_passed(results);
}

/// What the command line names takes precedence over the configuration; zero
/// and no host stand for the configured values.
pub proof fn law_command_line_comes_first(
    cfg: FileConfig,
    args: TestTunnelArgs,
    timeout: u64,
    configured_timeout: u64,
    retries: u32,
    configured_retries: u32,
    targets: Vec<ProbeTarget>,
    named: Vec<ProbeTarget>,
    configured: Vec<ProbeTarget>,
)
    requires
        call_ensures(chosen_timeout, (&cfg, &args), timeout),
        call_ensures(probe_timeout, (&cfg,), configured_timeout),
        call_ensures(chosen_retries, (&cfg, &args), retries),
        call_ensures(probe_retries, (&cfg,), configured_retries),
        call_ensures(resolve_targets, (&cfg, &args.hosts), targets),
        call_ensures(parse_targets, (&args.hosts,), named),
        call_ensures(probe_targets, (&cfg,), configured),
    ensures
        args.timeout > 0 ==> timeout == args.timeout,
        args.timeout == 0 ==> timeout == configured_timeout,
        args.retries > 0 ==> retries == args.retries,
        args.retries == 0 ==> retries == configured_retries,
        args.hosts@.len() > 0 ==> target_views(targets@) == target_views(named@),
        args.hosts@.len() == 0 ==> target_views(targets@) == target_views(configured@),
{
    assert(texts(args.hosts@).len() == args.hosts@.len());
}

/// Probes are made exactly where the address is one, something listens there
/// and there is a target; else the exit code tells a routing proxy at fault
/// from a lack of targets, and neither is a success.
pub proof fn law_preflight_and_exit_codes(
    address_ok: bool,
    listening: bool,
    targets: usize,
    r: Option<NotProbed>,
    code: u8,
    success: bool,
    end: u8,
)
    requires
        call_ensures(preflight, (address_ok, listening, targets), r),
        r matches Some(why) ==> call_ensures(not_probed_exit_code, (why,), code),
        call_ensures(tunnel_exit_code, (success,), end),
    ensures
        r is None <==> address_ok && listening && targets > 0,
        r == Some(NotProbed::BadAddress) <==> !address_ok,
        r == Some(NotProbed::ProxyDown) <==> address_ok && !listening,
        r is Some ==> (code == 2 <==> !address_ok || !listening) && (code == 1 <==> address_ok
            && listening),
        end == 0 <==> success,
        end <= 1,
{
}

/// Each success counts once, whatever the others are.
pub proof fn law_each_success_counts_once(results: Seq<ProbeResultView>, one: ProbeResultView)
    ensures
        passed_of(Seq::<ProbeResultView>::empty()) == 0,
        passed_of(results.push(one)) == passed_of(results) + if one.ok {
            1nat
        } else {
            0nat
        },
{
    assert(results.push(one).drop_last() =~= results);
}

/// The report: whether the test succeeded, and a line with how many of how
/// many probes did; of a quiet run it also says whether that is enough.
pub proof fn law_report(
    results: Vec<ProbeResult>,
    require_any: bool,
    quiet: bool,
    r: TunnelReport,
    n: usize,
)
    requires
        call_ensures(tunnel_report, (&results, require_any, quiet), r),
        call_ensures(passed, (&results,), n),
    ensures
        !require_any ==> (r.success <==> forall|i: int|
            0 <= i < results@.len() ==> #[trigger] results@[i].ok),
        require_any ==> (r.success <==> exists|i: int|
            0 <= i < results@.len() && #[trigger] results@[i].ok),
        n <= results@.len(),
        n == results@.len() <==> forall|i: int| 0 <= i < results@.len() ==> #[trigger] results@[i].ok,
        n > 0 <==> exists|i: int| 0 <= i < results@.len() && #[trigger] results@[i].ok,
        ({
            let ratio = decimal(n as nat) + "/"@ + decimal(results@.len());
            &&& !quiet ==> r.summary@ == "test-tunnel: "@ + ratio + " probes passed"@
            &&& quiet && r.success ==> r.summary@ == "test-tunnel: ok ("@ + ratio + ")"@
            &&& quiet && !r.success ==> r.summary@ == "test-tunnel: FAIL ("@ + ratio + ")"@
        }),
{
    let v = result_views(results@);
    assert(v.len() == results@.len());
    assert forall|i: int| 0 <= i < v.len() implies (#[trigger] v[i]).ok == results@[i].ok by {
    }
    lemma_passed(v);
    law_all_must_pass_unless_any_will_do(v);
    if exists|i: int| 0 <= i < results@.len() && #[trigger] results@[i].ok {
        let i = choose|i: int| 0 <= i < results@.len() && #[trigger] results@[i].ok;
        assert(v[i].ok);
    }
    if exists|i: int| 0 <= i < v.len() && #[trigger] v[i].ok {
        let i = choose|i: int| 0 <= i < v.len() && #[trigger] v[i].ok;
        assert(results@[i].ok);
    }
    if forall|i: int| 0 <= i < v.len() ==> #[trigger] v[i].ok {
        assert forall|i: int| 0 <= i < results@.len() implies #[trigger] results@[i].ok by {
            assert(v[i].ok);
        }
    }
    if forall|i: int| 0 <= i < results@.len() ==> #[trigger] results@[i].ok {
        assert forall|i: int| 0 <= i < v.len() implies #[trigger] v[i].ok by {
            assert(results@[i].ok);
        }
    }
}

/// Every result has its line, in their order; a quiet run leaves out those of
/// the probes that succeeded, and no other.
pub proof fn law_lines_are_shown(
    results: Seq<ProbeResultView>,
    one: ProbeResultView,
    quiet: bool,
    direct: Seq<Seq<char>>,
    proxy: Seq<Seq<char>>,
)
    ensures
        shown_line_texts(Seq::<ProbeResultView>::empty(), quiet, direct, proxy).len() == 0,
        shown_line_texts(results.push(one), quiet, direct, proxy) == if quiet && one.ok {
            shown_line_texts(results, quiet, direct, proxy)
        } else {
            shown_line_texts(results, quiet, direct, proxy).push(
                result_line_text(one, direct, proxy),
            )
        },
{
    reveal(Seq::filter);
    let keep = |r: ProbeResultView| !quiet || !r.ok;
    let show = |r: ProbeResultView| result_line_text(r, direct, proxy);
    assert(results.push(one).drop_last() =~= results);
    let kept = results.filter(keep);
    assert(kept.push(one).map_values(show) =~= kept.map_values(show).push(show(one)));
}

/// The line of a result: its mark, its target, its route, and its time or the
/// words of its failure.
pub proof fn law_line_of_a_result(
    cfg: FileConfig,
    result: ProbeResult,
    r: String,
    host: &str,
    route: &'static str,
)
    requires
        call_ensures(result_line, (&cfg, &result), r),
        host@ == result.target.host@,
        call_ensures(route_label_for_host, (&cfg, host), route),
    ensures
        ({
            let target = left_aligned(
                result.target.host@ + ":"@ + decimal(result.target.port as nat),
                40,
            );
            &&& result.ok ==> r@ == "  ["@ + "ok  "@ + "]  "@ + target + " "@ + left_aligned(
                route@,
                7,
            ) + " "@ + (decimal(result.latency_ms as nat) + "ms"@)
            &&& !result.ok && result.error is None ==> r@ == "  ["@ + "FAIL"@ + "]  "@ + target
                + " "@ + left_aligned(route@, 7) + " "@ + "unknown error"@
            &&& !result.ok ==> (result.error matches Some(e) ==> r@ == "  ["@ + "FAIL"@ + "]  "@
                + target + " "@ + left_aligned(route@, 7) + " "@ + e@)
        }),
{
}

} // verus!
