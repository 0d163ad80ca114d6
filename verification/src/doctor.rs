//! A health check for common setup problems: what each finding means, and how
//! the findings are shown and summed up.
use vstd::prelude::*;
use vstd::string::*;

use crate::config::{
    cfg_string, cfg_u16, effective_port, effective_text, law_port_settings_are_their_fields,
    law_text_settings_are_their_fields, proxy_domains, proxy_list, serve_pac,
    DEFAULT_PAC_BIND, DEFAULT_PAC_PORT, DEFAULT_ROUTING_PROXY_BIND, DEFAULT_ROUTING_PROXY_PORT,
    DEFAULT_SOCKS_PORT, DEFAULT_VPN_URL,
};
use crate::config_file::FileConfig;
use crate::cookie::CookieStatus;
use crate::domains::{lemma_same_letters, same_letter, same_letters};
use crate::search::{
    candidates_of, first_from, first_there, law_first_one_is_found, push_candidates,
};
use crate::text::{
    before, before_mark, begins_with, chars_of, concat2, decimal, decimal_of, fields, is_digit,
    is_space,
    join, join_path, joined, law_before_ends_at_the_first_mark, law_fields_before_a_part,
    law_joined_texts_are_split_again, law_lower_changes_capitals_only,
    left_align, left_aligned, lemma_decimal_digits, lemma_more_fields, lemma_one_field,
    lemma_port_round_trip, lower, lower_chars, matches_at, opt_str, opt_text, parse_port,
    parts_fields, path_below, pieces, port_number, same_chars, split_at_mark, split_fields, texts,
    trim_chars, trimmed,
};

verus! {

/// How a check went.
#[derive(Debug, Clone, Copy, PartialEq, Eq, Structural)]
pub enum Status {
    Good,
    Warn,
    Fail,
}

/// A finding.
#[derive(Debug)]
pub struct Line {
    pub label: &'static str,
    pub status: Status,
    pub detail: String,
}

/// A finding by its contents.
pub struct LineView {
    pub label: Seq<char>,
    pub status: Status,
    pub detail: Seq<char>,
}

impl View for Line {
    type V = LineView;

    open spec fn view(&self) -> LineView {
        LineView { label: self.label@, status: self.status, detail: self.detail@ }
    }
}

/// Findings by their contents.
pub open spec fn line_views(lines: Seq<Line>) -> Seq<LineView> {
    lines.map_values(|l: Line| l@)
}

/// A finding.
pub open spec fn line(label: Seq<char>, status: Status, detail: Seq<char>) -> LineView {
    LineView { label, status, detail }
}

/// Adds a finding.
pub fn push(lines: &mut Vec<Line>, label: &'static str, status: Status, detail: String)
    ensures
        line_views(final(lines)@) == line_views(old(lines)@).push(line(label@, status, detail@)),
{
    lines.push(Line { label, status, detail });
    assert(line_views(lines@) =~= line_views(old(lines)@).push(line(label@, status, detail@)));
}

// ── Configuration and credentials ────────────────────────────────────────

/// The findings on the configuration: the file, the VPN and the domains.
pub open spec fn config_lines(path: Seq<char>, is_file: bool, cfg: FileConfig) -> Seq<LineView> {
    let url = effective_text(cfg, "VPN_URL"@, DEFAULT_VPN_URL@);
    let proxy = proxy_list(cfg);
    seq![
        if is_file {
            line("config file"@, Status::Good, path)
        } else {
            line("config file"@, Status::Fail, "missing: "@ + path)
        },
        if url.len() == 0 {
            line("vpn_url"@, Status::Fail, "not set in config"@)
        } else {
            line("vpn_url"@, Status::Good, url)
        },
        if proxy.len() == 0 {
            line(
                "domains.proxy"@,
                Status::Fail,
                "empty — add VPN domain suffixes (e.g. vito.local)"@,
            )
        } else {
            line("domains.proxy"@, Status::Good, joined(proxy, ", "@))
        },
    ]
}

/// Checks the configuration; `is_file` tells whether `path` is one.
pub fn check_config(lines: &mut Vec<Line>, path: &str, is_file: bool, cfg: &FileConfig)
    ensures
        line_views(final(lines)@) == line_views(old(lines)@) + config_lines(path@, is_file, *cfg),
{
    if is_file {
        push(lines, "config file", Status::Good, path.to_owned());
    } else {
        push(lines, "config file", Status::Fail, concat2("missing: ", path));
    }
    let vpn_url = cfg_string(cfg, "VPN_URL", DEFAULT_VPN_URL);
    if vpn_url.as_str().unicode_len() == 0 {
        push(lines, "vpn_url", Status::Fail, "not set in config".to_owned());
    } else {
        push(lines, "vpn_url", Status::Good, vpn_url);
    }
    let proxy = proxy_domains(cfg);
    assert(proxy@.len() == texts(proxy@).len());
    if proxy.len() == 0 {
        push(
            lines,
            "domains.proxy",
            Status::Fail,
            "empty — add VPN domain suffixes (e.g. vito.local)".to_owned(),
        );
    } else {
        push(lines, "domains.proxy", Status::Good, join(&proxy, ", "));
    }
    assert(line_views(lines@) =~= line_views(old(lines)@) + config_lines(path@, is_file, *cfg));
}

/// The finding on credentials.
pub open spec fn credentials_line(found: bool) -> LineView {
    if found {
        line("credentials"@, Status::Good, "configured"@)
    } else {
        line("credentials"@, Status::Warn, "not found — run: jumphost authenticate"@)
    }
}

/// Checks the credentials; `found` tells whether a source has them.
pub fn check_credentials(lines: &mut Vec<Line>, found: bool)
    ensures
        line_views(final(lines)@) == line_views(old(lines)@).push(credentials_line(found)),
{
    if found {
        push(lines, "credentials", Status::Good, "configured".to_owned());
    } else {
        push(
            lines,
            "credentials",
            Status::Warn,
            "not found — run: jumphost authenticate".to_owned(),
        );
    }
}

/// The finding on the cookie: none, or the outcome of checking it.
pub open spec fn cookie_line(path: Seq<char>, status: Option<CookieStatus>) -> LineView {
    match status {
        None => line("cookie"@, Status::Warn, "missing: "@ + path),
        Some(CookieStatus::Valid) => line("cookie"@, Status::Good, path),
        Some(CookieStatus::Invalid) => line(
            "cookie"@,
            Status::Fail,
            "invalid or expired ("@ + path + ")"@,
        ),
        Some(CookieStatus::NetworkError) => line(
            "cookie"@,
            Status::Warn,
            "could not reach VPN endpoint to validate"@,
        ),
    }
}

/// Checks the cookie; without a file there is no `status`.
pub fn check_cookie(lines: &mut Vec<Line>, path: &str, status: Option<CookieStatus>)
    ensures
        line_views(final(lines)@) == line_views(old(lines)@).push(cookie_line(path@, status)),
{
    match status {
        None => push(lines, "cookie", Status::Warn, concat2("missing: ", path)),
        Some(CookieStatus::Valid) => push(lines, "cookie", Status::Good, path.to_owned()),
        Some(CookieStatus::Invalid) => {
            let mut detail = concat2("invalid or expired (", path);
            detail.append(")");
            push(lines, "cookie", Status::Fail, detail);
        },
        Some(CookieStatus::NetworkError) => push(
            lines,
            "cookie",
            Status::Warn,
            "could not reach VPN endpoint to validate".to_owned(),
        ),
    }
}

// ── Listeners ────────────────────────────────────────────────────────────

/// An address as text.
pub open spec fn address_text(host: Seq<char>, port: u16) -> Seq<char> {
    host + ":"@ + decimal(port as nat)
}

/// An address as text.
pub fn address(host: &str, port: u16) -> (r: String)
    ensures
        r@ == address_text(host@, port),
{
    let mut out = concat2(host, ":");
    out.append(decimal_of(port as u128).as_str());
    out
}

/// Where the program's listeners are to be found.
#[derive(Debug)]
pub struct Listeners {
    pub bind: String,
    pub routing_port: u16,
    pub socks_port: u16,
    pub pac_bind: String,
    pub pac_port: u16,
    /// The PAC server is configured to run.
    pub serve_pac: bool,
}

/// Listeners by their contents.
pub struct ListenersView {
    pub bind: Seq<char>,
    pub routing_port: u16,
    pub socks_port: u16,
    pub pac_bind: Seq<char>,
    pub pac_port: u16,
    pub serve_pac: bool,
}

impl View for Listeners {
    type V = ListenersView;

    open spec fn view(&self) -> ListenersView {
        ListenersView {
            bind: self.bind@,
            routing_port: self.routing_port,
            socks_port: self.socks_port,
            pac_bind: self.pac_bind@,
            pac_port: self.pac_port,
            serve_pac: self.serve_pac,
        }
    }
}

/// Where a configuration has the listeners. The VPN's SOCKS5 server is looked
/// for at the routing proxy's address.
pub open spec fn listeners_of(cfg: FileConfig) -> ListenersView {
    ListenersView {
        bind: effective_text(cfg, "ROUTING_PROXY_BIND"@, DEFAULT_ROUTING_PROXY_BIND@),
        routing_port: effective_port(cfg, "ROUTING_PROXY_PORT"@, DEFAULT_ROUTING_PROXY_PORT),
        socks_port: effective_port(cfg, "SOCKS_PORT"@, DEFAULT_SOCKS_PORT),
        pac_bind: effective_text(cfg, "PAC_SERVE_BIND"@, DEFAULT_PAC_BIND@),
        pac_port: effective_port(cfg, "PAC_SERVE_PORT"@, DEFAULT_PAC_PORT),
        serve_pac: cfg.serve_pac == Some(true),
    }
}

/// Where the configuration has the listeners.
pub fn listeners(cfg: &FileConfig) -> (r: Listeners)
    ensures
        r@ == listeners_of(*cfg),
{
    Listeners {
        bind: cfg_string(cfg, "ROUTING_PROXY_BIND", DEFAULT_ROUTING_PROXY_BIND),
        routing_port: cfg_u16(cfg, "ROUTING_PROXY_PORT", DEFAULT_ROUTING_PROXY_PORT),
        socks_port: cfg_u16(cfg, "SOCKS_PORT", DEFAULT_SOCKS_PORT),
        pac_bind: cfg_string(cfg, "PAC_SERVE_BIND", DEFAULT_PAC_BIND),
        pac_port: cfg_u16(cfg, "PAC_SERVE_PORT", DEFAULT_PAC_PORT),
        serve_pac: serve_pac(cfg),
    }
}

/// Which listeners answered.
#[derive(Debug, Clone, Copy, PartialEq, Eq, Structural)]
pub struct ListenersUp {
    pub routing: bool,
    pub socks: bool,
    pub pac: bool,
}

/// The findings on the listeners: without the routing proxy nothing works;
/// the VPN may still be starting; the PAC server counts only if it is
/// configured to run.
pub open spec fn listener_lines(l: ListenersView, up: ListenersUp) -> Seq<LineView> {
    let routing = address_text(l.bind, l.routing_port);
    let socks = address_text(l.bind, l.socks_port);
    let pac = address_text(l.pac_bind, l.pac_port);
    let always = seq![
        if up.routing {
            line("routing proxy"@, Status::Good, routing)
        } else {
            line(
                "routing proxy"@,
                Status::Fail,
                "not listening on "@ + routing + " — start jumphost"@,
            )
        },
        if up.socks {
            line("ocproxy (VPN)"@, Status::Good, socks)
        } else {
            line(
                "ocproxy (VPN)"@,
                Status::Warn,
                "not listening on "@ + socks + " — tunnel may still be starting"@,
            )
        },
    ];
    if !l.serve_pac {
        always
    } else if up.pac {
        always.push(line("PAC server"@, Status::Good, "http://"@ + pac))
    } else {
        always.push(
            line("PAC server"@, Status::Warn, "serve_pac = true but nothing on "@ + pac),
        )
    }
}

/// Checks the listeners by which of them answered.
pub fn check_listeners(lines: &mut Vec<Line>, l: &Listeners, up: ListenersUp)
    ensures
        line_views(final(lines)@) == line_views(old(lines)@) + listener_lines(l@, up),
{
    let routing = address(l.bind.as_str(), l.routing_port);
    if up.routing {
        push(lines, "routing proxy", Status::Good, routing);
    } else {
        let mut detail = concat2("not listening on ", routing.as_str());
        detail.append(" — start jumphost");
        push(lines, "routing proxy", Status::Fail, detail);
    }
    let socks = address(l.bind.as_str(), l.socks_port);
    if up.socks {
        push(lines, "ocproxy (VPN)", Status::Good, socks);
    } else {
        let mut detail = concat2("not listening on ", socks.as_str());
        detail.append(" — tunnel may still be starting");
        push(lines, "ocproxy (VPN)", Status::Warn, detail);
    }
    if l.serve_pac {
        let pac = address(l.pac_bind.as_str(), l.pac_port);
        if up.pac {
            push(lines, "PAC server", Status::Good, concat2("http://", pac.as_str()));
        } else {
            push(
                lines,
                "PAC server",
                Status::Warn,
                concat2("serve_pac = true but nothing on ", pac.as_str()),
            );
        }
    }
    assert(line_views(lines@) =~= line_views(old(lines)@) + listener_lines(l@, up));
}

// ── proxychains ──────────────────────────────────────────────────────────

/// A line of a proxychains configuration without its comment and the white
/// space round it.
pub open spec fn setting(l: Seq<char>) -> Seq<char> {
    trimmed(before(l, '#'))
}

/// The line has names resolved at the far end.
pub open spec fn is_proxy_dns(l: Seq<char>) -> bool {
    lower(setting(l)) == "proxy_dns"@
}

/// The line names a SOCKS5 server on this machine at the port: its second
/// field is the address, and its third is a number, the port.
pub open spec fn is_socks_upstream(l: Seq<char>, port: u16) -> bool {
    let parts = fields(setting(l));
    &&& begins_with(lower(setting(l)), "socks5"@)
    &&& parts.len() >= 3
    &&& parts[1] == "127.0.0.1"@
    &&& port_number(parts[2]) == Some(port)
}

/// Some line has names resolved at the far end.
pub open spec fn has_proxy_dns(contents: Seq<char>) -> bool {
    exists|i: int|
        0 <= i < pieces(contents, '\n').len() && #[trigger] is_proxy_dns(pieces(contents, '\n')[i])
}

/// Some line names a SOCKS5 server on this machine at the port.
pub open spec fn has_socks_upstream(contents: Seq<char>, port: u16) -> bool {
    exists|i: int|
        0 <= i < pieces(contents, '\n').len() && #[trigger] is_socks_upstream(
            pieces(contents, '\n')[i],
            port,
        )
}

/// Whether a proxychains configuration has names resolved at the far end.
pub fn config_has_proxy_dns(contents: &str) -> (r: bool)
    ensures
        r == has_proxy_dns(contents@),
{
    let all = split_at_mark(&chars_of(contents), '\n');
    let wanted = chars_of("proxy_dns");
    let ghost f = |p: Vec<char>| p@;
    let mut i: usize = 0;
    while i < all.len()
        invariant
            i <= all@.len(),
            f == (|p: Vec<char>| p@),
            all@.map_values(f) == pieces(contents@, '\n'),
            wanted@ == "proxy_dns"@,
            forall|j: int| 0 <= j < i ==> !is_proxy_dns(#[trigger] all@.map_values(f)[j]),
        decreases all@.len() - i,
    {
        assert(all@.map_values(f)[i as int] == all@[i as int]@);
        let found = same_chars(
            &lower_chars(&trim_chars(&before_mark(&all[i], '#'))),
            &wanted,
        );
        assert(found == is_proxy_dns(all@.map_values(f)[i as int]));
        if found {
            return true;
        }
        i = i + 1;
    }
    assert(all@.len() == pieces(contents@, '\n').len());
    false
}

/// Whether a proxychains configuration names a SOCKS5 server on this machine
/// at the port.
pub fn config_has_socks_upstream(contents: &str, port: u16) -> (r: bool)
    ensures
        r == has_socks_upstream(contents@, port),
{
    let all = split_at_mark(&chars_of(contents), '\n');
    let kind = chars_of("socks5");
    let host = chars_of("127.0.0.1");
    let ghost f = |p: Vec<char>| p@;
    let mut i: usize = 0;
    while i < all.len()
        invariant
            i <= all@.len(),
            f == (|p: Vec<char>| p@),
            all@.map_values(f) == pieces(contents@, '\n'),
            kind@ == "socks5"@,
            host@ == "127.0.0.1"@,
            forall|j: int|
                0 <= j < i ==> !is_socks_upstream(#[trigger] all@.map_values(f)[j], port),
        decreases all@.len() - i,
    {
        assert(all@.map_values(f)[i as int] == all@[i as int]@);
        let text = trim_chars(&before_mark(&all[i], '#'));
        let parts = split_fields(&text);
        assert(parts@.map_values(f).len() == parts@.len());
        let found = matches_at(&lower_chars(&text), &kind, 0) && parts.len() >= 3 && same_chars(
            &parts[1],
            &host,
        ) && parse_port(&parts[2]) == Some(port);
        assert(parts@.len() >= 3 ==> parts@.map_values(f)[1] == parts@[1]@ && parts@.map_values(
            f,
        )[2] == parts@[2]@);
        assert(found == is_socks_upstream(all@.map_values(f)[i as int], port));
        if found {
            return true;
        }
        i = i + 1;
    }
    assert(all@.len() == pieces(contents@, '\n').len());
    false
}

/// What is wrong with a proxychains configuration, if anything: it cannot be
/// read, resolves names here, or does not name the routing proxy.
pub open spec fn proxychains_problem(contents: Option<Seq<char>>, port: u16) -> Option<Seq<char>> {
    match contents {
        None => Some("unreadable"@),
        Some(c) => if !has_proxy_dns(c) {
            Some("missing proxy_dns"@)
        } else if !has_socks_upstream(c, port) {
            Some("missing socks5 127.0.0.1 routing proxy port"@)
        } else {
            None
        },
    }
}

/// Checks a proxychains configuration, as far as it could be read.
pub fn validate_proxychains_config(contents: Option<&str>, routing_port: u16) -> (r: Result<
    (),
    &'static str,
>)
    ensures
        match r {
            Ok(()) => proxychains_problem(opt_str(contents), routing_port) is None,
            Err(e) => proxychains_problem(opt_str(contents), routing_port) == Some(e@),
        },
{
    match contents {
        None => Err("unreadable"),
        Some(c) => {
            if !config_has_proxy_dns(c) {
                Err("missing proxy_dns")
            } else if !config_has_socks_upstream(c, routing_port) {
                Err("missing socks5 127.0.0.1 routing proxy port")
            } else {
                Ok(())
            }
        },
    }
}

/// Where proxychains may be: under each of its names in each directory, the
/// names first.
pub open spec fn proxychains_candidates_of(dirs: Seq<Seq<char>>) -> Seq<Seq<char>> {
    candidates_of(dirs, "proxychains4"@) + candidates_of(dirs, "proxychains"@) + candidates_of(
        dirs,
        "proxychains-ng"@,
    )
}

/// Where proxychains may be.
pub fn proxychains_candidates(dirs: &Vec<String>) -> (r: Vec<String>)
    ensures
        texts(r@) == proxychains_candidates_of(texts(dirs@)),
{
    let mut list: Vec<String> = Vec::new();
    push_candidates(&mut list, dirs, "proxychains4");
    push_candidates(&mut list, dirs, "proxychains");
    push_candidates(&mut list, dirs, "proxychains-ng");
    assert(texts(list@) =~= proxychains_candidates_of(texts(dirs@)));
    list
}

/// Where proxychains is; `there` tells of each candidate whether it is a
/// file.
pub fn find_proxychains_binary(dirs: &Vec<String>, there: &Vec<bool>) -> (r: Option<String>)
    requires
        there@.len() == 3 * dirs@.len(),
    ensures
        opt_text(r) == first_from(proxychains_candidates_of(texts(dirs@)), there@, 0),
{
    let candidates = proxychains_candidates(dirs);
    assert(candidates@.len() == texts(candidates@).len());
    assert(dirs@.len() == texts(dirs@).len());
    first_there(&candidates, there)
}

/// Where the configuration of proxychains may be: where the environment says,
/// then in the home directory, then in the system's place.
pub open spec fn proxychains_configs_of(
    named: Option<Seq<char>>,
    home: Option<Seq<char>>,
) -> Seq<Seq<char>> {
    let first = match named {
        Some(p) => seq![p],
        None => Seq::empty(),
    };
    let second = match home {
        Some(h) => seq![path_below(path_below(h, ".proxychains"@), "proxychains.conf"@)],
        None => Seq::empty(),
    };
    first + second + seq!["/etc/proxychains4.conf"@]
}

/// Where the configuration of proxychains may be.
pub fn find_proxychains_config(named: &Option<String>, home: &Option<String>) -> (r: Vec<String>)
    ensures
        texts(r@) == proxychains_configs_of(opt_text(*named), opt_text(*home)),
{
    let mut list: Vec<String> = Vec::new();
    if let Some(p) = named {
        list.push(p.clone());
    }
    if let Some(h) = home {
        list.push(
            join_path(join_path(h.as_str(), ".proxychains").as_str(), "proxychains.conf"),
        );
    }
    list.push("/etc/proxychains4.conf".to_owned());
    assert(texts(list@) =~= proxychains_configs_of(opt_text(*named), opt_text(*home)));
    list
}

/// A proxychains configuration that was found, as far as it could be read.
pub struct FoundConfig {
    pub path: String,
    pub contents: Option<String>,
}

/// The findings on proxychains, which is optional.
pub open spec fn proxychains_lines(
    binary: Option<Seq<char>>,
    config: Option<(Seq<char>, Option<Seq<char>>)>,
    port: u16,
) -> Seq<LineView> {
    match binary {
        None => seq![
            line(
                "proxychains"@,
                Status::Warn,
                "not on PATH (optional — needed for DBeaver/psql)"@,
            ),
        ],
        Some(bin) => seq![
            line("proxychains"@, Status::Good, bin),
            match config {
                None => line(
                    "proxychains config"@,
                    Status::Warn,
                    "not found — run: just proxychains-setup"@,
                ),
                Some((path, contents)) => match proxychains_problem(contents, port) {
                    None => line("proxychains config"@, Status::Good, path),
                    Some(problem) => line(
                        "proxychains config"@,
                        Status::Warn,
                        problem + " ("@ + path + ")"@,
                    ),
                },
            },
        ],
    }
}

/// A configuration that was found by its contents.
pub open spec fn found_view(c: Option<FoundConfig>) -> Option<(Seq<char>, Option<Seq<char>>)> {
    match c {
        Some(f) => Some((f.path@, opt_text(f.contents))),
        None => None,
    }
}

/// Checks proxychains and its configuration.
pub fn check_proxychains(
    lines: &mut Vec<Line>,
    binary: &Option<String>,
    config: &Option<FoundConfig>,
    routing_port: u16,
)
    ensures
        line_views(final(lines)@) == line_views(old(lines)@) + proxychains_lines(
            opt_text(*binary),
            found_view(*config),
            routing_port,
        ),
{
    match binary {
        None => push(
            lines,
            "proxychains",
            Status::Warn,
            "not on PATH (optional — needed for DBeaver/psql)".to_owned(),
        ),
        Some(bin) => {
            push(lines, "proxychains", Status::Good, bin.clone());
            match config {
                None => push(
                    lines,
                    "proxychains config",
                    Status::Warn,
                    "not found — run: just proxychains-setup".to_owned(),
                ),
                Some(found) => {
                    let contents = match &found.contents {
                        Some(c) => Some(c.as_str()),
                        None => None,
                    };
                    match validate_proxychains_config(contents, routing_port) {
                        Ok(()) => push(
                            lines,
                            "proxychains config",
                            Status::Good,
                            found.path.clone(),
                        ),
                        Err(problem) => {
                            let mut detail = concat2(problem, " (");
                            detail.append(found.path.as_str());
                            detail.append(")");
                            push(lines, "proxychains config", Status::Warn, detail);
                        },
                    }
                },
            }
        },
    }
    assert(line_views(lines@) =~= line_views(old(lines)@) + proxychains_lines(
        opt_text(*binary),
        found_view(*config),
        routing_port,
    ));
}

// ── The report ───────────────────────────────────────────────────────────

/// The mark of a status.
pub open spec fn tag_text(status: Status) -> Seq<char> {
    match status {
        Status::Good => "ok  "@,
        Status::Warn => "warn"@,
        Status::Fail => "FAIL"@,
    }
}

/// How a finding is shown.
pub open spec fn shown(l: LineView) -> Seq<char> {
    "  ["@ + tag_text(l.status) + "]  "@ + left_aligned(l.label, 22) + " "@ + l.detail
}

impl Line {
    /// How the finding is shown.
    pub fn to_text(&self) -> (r: String)
        ensures
            r@ == shown(self@),
    {
        let mut out = "  [".to_owned();
        out.append(
            match self.status {
                Status::Good => "ok  ",
                Status::Warn => "warn",
                Status::Fail => "FAIL",
            },
        );
        out.append("]  ");
        out.append(left_align(self.label, 22).as_str());
        out.append(" ");
        out.append(self.detail.as_str());
        out
    }
}

/// Some check failed.
pub open spec fn any_failed(lines: Seq<LineView>) -> bool {
    exists|i: int| 0 <= i < lines.len() && (#[trigger] lines[i]).status == Status::Fail
}

/// Whether some check failed: the health check then does, too. Warnings do
/// not count.
pub fn has_failed(lines: &Vec<Line>) -> (r: bool)
    ensures
        r == any_failed(line_views(lines@)),
{
    let mut i: usize = 0;
    while i < lines.len()
        invariant
            i <= lines@.len(),
            forall|j: int| 0 <= j < i ==> (#[trigger] line_views(lines@)[j]).status != Status::Fail,
        decreases lines@.len() - i,
    {
        assert(line_views(lines@)[i as int].status == lines@[i as int].status);
        if lines[i].status == Status::Fail {
            return true;
        }
        i = i + 1;
    }
    false
}

/// Everything that the health check found out from outside.
pub struct Findings {
    pub config_path: String,
    pub config_is_file: bool,
    pub credentials: bool,
    pub cookie_path: String,
    pub cookie: Option<CookieStatus>,
    pub up: ListenersUp,
    pub proxychains: Option<String>,
    pub proxychains_config: Option<FoundConfig>,
}

/// All findings, in the order in which they are shown.
pub open spec fn report_of(f: Findings, cfg: FileConfig) -> Seq<LineView> {
    config_lines(f.config_path@, f.config_is_file, cfg).push(credentials_line(f.credentials)).push(
        cookie_line(f.cookie_path@, f.cookie),
    ) + listener_lines(listeners_of(cfg), f.up) + proxychains_lines(
        opt_text(f.proxychains),
        found_view(f.proxychains_config),
        effective_port(cfg, "ROUTING_PROXY_PORT"@, DEFAULT_ROUTING_PROXY_PORT),
    )
}

/// Runs every check on what was found out.
pub fn run(f: &Findings, cfg: &FileConfig) -> (r: Vec<Line>)
    ensures
        line_views(r@) == report_of(*f, *cfg),
{
    let mut lines: Vec<Line> = Vec::new();
    check_config(&mut lines, f.config_path.as_str(), f.config_is_file, cfg);
    check_credentials(&mut lines, f.credentials);
    check_cookie(&mut lines, f.cookie_path.as_str(), f.cookie);
    check_listeners(&mut lines, &listeners(cfg), f.up);
    check_proxychains(
        &mut lines,
        &f.proxychains,
        &f.proxychains_config,
        cfg_u16(cfg, "ROUTING_PROXY_PORT", DEFAULT_ROUTING_PROXY_PORT),
    );
    assert(line_views(lines@) =~= report_of(*f, *cfg));
    lines
}

// ── Laws ─────────────────────────────────────────────────────────────────

/// The health check fails exactly for a missing configuration file, no VPN,
/// no proxy domains, a cookie that the VPN rejects, or a routing proxy that
/// does not listen; everything else is a warning at most.
pub proof fn law_critical_checks(f: Findings, cfg: FileConfig)
    ensures
        any_failed(report_of(f, cfg)) <==> (!f.config_is_file || effective_text(
            cfg,
            "VPN_URL"@,
            DEFAULT_VPN_URL@,
        ).len() == 0 || proxy_list(cfg).len() == 0 || f.cookie == Some(CookieStatus::Invalid)
            || !f.up.routing),
{
    let all = report_of(f, cfg);
    let c = config_lines(f.config_path@, f.config_is_file, cfg);
    let l = listener_lines(listeners_of(cfg), f.up);
    assert(all[0] == c[0]);
    assert(all[1] == c[1]);
    assert(all[2] == c[2]);
    assert(all[3] == credentials_line(f.credentials));
    assert(all[4] == cookie_line(f.cookie_path@, f.cookie));
    assert(all[5] == l[0]);
    assert(all[6] == l[1]);
    let critical = !f.config_is_file || effective_text(
        cfg,
        "VPN_URL"@,
        DEFAULT_VPN_URL@,
    ).len() == 0 || proxy_list(cfg).len() == 0 || f.cookie == Some(CookieStatus::Invalid)
        || !f.up.routing;
    if critical {
        assert(all[0].status == Status::Fail || all[1].status == Status::Fail || all[2].status
            == Status::Fail || all[4].status == Status::Fail || all[5].status == Status::Fail);
    }
    if any_failed(all) {
        let i = choose|i: int| 0 <= i < all.len() && (#[trigger] all[i]).status == Status::Fail;
        let p = proxychains_lines(
            opt_text(f.proxychains),
            found_view(f.proxychains_config),
            effective_port(cfg, "ROUTING_PROXY_PORT"@, DEFAULT_ROUTING_PROXY_PORT),
        );
        if i >= 5 && i < 5 + l.len() {
            assert(all[i] == l[i - 5]);
        } else if i >= 5 + l.len() {
            assert(all[i] == p[i - 5 - l.len()]);
            assert(p[0].status != Status::Fail);
            assert(p.len() == 1 || p[1].status != Status::Fail);
        }
    }
}

/// A line that names a port of this machine counts for that port and for no
/// other, however their digits resemble each other.
pub proof fn law_upstream_port_is_exact(named: u16, port: u16)
    ensures
        is_socks_upstream("socks5 127.0.0.1 "@ + decimal(named as nat), port) <==> named == port,
{
    reveal_strlit("socks5 127.0.0.1 ");
    reveal_strlit("socks5");
    reveal_strlit("127.0.0.1");
    let digits = decimal(named as nat);
    let l = "socks5 127.0.0.1 "@ + digits;
    lemma_decimal_digits(named as nat);
    lemma_port_round_trip(named);
    assert forall|i: int| 0 <= i < digits.len() implies !parts_fields(#[trigger] digits[i])
        && digits[i] != '#' by {
        assert(is_digit(digits[i]));
    }
    lemma_before_none(l, '#');
    assert(l.first() == 's');
    assert(l.last() == digits[digits.len() - 1]);
    assert(setting(l) == l);
    lemma_one_field("socks5"@);
    lemma_more_fields("socks5"@, ' ', "127.0.0.1"@);
    lemma_more_fields("socks5"@ + seq![' '] + "127.0.0.1"@, ' ', digits);
    assert(l =~= "socks5"@ + seq![' '] + "127.0.0.1"@ + seq![' '] + digits);
    assert(fields(l) =~= seq!["socks5"@, "127.0.0.1"@, digits]);
    assert(lower(l).subrange(0, 6) =~= "socks5"@);
}

proof fn lemma_before_none(s: Seq<char>, mark: char)
    requires
        forall|i: int| 0 <= i < s.len() ==> s[i] != mark,
    ensures
        before(s, mark) == s,
    decreases s.len(),
{
    if s.len() > 0 {
        lemma_before_none(s.drop_first(), mark);
        assert(seq![s.first()] + s.drop_first() =~= s);
    } else {
        assert(s =~= Seq::empty());
    }
}

/// The report, line by line: what each line is about, how its check went, and
/// what it says, over what was found out and the configuration itself.
pub proof fn law_report_line_by_line(f: Findings, cfg: FileConfig, r: Vec<Line>)
    requires
        call_ensures(run, (&f, &cfg), r),
    ensures
        r@.len() >= 8,
        r@[0].label@ == "config file"@,
        f.config_is_file ==> r@[0].status == Status::Good && r@[0].detail@ == f.config_path@,
        !f.config_is_file ==> r@[0].status == Status::Fail && r@[0].detail@ == "missing: "@
            + f.config_path@,
        r@[1].label@ == "vpn_url"@,
        r@[1].status == Status::Good <==> (cfg.vpn_url matches Some(u) && u@.len() > 0),
        r@[1].status == Status::Good ==> (cfg.vpn_url matches Some(u) && r@[1].detail@ == u@),
        r@[1].status == Status::Good || r@[1].status == Status::Fail,
        r@[1].status == Status::Fail ==> r@[1].detail@ == "not set in config"@,
        r@[2].status == Status::Fail ==> r@[2].detail@
            == "empty — add VPN domain suffixes (e.g. vito.local)"@,
        r@[2].label@ == "domains.proxy"@,
        r@[2].status == Status::Good <==> (cfg.domains matches Some(d) && d.proxy matches Some(list)
            && list@.len() > 0),
        r@[2].status == Status::Good ==> (cfg.domains matches Some(d) && d.proxy matches Some(list)
            && r@[2].detail@ == joined(texts(list@), ", "@)),
        r@[2].status == Status::Good || r@[2].status == Status::Fail,
        r@[3].label@ == "credentials"@,
        r@[3].status == if f.credentials {
            Status::Good
        } else {
            Status::Warn
        },
        r@[4].label@ == "cookie"@,
        r@[4].status == (match f.cookie {
            Some(CookieStatus::Valid) => Status::Good,
            Some(CookieStatus::Invalid) => Status::Fail,
            _ => Status::Warn,
        }),
        r@[4].detail@ == (match f.cookie {
            None => "missing: "@ + f.cookie_path@,
            Some(CookieStatus::Valid) => f.cookie_path@,
            Some(CookieStatus::Invalid) => "invalid or expired ("@ + f.cookie_path@ + ")"@,
            Some(CookieStatus::NetworkError) => "could not reach VPN endpoint to validate"@,
        }),
        r@[3].detail@ == (if f.credentials {
            "configured"@
        } else {
            "not found — run: jumphost authenticate"@
        }),
        r@[5].label@ == "routing proxy"@,
        r@[5].status == if f.up.routing {
            Status::Good
        } else {
            Status::Fail
        },
        ({
            let host = match cfg.routing_proxy {
                Some(t) => match t.bind {
                    Some(b) => b@,
                    None => "127.0.0.1"@,
                },
                None => "127.0.0.1"@,
            };
            let port = match cfg.routing_proxy {
                Some(t) => match t.port {
                    Some(p) => p,
                    None => 1081u16,
                },
                None => 1081u16,
            };
            let socks = match cfg.socks_port {
                Some(p) => p,
                None => 1080u16,
            };
            let routing = host + ":"@ + decimal(port as nat);
            let upstream = host + ":"@ + decimal(socks as nat);
            &&& f.up.routing ==> r@[5].detail@ == routing
            &&& !f.up.routing ==> r@[5].detail@ == "not listening on "@ + routing
                + " — start jumphost"@
            &&& f.up.socks ==> r@[6].detail@ == upstream
            &&& !f.up.socks ==> r@[6].detail@ == "not listening on "@ + upstream
                + " — tunnel may still be starting"@
        }),
        r@[6].label@ == "ocproxy (VPN)"@,
        r@[6].status == if f.up.socks {
            Status::Good
        } else {
            Status::Warn
        },
{
    law_text_settings_are_their_fields(cfg, DEFAULT_VPN_URL@);
    law_text_settings_are_their_fields(cfg, "127.0.0.1"@);
    law_port_settings_are_their_fields(cfg, 1080);
    law_port_settings_are_their_fields(cfg, 1081);
    reveal_strlit("");
    assert(DEFAULT_VPN_URL@.len() == 0);
    let v = line_views(r@);
    assert(v.len() == r@.len());
    let c = config_lines(f.config_path@, f.config_is_file, cfg);
    let l = listener_lines(listeners_of(cfg), f.up);
    assert(v[0] == c[0] && v[1] == c[1] && v[2] == c[2]);
    assert(v[3] == credentials_line(f.credentials));
    assert(v[4] == cookie_line(f.cookie_path@, f.cookie));
    assert(v[5] == l[0] && v[6] == l[1]);
    assert(v[0] == r@[0]@ && v[1] == r@[1]@ && v[2] == r@[2]@ && v[3] == r@[3]@ && v[4] == r@[4]@
        && v[5] == r@[5]@ && v[6] == r@[6]@);
}

/// The lines on the PAC server and on proxychains: the PAC server has one
/// exactly if it is configured to run; proxychains has one, and a second for
/// its configuration where it is there. None of them is a failure.
pub proof fn law_optional_lines(f: Findings, cfg: FileConfig, r: Vec<Line>)
    requires
        call_ensures(run, (&f, &cfg), r),
    ensures
        ({
            let pac = cfg.serve_pac == Some(true);
            let at: int = if pac {
                8
            } else {
                7
            };
            &&& r@.len() == at + if f.proxychains is Some {
                2int
            } else {
                1int
            }
            &&& pac ==> r@[7].label@ == "PAC server"@ && r@[7].status == if f.up.pac {
                Status::Good
            } else {
                Status::Warn
            }
            &&& pac ==> {
                let host = match cfg.pac_server {
                    Some(t) => match t.bind {
                        Some(b) => b@,
                        None => "127.0.0.1"@,
                    },
                    None => "127.0.0.1"@,
                };
                let port = match cfg.pac_server {
                    Some(t) => match t.port {
                        Some(p) => p,
                        None => 8091u16,
                    },
                    None => 8091u16,
                };
                let address = host + ":"@ + decimal(port as nat);
                r@[7].detail@ == if f.up.pac {
                    "http://"@ + address
                } else {
                    "serve_pac = true but nothing on "@ + address
                }
            }
            &&& f.proxychains is None ==> r@[at].detail@
                == "not on PATH (optional — needed for DBeaver/psql)"@
            &&& r@[at].label@ == "proxychains"@
            &&& r@[at].status == if f.proxychains is Some {
                Status::Good
            } else {
                Status::Warn
            }
            &&& f.proxychains matches Some(bin) ==> {
                &&& r@[at].detail@ == bin@
                &&& r@[at + 1].label@ == "proxychains config"@
                &&& r@[at + 1].status == Status::Good || r@[at + 1].status == Status::Warn
                &&& f.proxychains_config is None ==> r@[at + 1].status == Status::Warn
                    && r@[at + 1].detail@ == "not found — run: just proxychains-setup"@
                &&& f.proxychains_config matches Some(found) ==> {
                    &&& found.contents is None ==> r@[at + 1].status == Status::Warn
                        && r@[at + 1].detail@ == "unreadable"@ + " ("@ + found.path@ + ")"@
                    &&& found.contents matches Some(text) ==> (!has_proxy_dns(text@)
                        ==> r@[at + 1].detail@ == "missing proxy_dns"@ + " ("@ + found.path@
                        + ")"@)
                    &&& r@[at + 1].status == Status::Good ==> r@[at + 1].detail@ == found.path@
                    &&& found.contents matches Some(text) ==> (r@[at + 1].status == Status::Good
                        <==> has_proxy_dns(text@) && has_socks_upstream(
                        text@,
                        match cfg.routing_proxy {
                            Some(t) => match t.port {
                                Some(p) => p,
                                None => 1081u16,
                            },
                            None => 1081u16,
                        },
                    ))
                }
            }
        }),
{
    law_port_settings_are_their_fields(cfg, 1081);
    law_port_settings_are_their_fields(cfg, 8091);
    law_text_settings_are_their_fields(cfg, "127.0.0.1"@);
    let v = line_views(r@);
    assert(v.len() == r@.len());
    let l = listener_lines(listeners_of(cfg), f.up);
    let p = proxychains_lines(
        opt_text(f.proxychains),
        found_view(f.proxychains_config),
        effective_port(cfg, "ROUTING_PROXY_PORT"@, DEFAULT_ROUTING_PROXY_PORT),
    );
    let at: int = 5 + l.len() as int;
    assert(v[at] == p[0]);
    assert(v[at] == r@[at]@);
    if cfg.serve_pac == Some(true) {
        assert(v[7] == l[2]);
        assert(v[7] == r@[7]@);
    }
    if f.proxychains is Some {
        assert(v[at + 1] == p[1]);
        assert(v[at + 1] == r@[at + 1]@);
    }
}

/// The health check fails exactly if some line is a failure, and a line shows
/// its mark, its label and its detail.
pub proof fn law_failures_and_how_they_are_shown(lines: Vec<Line>, r: bool, l: Line, text: String)
    requires
        call_ensures(has_failed, (&lines,), r),
        call_ensures(Line::to_text, (&l,), text),
    ensures
        r <==> exists|i: int| 0 <= i < lines@.len() && (#[trigger] lines@[i]).status == Status::Fail,
        ({
            let tag = match l.status {
                Status::Good => "ok  "@,
                Status::Warn => "warn"@,
                Status::Fail => "FAIL"@,
            };
            text@ == "  ["@ + tag + "]  "@ + left_aligned(l.label@, 22) + " "@ + l.detail@
        }),
{
    let v = line_views(lines@);
    assert(v.len() == lines@.len());
    if r {
        let i = choose|i: int| 0 <= i < v.len() && (#[trigger] v[i]).status == Status::Fail;
        assert(lines@[i].status == Status::Fail);
    }
    if exists|i: int| 0 <= i < lines@.len() && (#[trigger] lines@[i]).status == Status::Fail {
        let i = choose|i: int| 0 <= i < lines@.len() && (#[trigger] lines@[i]).status == Status::Fail;
        assert(v[i].status == Status::Fail);
    }
}

/// Where the listeners are looked for is where the configuration has them.
pub proof fn law_listeners_are_where_configured(cfg: FileConfig, r: Listeners)
    requires
        call_ensures(listeners, (&cfg,), r),
    ensures
        r.socks_port == (match cfg.socks_port {
            Some(p) => p,
            None => 1080u16,
        }),
        cfg.routing_proxy is None ==> r.bind@ == "127.0.0.1"@ && r.routing_port == 1081,
        cfg.routing_proxy matches Some(t) ==> {
            &&& t.bind matches Some(b) ==> r.bind@ == b@
            &&& t.bind is None ==> r.bind@ == "127.0.0.1"@
            &&& t.port matches Some(p) ==> r.routing_port == p
            &&& t.port is None ==> r.routing_port == 1081
        },
        cfg.pac_server is None ==> r.pac_bind@ == "127.0.0.1"@ && r.pac_port == 8091,
        cfg.pac_server matches Some(t) ==> {
            &&& t.bind matches Some(b) ==> r.pac_bind@ == b@
            &&& t.bind is None ==> r.pac_bind@ == "127.0.0.1"@
            &&& t.port matches Some(p) ==> r.pac_port == p
            &&& t.port is None ==> r.pac_port == 8091
        },
        r.serve_pac <==> cfg.serve_pac == Some(true),
{
    law_text_settings_are_their_fields(cfg, "127.0.0.1"@);
    law_port_settings_are_their_fields(cfg, 1080);
    law_port_settings_are_their_fields(cfg, 1081);
    law_port_settings_are_their_fields(cfg, 8091);
    let v = r@;
    assert(v == listeners_of(cfg));
}

/// A proxychains configuration is read line by line: it has what some line of
/// it has, wherever that line stands, and nothing else.
pub proof fn law_settings_are_found_on_any_line(
    contents: &str,
    lines: Seq<Seq<char>>,
    port: u16,
    dns: bool,
    upstream: bool,
)
    requires
        call_ensures(config_has_proxy_dns, (contents,), dns),
        call_ensures(config_has_socks_upstream, (contents, port), upstream),
        lines.len() > 0,
        contents@ == joined(lines, seq!['\n']),
        forall|i: int, j: int|
            0 <= i < lines.len() && 0 <= j < lines[i].len() ==> #[trigger] lines[i][j] != '\n',
    ensures
        dns <==> exists|i: int| 0 <= i < lines.len() && #[trigger] is_proxy_dns(lines[i]),
        upstream <==> exists|i: int|
            0 <= i < lines.len() && #[trigger] is_socks_upstream(lines[i], port),
{
    law_joined_texts_are_split_again(lines, '\n');
}

/// What stands behind a hash sign plays no part; without one, a line turns on
/// remote names exactly if it is `proxy_dns` but for the case of its letters
/// and the white space round it.
pub proof fn law_comments_play_no_part(text: Seq<char>, comment: Seq<char>, port: u16)
    requires
        forall|i: int| 0 <= i < text.len() ==> text[i] != '#',
    ensures
        is_proxy_dns(text + seq!['#'] + comment) == is_proxy_dns(text),
        is_socks_upstream(text + seq!['#'] + comment, port) == is_socks_upstream(text, port),
        is_proxy_dns(text) <==> same_letters(trimmed(text), "proxy_dns"@),
{
    let l = text + seq!['#'] + comment;
    law_before_ends_at_the_first_mark(l, '#');
    let k = before(l, '#').len() as int;
    assert(l[text.len() as int] == '#');
    if k > text.len() {
        assert(l[text.len() as int] != '#');
    }
    if k < text.len() {
        assert(l[k] == text[k]);
    }
    assert(l.take(k) =~= text);
    lemma_before_none(text, '#');
    reveal_strlit("proxy_dns");
    let w = "proxy_dns"@;
    assert(lower(w) =~= w);
    lemma_same_letters(trimmed(text), w);
}

/// A line that names a SOCKS5 server counts exactly if the server is this
/// machine and the port is the one that is asked for.
pub proof fn law_upstream_is_this_machine(address: Seq<char>, named: u16, port: u16)
    requires
        address.len() > 0,
        forall|i: int|
            0 <= i < address.len() ==> !parts_fields(#[trigger] address[i]) && address[i] != '#',
    ensures
        is_socks_upstream("socks5 "@ + address + " "@ + decimal(named as nat), port) <==> address
            == "127.0.0.1"@ && named == port,
{
    reveal_strlit("socks5 ");
    reveal_strlit("socks5");
    reveal_strlit(" ");
    let digits = decimal(named as nat);
    let l = "socks5 "@ + address + " "@ + digits;
    lemma_decimal_digits(named as nat);
    lemma_port_round_trip(named);
    assert forall|i: int| 0 <= i < digits.len() implies !parts_fields(#[trigger] digits[i])
        && digits[i] != '#' by {
        assert(is_digit(digits[i]));
    }
    assert(l =~= "socks5"@ + seq![' '] + address + seq![' '] + digits);
    assert forall|i: int| 0 <= i < l.len() implies l[i] != '#' by {
        if 7 <= i < 7 + address.len() {
            assert(l[i] == address[i - 7]);
        } else if i >= 8 + address.len() {
            assert(l[i] == digits[i - 8 - address.len()]);
        }
    }
    lemma_before_none(l, '#');
    assert(l.first() == 's');
    assert(l.last() == digits[digits.len() - 1]);
    assert(setting(l) == l);
    lemma_one_field("socks5"@);
    lemma_more_fields("socks5"@, ' ', address);
    lemma_more_fields("socks5"@ + seq![' '] + address, ' ', digits);
    assert(fields(l) =~= seq!["socks5"@, address, digits]);
    assert(lower(l).subrange(0, 6) =~= "socks5"@);
}

/// What is wrong with a proxychains configuration: it cannot be read, or has
/// names resolved here, or does not name the routing proxy, in this order.
pub proof fn law_problems_of_proxychains(contents: Option<&str>, port: u16, r: Result<(), &'static str>)
    requires
        call_ensures(validate_proxychains_config, (contents, port), r),
    ensures
        r is Ok <==> (contents matches Some(c) && has_proxy_dns(c@) && has_socks_upstream(c@, port)),
        contents is None ==> (r matches Err(e) && e@ == "unreadable"@),
        contents matches Some(c) ==> (!has_proxy_dns(c@) ==> (r matches Err(e) && e@
            == "missing proxy_dns"@)),
        contents matches Some(c) ==> (has_proxy_dns(c@) && !has_socks_upstream(c@, port) ==> (
        r matches Err(e) && e@ == "missing socks5 127.0.0.1 routing proxy port"@)),
{
}

/// proxychains is looked for under its first name everywhere, then under its
/// second, then under its third; it is missed only where it is nowhere.
pub proof fn law_search_for_proxychains(dirs: Vec<String>, there: Vec<bool>, r: Option<String>)
    requires
        there@.len() == 3 * dirs@.len(),
        call_ensures(find_proxychains_binary, (&dirs, &there), r),
    ensures
        r is None <==> forall|i: int| 0 <= i < there@.len() ==> !#[trigger] there@[i],
        r matches Some(path) ==> exists|i: int|
            {
                let n = dirs@.len() as int;
                &&& 0 <= i < 3 * n
                &&& #[trigger] there@[i]
                &&& forall|j: int| 0 <= j < i ==> !#[trigger] there@[j]
                &&& i < n ==> path@ == path_below(dirs@[i]@, "proxychains4"@)
                &&& n <= i < 2 * n ==> path@ == path_below(dirs@[i - n]@, "proxychains"@)
                &&& 2 * n <= i ==> path@ == path_below(dirs@[i - 2 * n]@, "proxychains-ng"@)
            },
{
    let d = texts(dirs@);
    let n = d.len() as int;
    let c = proxychains_candidates_of(d);
    assert(c.len() == 3 * n);
    law_first_one_is_found(c, there@);
    if let Some(path) = r {
        let i = choose|i: int|
            0 <= i < c.len() && #[trigger] there@[i] && c[i] == path@ && forall|j: int|
                0 <= j < i ==> !there@[j];
        if i < n {
            assert(c[i] == candidates_of(d, "proxychains4"@)[i]);
            assert(d[i] == dirs@[i]@);
        } else if i < 2 * n {
            assert(c[i] == candidates_of(d, "proxychains"@)[i - n]);
            assert(d[i - n] == dirs@[i - n]@);
        } else {
            assert(c[i] == candidates_of(d, "proxychains-ng"@)[i - 2 * n]);
            assert(d[i - 2 * n] == dirs@[i - 2 * n]@);
        }
        assert(there@[i]);
    }
}

/// Its configuration is looked for where the environment says, then below the
/// home directory, then in the system's place, which is always tried.
pub proof fn law_search_for_its_configuration(
    named: Option<String>,
    home: Option<String>,
    r: Vec<String>,
)
    requires
        call_ensures(find_proxychains_config, (&named, &home), r),
    ensures
        r@.len() >= 1,
        r@.last()@ == "/etc/proxychains4.conf"@,
        named matches Some(p) ==> r@.len() >= 2 && r@[0]@ == p@,
        home matches Some(h) ==> r@.len() >= 2 && r@[r@.len() - 2]@ == path_below(
            path_below(h@, ".proxychains"@),
            "proxychains.conf"@,
        ),
        named is Some && home is Some ==> r@.len() == 3,
        named is None && home is None ==> r@.len() == 1,
        named is Some != home is Some ==> r@.len() == 2,
{
    let t = texts(r@);
    assert(t.len() == r@.len());
    assert forall|i: int| 0 <= i < t.len() implies #[trigger] r@[i]@ == t[i] by {
    }
}

/// The general form of a line with a SOCKS5 server: `socks5` in whatever case,
/// the address and the port, with blanks, tabs or a colon between them, and
/// whatever else behind, such as a name and a password. It counts exactly if
/// the address is this machine's and the port is read as the one asked for.
pub proof fn law_upstream_lines(
    kind: Seq<char>,
    p1: char,
    address: Seq<char>,
    p2: char,
    digits: Seq<char>,
    p3: char,
    rest: Seq<char>,
    port: u16,
)
    requires
        same_letters(kind, "socks5"@),
        p1 == ' ' || p1 == '\t' || p1 == ':',
        p2 == ' ' || p2 == '\t' || p2 == ':',
        p3 == ' ' || p3 == '\t' || p3 == ':',
        address.len() > 0,
        digits.len() > 0,
        forall|i: int|
            0 <= i < address.len() ==> !parts_fields(#[trigger] address[i]) && address[i] != '#',
        forall|i: int|
            0 <= i < digits.len() ==> !parts_fields(#[trigger] digits[i]) && digits[i] != '#',
        rest.len() > 0,
        !is_space(rest.last()),
        forall|i: int| 0 <= i < rest.len() ==> #[trigger] rest[i] != '#',
    ensures
        ({
            let l = kind + seq![p1] + address + seq![p2] + digits;
            let more = l + seq![p3] + rest;
            let counts = address == "127.0.0.1"@ && port_number(digits) == Some(port);
            &&& is_socks_upstream(l, port) <==> counts
            &&& is_socks_upstream(more, port) <==> counts
        }),
{
    reveal_strlit("socks5");
    let k = "socks5"@;
    assert forall|i: int| 0 <= i < 6 implies !parts_fields(#[trigger] kind[i]) && kind[i] != '#' by {
        assert(same_letter(kind[i], k[i]));
    }
    assert(same_letter(kind[0], k[0]));
    let l = kind + seq![p1] + address + seq![p2] + digits;
    let more = l + seq![p3] + rest;
    lemma_one_field(kind);
    lemma_more_fields(kind, p1, address);
    lemma_more_fields(kind + seq![p1] + address, p2, digits);
    assert(fields(l) =~= seq![kind, address, digits]);
    law_fields_before_a_part(l, p3, rest);
    let f = fields(more);
    assert(f.take(3) == fields(l));
    assert(f[1] == f.take(3)[1] && f[2] == f.take(3)[2]);
    assert forall|i: int| 0 <= i < l.len() implies l[i] != '#' by {
        if i < 6 {
            assert(l[i] == kind[i]);
        } else if 7 <= i < 7 + address.len() {
            assert(l[i] == address[i - 7]);
        } else if i >= 8 + address.len() {
            assert(l[i] == digits[i - 8 - address.len()]);
        }
    }
    assert forall|i: int| 0 <= i < more.len() implies more[i] != '#' by {
        if i < l.len() {
            assert(more[i] == l[i]);
        } else if i > l.len() {
            assert(more[i] == rest[i - l.len() - 1]);
        }
    }
    lemma_before_none(l, '#');
    lemma_before_none(more, '#');
    assert(l.first() == kind[0]);
    assert(more.first() == kind[0]);
    assert(l.last() == digits[digits.len() - 1]);
    assert(more.last() == rest.last());
    assert(setting(l) == l);
    assert(setting(more) == more);
    lemma_same_letters(kind, k);
    law_lower_changes_capitals_only(k);
    assert(lower(k) =~= k);
    assert(lower(l).subrange(0, 6) =~= lower(kind));
    assert(lower(more).subrange(0, 6) =~= lower(kind));
}

} // verus!
