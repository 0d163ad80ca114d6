//! The settings that a configuration file can hold, and where the file is.
use vstd::prelude::*;

use crate::text::{join_path, opt_text, path_below};

verus! {

/// The whole configuration file. Every setting is optional; an empty file is
/// valid.
pub struct FileConfig {
    /// F5 VPN endpoint URL.
    pub vpn_url: Option<String>,
    /// OpenConnect protocol.
    pub vpn_protocol: Option<String>,
    /// ocproxy SOCKS5 listen port.
    pub socks_port: Option<u16>,
    /// ocproxy keepalive seconds.
    pub ocproxy_keepalive: Option<u32>,
    /// Supervisor check interval in nanoseconds.
    pub check_interval: Option<u128>,
    /// Never use headless mode.
    pub no_headless: Option<bool>,
    /// Start the PAC HTTP server.
    pub serve_pac: Option<bool>,
    /// Chromium executable path.
    pub chromium_path: Option<String>,
    /// Debug-level logging.
    pub verbose: Option<bool>,
    /// Routing proxy settings.
    pub routing_proxy: Option<RoutingProxyConfig>,
    /// PAC HTTP server settings.
    pub pac_server: Option<PacServerConfig>,
    /// Domain routing lists.
    pub domains: Option<DomainsConfig>,
    /// VPN credentials.
    pub credentials: Option<CredentialsConfig>,
    /// Tunnel probe settings.
    pub probe: Option<ProbeConfig>,
}

/// The `[routing_proxy]` table.
pub struct RoutingProxyConfig {
    /// Bind address.
    pub bind: Option<String>,
    /// Listen port.
    pub port: Option<u16>,
}

/// The `[pac_server]` table.
pub struct PacServerConfig {
    /// Bind address.
    pub bind: Option<String>,
    /// Listen port.
    pub port: Option<u16>,
}

/// The `[domains]` table.
pub struct DomainsConfig {
    /// Domains routed through the VPN.
    pub proxy: Option<Vec<String>>,
    /// Domains always reached directly.
    pub direct: Option<Vec<String>>,
}

/// The `[probe]` table.
pub struct ProbeConfig {
    /// Probe targets as `host` or `host:port`.
    pub hosts: Option<Vec<String>>,
    /// Connect timeout of one probe, in seconds.
    pub timeout_secs: Option<u64>,
    /// Additional retries per failed probe.
    pub retries: Option<u32>,
}

/// The `[credentials]` table.
pub struct CredentialsConfig {
    /// VPN username.
    pub username: Option<String>,
    /// VPN password.
    pub password: Option<String>,
    /// Path to a file that holds the username.
    pub username_file: Option<String>,
    /// Path to a file that holds the password.
    pub password_file: Option<String>,
}

/// The configuration of an empty file.
pub open spec fn empty_config() -> FileConfig {
    FileConfig {
        vpn_url: None,
        vpn_protocol: None,
        socks_port: None,
        ocproxy_keepalive: None,
        check_interval: None,
        no_headless: None,
        serve_pac: None,
        chromium_path: None,
        verbose: None,
        routing_proxy: None,
        pac_server: None,
        domains: None,
        credentials: None,
        probe: None,
    }
}

impl Default for FileConfig {
    /// Nothing is set.
    fn default() -> (r: FileConfig)
        ensures
            r == empty_config(),
    {
        FileConfig {
            vpn_url: None,
            vpn_protocol: None,
            socks_port: None,
            ocproxy_keepalive: None,
            check_interval: None,
            no_headless: None,
            serve_pac: None,
            chromium_path: None,
            verbose: None,
            routing_proxy: None,
            pac_server: None,
            domains: None,
            credentials: None,
            probe: None,
        }
    }
}

/// Fixes the path of the configuration file. The first path stays: later
/// calls change nothing.
pub fn set_path(chosen: &mut Option<String>, path: String)
    ensures
        *final(chosen) == (match *old(chosen) {
            Some(p) => Some(p),
            None => Some(path),
        }),
{
    if chosen.is_none() {
        *chosen = Some(path);
    }
}

/// The path of the configuration file: the explicit one if there is one, else
/// below `XDG_CONFIG_HOME` if that is set and not empty, else below
/// `.config` in the home directory, or in the current one where no home
/// directory is known.
pub open spec fn config_path_of(
    chosen: Option<Seq<char>>,
    xdg_config_home: Option<Seq<char>>,
    home: Option<Seq<char>>,
) -> Seq<char> {
    let below = |dir: Seq<char>|
        path_below(path_below(dir, "vpn-jumphost"@), "config.toml"@);
    match (chosen, xdg_config_home, home) {
        (Some(p), _, _) => p,
        (None, Some(dir), _) if dir.len() > 0 => below(dir),
        (None, _, Some(dir)) => below(path_below(dir, ".config"@)),
        (None, _, None) => below(".config"@),
    }
}

/// The path of the configuration file.
pub fn config_file_path(
    chosen: &Option<String>,
    xdg_config_home: &Option<String>,
    home: &Option<String>,
) -> (r: String)
    ensures
        r@ == config_path_of(opt_text(*chosen), opt_text(*xdg_config_home), opt_text(*home)),
{
    if let Some(p) = chosen {
        return p.clone();
    }
    if let Some(raw) = xdg_config_home {
        if !raw.as_str().is_empty() {
            let dir = join_path(raw.as_str(), "vpn-jumphost");
            return join_path(dir.as_str(), "config.toml");
        }
    }
    let base = match home {
        Some(dir) => join_path(dir.as_str(), ".config"),
        None => ".config".to_owned(),
    };
    let dir = join_path(base.as_str(), "vpn-jumphost");
    join_path(dir.as_str(), "config.toml")
}

// ── Loading ──────────────────────────────────────────────────────────────

/// What came of reading and parsing the configuration file.
pub enum LoadOutcome {
    /// It was read and parsed.
    Parsed(FileConfig),
    /// It could not be read; `missing` tells whether there is none.
    Unreadable { missing: bool },
    /// It was read and is not a configuration.
    Malformed,
}

/// What the user is told about the configuration file.
#[derive(Debug, Clone, Copy, PartialEq, Eq, Structural)]
pub enum LoadNote {
    /// It was loaded.
    Loaded,
    /// A file that was asked for could not be read: a warning.
    ChosenUnreadable,
    /// The usual file could not be read: a detail.
    DefaultUnreadable,
    /// There is no usual file, which is in order.
    Silent,
    /// It was ignored for its mistakes: a warning.
    Malformed,
}

/// What the user is told; `explicit` tells whether the path was chosen.
pub open spec fn load_note(outcome: LoadOutcome, explicit: bool) -> LoadNote {
    match outcome {
        LoadOutcome::Parsed(_) => LoadNote::Loaded,
        LoadOutcome::Unreadable { missing } => if explicit {
            LoadNote::ChosenUnreadable
        } else if missing {
            LoadNote::Silent
        } else {
            LoadNote::DefaultUnreadable
        },
        LoadOutcome::Malformed => LoadNote::Malformed,
    }
}

/// The configuration that is used: the file's, or that of an empty file.
pub open spec fn loaded_config(outcome: LoadOutcome) -> FileConfig {
    match outcome {
        LoadOutcome::Parsed(cfg) => cfg,
        _ => empty_config(),
    }
}

/// Settles which configuration is used and what the user is told about it.
pub fn load(outcome: LoadOutcome, explicit: bool) -> (r: (FileConfig, LoadNote))
    ensures
        r.0 == loaded_config(outcome),
        r.1 == load_note(outcome, explicit),
{
    match outcome {
        LoadOutcome::Parsed(cfg) => (cfg, LoadNote::Loaded),
        LoadOutcome::Unreadable { missing } => {
            let note = if explicit {
                LoadNote::ChosenUnreadable
            } else if missing {
                LoadNote::Silent
            } else {
                LoadNote::DefaultUnreadable
            };
            (FileConfig::default(), note)
        },
        LoadOutcome::Malformed => (FileConfig::default(), LoadNote::Malformed),
    }
}

/// A path that was chosen is the one that is read, whatever the environment.
pub proof fn law_chosen_path_wins(
    path: Seq<char>,
    xdg_config_home: Option<Seq<char>>,
    home: Option<Seq<char>>,
)
    ensures
        config_path_of(Some(path), xdg_config_home, home) == path,
{
}

/// Where the configuration file is: the path that was chosen, whatever the
/// environment; else below the directory that the environment names, whatever
/// the home directory; else below the home directory.
pub proof fn law_config_path(
    chosen: Option<String>,
    xdg: Option<String>,
    home: Option<String>,
    r: String,
)
    requires
        call_ensures(config_file_path, (&chosen, &xdg, &home), r),
    ensures
        chosen matches Some(p) ==> r@ == p@,
        chosen is None ==> (xdg matches Some(x) ==> (x@.len() > 0 && x@.last() != '/' ==> r@ == x@
            + "/vpn-jumphost/config.toml"@)),
        chosen is None && (xdg matches Some(x) ==> x@.len() == 0) ==> {
            &&& home matches Some(h) ==> (h@.len() > 0 && h@.last() != '/' ==> r@ == h@
                + "/.config/vpn-jumphost/config.toml"@)
            &&& home is None ==> r@ == ".config/vpn-jumphost/config.toml"@
            &&& home matches Some(h) ==> r@ == path_below(
                path_below(path_below(h@, ".config"@), "vpn-jumphost"@),
                "config.toml"@,
            )
        },
        chosen is None ==> (xdg matches Some(x) ==> (x@.len() > 0 ==> r@ == path_below(
            path_below(x@, "vpn-jumphost"@),
            "config.toml"@,
        ))),
{
    reveal_strlit("vpn-jumphost");
    reveal_strlit("config.toml");
    reveal_strlit(".config");
    reveal_strlit("/vpn-jumphost/config.toml");
    reveal_strlit("/.config/vpn-jumphost/config.toml");
    reveal_strlit(".config/vpn-jumphost/config.toml");
    let tail = seq!['/'] + "vpn-jumphost"@ + seq!['/'] + "config.toml"@;
    assert(tail =~= "/vpn-jumphost/config.toml"@);
    assert(seq!['/'] + ".config"@ + tail =~= "/.config/vpn-jumphost/config.toml"@);
    assert(".config"@ + seq!['/'] + "vpn-jumphost"@ + seq!['/'] + "config.toml"@
        =~= ".config/vpn-jumphost/config.toml"@);
    if let Some(x) = xdg {
        assert(x@ + seq!['/'] + "vpn-jumphost"@ + seq!['/'] + "config.toml"@ =~= x@ + tail);
    }
    if let Some(h) = home {
        assert(h@ + seq!['/'] + ".config"@ + seq!['/'] + "vpn-jumphost"@ + seq!['/']
            + "config.toml"@ =~= h@ + (seq!['/'] + ".config"@ + tail));
    }
}

/// A file that was read and understood is used as it is; any other counts as
/// an empty one, in which nothing is set. The user is told, but for a usual
/// file that is not there.
pub proof fn law_load(outcome: LoadOutcome, explicit: bool, r: (FileConfig, LoadNote))
    requires
        call_ensures(load, (outcome, explicit), r),
    ensures
        outcome matches LoadOutcome::Parsed(cfg) ==> r.0 == cfg,
        !(outcome is Parsed) ==> {
            &&& r.0.vpn_url is None && r.0.vpn_protocol is None && r.0.socks_port is None
            &&& r.0.ocproxy_keepalive is None && r.0.check_interval is None
            &&& r.0.no_headless is None && r.0.serve_pac is None && r.0.chromium_path is None
            &&& r.0.verbose is None && r.0.routing_proxy is None && r.0.pac_server is None
            &&& r.0.domains is None && r.0.credentials is None && r.0.probe is None
        },
        r.1 == LoadNote::Loaded <==> outcome is Parsed,
        r.1 == LoadNote::Malformed <==> outcome is Malformed,
        r.1 == LoadNote::Silent <==> outcome == (LoadOutcome::Unreadable { missing: true })
            && !explicit,
        r.1 == LoadNote::ChosenUnreadable <==> outcome is Unreadable && explicit,
{
}

/// The first path that is chosen stays, whatever is chosen later.
pub proof fn law_first_path_stays(chosen: &mut Option<String>, path: String)
    requires
        call_ensures(set_path, (chosen, path), ()),
    ensures
        *old(chosen) is Some ==> *final(chosen) == *old(chosen),
        *old(chosen) is None ==> *final(chosen) == Some(path),
{
}

} // verus!
