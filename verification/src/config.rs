//! Effective settings: defaults, the configuration file over them, state
//! paths, and the choice among the credential sources.
use vstd::prelude::*;

use crate::config_file::FileConfig;
use crate::domains::{goes_through_tunnel, is_tunnelled};
use crate::text::{clone_text, clone_texts, join_path, opt_text, path_below, same, texts, trim, trimmed};

verus! {

/// Default F5 VPN endpoint URL: none, it has to be configured.
pub const DEFAULT_VPN_URL: &'static str = "";

/// Default openconnect `--protocol=` value.
pub const DEFAULT_VPN_PROTOCOL: &'static str = "f5";

/// Default ocproxy SOCKS5 port.
pub const DEFAULT_SOCKS_PORT: u16 = 1080;

/// Default routing-proxy listen port.
pub const DEFAULT_ROUTING_PROXY_PORT: u16 = 1081;

/// Default routing-proxy bind address.
pub const DEFAULT_ROUTING_PROXY_BIND: &'static str = "127.0.0.1";

/// Default ocproxy keepalive in seconds.
pub const DEFAULT_OCPROXY_KEEPALIVE: u32 = 60;

/// Default PAC HTTP server port.
pub const DEFAULT_PAC_PORT: u16 = 8091;

/// Default PAC HTTP server bind address.
pub const DEFAULT_PAC_BIND: &'static str = "127.0.0.1";

/// Default interval of the periodic cookie check, in seconds.
pub const DEFAULT_CHECK_INTERVAL_SECS: u64 = 300;

/// The cookie that the VPN gateway sets after a successful login.
pub const COOKIE_NAME: &'static str = "MRHSession";

/// The path that is probed to find out whether a cookie is still accepted.
pub const COOKIE_PROBE_PATH: &'static str = "/vdesk/vpn/index.php3?outform=xml";

/// Port of a probe target that names none.
pub const DEFAULT_PROBE_PORT: u16 = 443;

/// Default connect timeout of one probe, in seconds.
pub const DEFAULT_PROBE_TIMEOUT_SECS: u64 = 10;

/// Nanoseconds in a second.
pub const NANOS_PER_SEC: u128 = 1_000_000_000;

// ── Domain lists ─────────────────────────────────────────────────────────

/// The configured proxy domains; none by default.
pub open spec fn proxy_list(cfg: FileConfig) -> Seq<Seq<char>> {
    match cfg.domains {
        Some(d) => match d.proxy {
            Some(list) => texts(list@),
            None => Seq::empty(),
        },
        None => Seq::empty(),
    }
}

/// The configured direct domains; none by default.
pub open spec fn direct_list(cfg: FileConfig) -> Seq<Seq<char>> {
    match cfg.domains {
        Some(d) => match d.direct {
            Some(list) => texts(list@),
            None => Seq::empty(),
        },
        None => Seq::empty(),
    }
}

/// The domains that are tunnelled through the VPN.
pub fn proxy_domains(cfg: &FileConfig) -> (r: Vec<String>)
    ensures
        texts(r@) == proxy_list(*cfg),
{
    if let Some(domains) = &cfg.domains {
        if let Some(list) = &domains.proxy {
            return clone_texts(list);
        }
    }
    let none: Vec<String> = Vec::new();
    assert(texts(none@) =~= Seq::empty());
    none
}

/// The domains that are always reached directly.
pub fn direct_domains(cfg: &FileConfig) -> (r: Vec<String>)
    ensures
        texts(r@) == direct_list(*cfg),
{
    if let Some(domains) = &cfg.domains {
        if let Some(list) = &domains.direct {
            return clone_texts(list);
        }
    }
    let none: Vec<String> = Vec::new();
    assert(texts(none@) =~= Seq::empty());
    none
}

/// The route that probe output shows for a host: `tunnel` or `direct`.
pub fn route_label_for_host(cfg: &FileConfig, hostname: &str) -> (r: &'static str)
    ensures
        r@ == (if is_tunnelled(hostname@, direct_list(*cfg), proxy_list(*cfg)) {
            "tunnel"@
        } else {
            "direct"@
        }),
{
    if goes_through_tunnel(hostname, &direct_domains(cfg), &proxy_domains(cfg)) {
        "tunnel"
    } else {
        "direct"
    }
}

// ── State paths ──────────────────────────────────────────────────────────

/// The state directory: below `XDG_STATE_HOME` if that is set and not empty,
/// else below `.local/state` in the home directory, or in the current one
/// where no home directory is known.
pub open spec fn state_dir_of(
    xdg_state_home: Option<Seq<char>>,
    home: Option<Seq<char>>,
) -> Seq<char> {
    match (xdg_state_home, home) {
        (Some(dir), _) if dir.len() > 0 => path_below(dir, "vpn-jumphost"@),
        (_, Some(dir)) => path_below(
            path_below(path_below(dir, ".local"@), "state"@),
            "vpn-jumphost"@,
        ),
        (_, None) => path_below(path_below(".local"@, "state"@), "vpn-jumphost"@),
    }
}

/// The directory that holds the cookie, the browser profile and the log.
pub fn state_dir(xdg_state_home: &Option<String>, home: &Option<String>) -> (r: String)
    ensures
        r@ == state_dir_of(opt_text(*xdg_state_home), opt_text(*home)),
{
    if let Some(dir) = xdg_state_home {
        if !dir.as_str().is_empty() {
            return join_path(dir.as_str(), "vpn-jumphost");
        }
    }
    let local = match home {
        Some(dir) => join_path(dir.as_str(), ".local"),
        None => ".local".to_owned(),
    };
    let state = join_path(local.as_str(), "state");
    join_path(state.as_str(), "vpn-jumphost")
}

/// Where the cookie is kept.
pub fn cookie_file_path(state_dir: &str) -> (r: String)
    ensures
        r@ == path_below(state_dir@, "cookie"@),
{
    join_path(state_dir, "cookie")
}

/// Where the browser profile is kept.
pub fn default_browser_profile_dir(state_dir: &str) -> (r: String)
    ensures
        r@ == path_below(state_dir@, "chromium-profile"@),
{
    join_path(state_dir, "chromium-profile")
}

// ── Settings by name ─────────────────────────────────────────────────────

/// What the file sets for a text setting, by the setting's name.
pub open spec fn text_setting(cfg: FileConfig, key: Seq<char>) -> Option<Seq<char>> {
    if key == "VPN_URL"@ {
        opt_text(cfg.vpn_url)
    } else if key == "VPN_PROTOCOL"@ {
        opt_text(cfg.vpn_protocol)
    } else if key == "ROUTING_PROXY_BIND"@ {
        match cfg.routing_proxy {
            Some(r) => opt_text(r.bind),
            None => None,
        }
    } else if key == "PAC_SERVE_BIND"@ {
        match cfg.pac_server {
            Some(p) => opt_text(p.bind),
            None => None,
        }
    } else {
        None
    }
}

/// What the file sets for a port setting, by the setting's name.
pub open spec fn port_setting(cfg: FileConfig, key: Seq<char>) -> Option<u16> {
    if key == "SOCKS_PORT"@ {
        cfg.socks_port
    } else if key == "ROUTING_PROXY_PORT"@ {
        match cfg.routing_proxy {
            Some(r) => r.port,
            None => None,
        }
    } else if key == "PAC_SERVE_PORT"@ {
        match cfg.pac_server {
            Some(p) => p.port,
            None => None,
        }
    } else {
        None
    }
}

/// What the file sets for a numeric setting, by the setting's name.
pub open spec fn number_setting(cfg: FileConfig, key: Seq<char>) -> Option<u32> {
    if key == "OCPROXY_KEEPALIVE"@ {
        cfg.ocproxy_keepalive
    } else {
        None
    }
}

/// The value of a text setting: the file's over the default.
pub open spec fn effective_text(cfg: FileConfig, key: Seq<char>, default: Seq<char>) -> Seq<char> {
    match text_setting(cfg, key) {
        Some(v) => v,
        None => default,
    }
}

/// The value of a port setting: the file's over the default.
pub open spec fn effective_port(cfg: FileConfig, key: Seq<char>, default: u16) -> u16 {
    match port_setting(cfg, key) {
        Some(v) => v,
        None => default,
    }
}

/// Looks up what the file sets for a text setting.
pub fn lookup_string(cfg: &FileConfig, key: &str) -> (r: Option<String>)
    ensures
        opt_text(r) == text_setting(*cfg, key@),
{
    if same(key, "VPN_URL") {
        clone_text(&cfg.vpn_url)
    } else if same(key, "VPN_PROTOCOL") {
        clone_text(&cfg.vpn_protocol)
    } else if same(key, "ROUTING_PROXY_BIND") {
        match &cfg.routing_proxy {
            Some(r) => clone_text(&r.bind),
            None => None,
        }
    } else if same(key, "PAC_SERVE_BIND") {
        match &cfg.pac_server {
            Some(p) => clone_text(&p.bind),
            None => None,
        }
    } else {
        None
    }
}

/// Looks up what the file sets for a port setting.
pub fn lookup_u16(cfg: &FileConfig, key: &str) -> (r: Option<u16>)
    ensures
        r == port_setting(*cfg, key@),
{
    if same(key, "SOCKS_PORT") {
        cfg.socks_port
    } else if same(key, "ROUTING_PROXY_PORT") {
        match &cfg.routing_proxy {
            Some(r) => r.port,
            None => None,
        }
    } else if same(key, "PAC_SERVE_PORT") {
        match &cfg.pac_server {
            Some(p) => p.port,
            None => None,
        }
    } else {
        None
    }
}

/// Looks up what the file sets for a numeric setting.
pub fn lookup_u32(cfg: &FileConfig, key: &str) -> (r: Option<u32>)
    ensures
        r == number_setting(*cfg, key@),
{
    if same(key, "OCPROXY_KEEPALIVE") {
        cfg.ocproxy_keepalive
    } else {
        None
    }
}

/// The value of a text setting: the configuration file's, else `default`.
pub fn cfg_string(cfg: &FileConfig, key: &str, default: &str) -> (r: String)
    ensures
        r@ == effective_text(*cfg, key@, default@),
{
    match lookup_string(cfg, key) {
        Some(v) => v,
        None => default.to_owned(),
    }
}

/// The value of a port setting: the configuration file's, else `default`.
pub fn cfg_u16(cfg: &FileConfig, key: &str, default: u16) -> (r: u16)
    ensures
        r == effective_port(*cfg, key@, default),
{
    match lookup_u16(cfg, key) {
        Some(v) => v,
        None => default,
    }
}

/// The value of a numeric setting: the configuration file's, else `default`.
pub fn cfg_u32(cfg: &FileConfig, key: &str, default: u32) -> (r: u32)
    ensures
        r == (match number_setting(*cfg, key@) {
            Some(v) => v,
            None => default,
        }),
{
    match lookup_u32(cfg, key) {
        Some(v) => v,
        None => default,
    }
}

/// Whether headless mode is switched off.
pub fn no_headless(cfg: &FileConfig) -> (r: bool)
    ensures
        r == (cfg.no_headless == Some(true)),
{
    match cfg.no_headless {
        Some(v) => v,
        None => false,
    }
}

/// Whether the PAC server is wanted.
pub fn serve_pac(cfg: &FileConfig) -> (r: bool)
    ensures
        r == (cfg.serve_pac == Some(true)),
{
    match cfg.serve_pac {
        Some(v) => v,
        None => false,
    }
}

/// The check interval in nanoseconds: the configured one, five minutes by
/// default, and never less than a second.
pub open spec fn check_interval_of(cfg: FileConfig) -> u128 {
    let n = match cfg.check_interval {
        Some(n) => n,
        None => (DEFAULT_CHECK_INTERVAL_SECS * NANOS_PER_SEC) as u128,
    };
    if n < NANOS_PER_SEC {
        NANOS_PER_SEC
    } else {
        n
    }
}

/// How often the cookie is checked, in nanoseconds.
pub fn cookie_check_interval(cfg: &FileConfig) -> (r: u128)
    ensures
        r == check_interval_of(*cfg),
{
    let n: u128 = match cfg.check_interval {
        Some(n) => n,
        None => DEFAULT_CHECK_INTERVAL_SECS as u128 * NANOS_PER_SEC,
    };
    if n < NANOS_PER_SEC {
        NANOS_PER_SEC
    } else {
        n
    }
}

/// The configured browser executable.
pub fn chromium_path(cfg: &FileConfig) -> (r: Option<String>)
    ensures
        opt_text(r) == opt_text(cfg.chromium_path),
{
    clone_text(&cfg.chromium_path)
}

/// The configured probe hosts as texts.
pub open spec fn probe_hosts_of(cfg: FileConfig) -> Option<Seq<Seq<char>>> {
    match cfg.probe {
        Some(p) => match p.hosts {
            Some(list) => Some(texts(list@)),
            None => None,
        },
        None => None,
    }
}

/// The configured probe hosts.
pub fn probe_hosts_from_config(cfg: &FileConfig) -> (r: Option<Vec<String>>)
    ensures
        match r {
            Some(list) => probe_hosts_of(*cfg) == Some(texts(list@)),
            None => probe_hosts_of(*cfg) is None,
        },
{
    match &cfg.probe {
        Some(p) => match &p.hosts {
            Some(list) => Some(clone_texts(list)),
            None => None,
        },
        None => None,
    }
}

/// A probe's connect timeout in seconds: the configured one, ten by default,
/// and never less than one.
pub open spec fn probe_timeout_of(cfg: FileConfig) -> u64 {
    let n = match cfg.probe {
        Some(p) => match p.timeout_secs {
            Some(n) => n,
            None => DEFAULT_PROBE_TIMEOUT_SECS,
        },
        None => DEFAULT_PROBE_TIMEOUT_SECS,
    };
    if n == 0 {
        1
    } else {
        n
    }
}

/// A probe's connect timeout, in seconds.
pub fn probe_timeout(cfg: &FileConfig) -> (r: u64)
    ensures
        r == probe_timeout_of(*cfg),
{
    let n: u64 = match &cfg.probe {
        Some(p) => match p.timeout_secs {
            Some(n) => n,
            None => DEFAULT_PROBE_TIMEOUT_SECS,
        },
        None => DEFAULT_PROBE_TIMEOUT_SECS,
    };
    if n == 0 {
        1
    } else {
        n
    }
}

/// How often a failed probe is repeated: the configured number, none by
/// default.
pub open spec fn probe_retries_of(cfg: FileConfig) -> u32 {
    match cfg.probe {
        Some(p) => match p.retries {
            Some(n) => n,
            None => 0,
        },
        None => 0,
    }
}

/// How often a failed probe is repeated.
pub fn probe_retries(cfg: &FileConfig) -> (r: u32)
    ensures
        r == probe_retries_of(*cfg),
{
    match &cfg.probe {
        Some(p) => match p.retries {
            Some(n) => n,
            None => 0,
        },
        None => 0,
    }
}

// ── Credentials ──────────────────────────────────────────────────────────

/// A username and a password that belong together.
#[derive(Clone, Debug)]
pub struct VpnCredentials {
    pub username: String,
    pub password: String,
}

/// Credentials by their contents.
pub struct CredentialsView {
    pub username: Seq<char>,
    pub password: Seq<char>,
}

impl View for VpnCredentials {
    type V = CredentialsView;

    open spec fn view(&self) -> CredentialsView {
        CredentialsView { username: self.username@, password: self.password@ }
    }
}

/// The contents of optional credentials.
pub open spec fn opt_credentials(c: Option<VpnCredentials>) -> Option<CredentialsView> {
    match c {
        Some(c) => Some(c@),
        None => None,
    }
}

/// What one source gives: both fields, and both not empty, or nothing.
pub open spec fn complete(
    username: Option<Seq<char>>,
    password: Option<Seq<char>>,
) -> Option<CredentialsView> {
    match (username, password) {
        (Some(u), Some(p)) if u.len() > 0 && p.len() > 0 => Some(
            CredentialsView { username: u, password: p },
        ),
        _ => None,
    }
}

fn both(username: Option<String>, password: Option<String>) -> (r: Option<VpnCredentials>)
    ensures
        opt_credentials(r) == complete(opt_text(username), opt_text(password)),
{
    match (username, password) {
        (Some(u), Some(p)) => if !u.as_str().is_empty() && !p.as_str().is_empty() {
            Some(VpnCredentials { username: u, password: p })
        } else {
            None
        },
        _ => None,
    }
}

/// Credentials from the environment, given what `VPN_USERNAME` and
/// `VPN_PASSWORD` are set to. Both have to be set and not empty.
pub fn env_vpn_credentials(
    username: Option<String>,
    password: Option<String>,
) -> (r: Option<VpnCredentials>)
    ensures
        opt_credentials(r) == complete(opt_text(username), opt_text(password)),
{
    both(username, password)
}

/// A secret in a file: what is left of its contents without the white space
/// around it, if anything is.
pub open spec fn file_secret(contents: Option<Seq<char>>) -> Option<Seq<char>> {
    match contents {
        Some(s) if trimmed(s).len() > 0 => Some(trimmed(s)),
        _ => None,
    }
}

/// The secret in a file, given the file's contents, or nothing where it could
/// not be read.
pub fn read_secret_file(contents: Option<String>) -> (r: Option<String>)
    ensures
        opt_text(r) == file_secret(opt_text(contents)),
{
    match contents {
        Some(s) => {
            let t = trim(s.as_str());
            if t.as_str().is_empty() {
                None
            } else {
                Some(t)
            }
        },
        None => None,
    }
}

/// One field of the `[credentials]` table. Where a file is named for it, the
/// file decides; otherwise the value in the table does.
pub open spec fn table_secret(
    path: Option<Seq<char>>,
    contents: Option<Seq<char>>,
    value: Option<Seq<char>>,
) -> Option<Seq<char>> {
    if path is Some {
        file_secret(contents)
    } else {
        value
    }
}

fn secret_of(
    path: &Option<String>,
    contents: Option<String>,
    value: &Option<String>,
) -> (r: Option<String>)
    ensures
        opt_text(r) == table_secret(opt_text(*path), opt_text(contents), opt_text(*value)),
{
    if path.is_some() {
        read_secret_file(contents)
    } else {
        clone_text(value)
    }
}

/// What the `[credentials]` table gives.
pub open spec fn table_credentials(
    cfg: FileConfig,
    username_contents: Option<Seq<char>>,
    password_contents: Option<Seq<char>>,
) -> Option<CredentialsView> {
    match cfg.credentials {
        Some(c) => complete(
            table_secret(opt_text(c.username_file), username_contents, opt_text(c.username)),
            table_secret(opt_text(c.password_file), password_contents, opt_text(c.password)),
        ),
        None => None,
    }
}

/// Credentials from the `[credentials]` table, given the contents of the two
/// files that it may name.
pub fn config_credentials(
    cfg: &FileConfig,
    username_contents: Option<String>,
    password_contents: Option<String>,
) -> (r: Option<VpnCredentials>)
    ensures
        opt_credentials(r) == table_credentials(
            *cfg,
            opt_text(username_contents),
            opt_text(password_contents),
        ),
{
    match &cfg.credentials {
        Some(c) => {
            let username = secret_of(&c.username_file, username_contents, &c.username);
            let password = secret_of(&c.password_file, password_contents, &c.password);
            both(username, password)
        },
        None => None,
    }
}

/// The pair that the keyring holds, as optional texts.
pub open spec fn pair_texts(pair: Option<(String, String)>) -> (Option<Seq<char>>, Option<Seq<char>>) {
    match pair {
        Some((u, p)) => (Some(u@), Some(p@)),
        None => (None, None),
    }
}

/// The credentials in force: the environment's before the keyring's before
/// the configuration file's.
pub open spec fn chosen_credentials(
    env: Option<CredentialsView>,
    keyring: Option<CredentialsView>,
    table: Option<CredentialsView>,
) -> Option<CredentialsView> {
    if env is Some {
        env
    } else if keyring is Some {
        keyring
    } else {
        table
    }
}

/// The credentials in force, given what each source supplies.
pub fn vpn_credentials(
    env: Option<VpnCredentials>,
    keyring: Option<(String, String)>,
    table: Option<VpnCredentials>,
) -> (r: Option<VpnCredentials>)
    ensures
        opt_credentials(r) == chosen_credentials(
            opt_credentials(env),
            complete(pair_texts(keyring).0, pair_texts(keyring).1),
            opt_credentials(table),
        ),
{
    if env.is_some() {
        return env;
    }
    if let Some((u, p)) = keyring {
        if !u.as_str().is_empty() && !p.as_str().is_empty() {
            return Some(VpnCredentials { username: u, password: p });
        }
    }
    table
}

// ── Laws ─────────────────────────────────────────────────────────────────

/// A setting in the file takes precedence over the default, whatever the
/// default is.
pub proof fn law_file_over_default(cfg: FileConfig, key: Seq<char>, a: Seq<char>, b: Seq<char>)
    requires
        text_setting(cfg, key) is Some,
    ensures
        effective_text(cfg, key, a) == effective_text(cfg, key, b),
        Some(effective_text(cfg, key, a)) == text_setting(cfg, key),
{
}

/// Sources are never mixed: the credentials in force are those of one source,
/// whole, and that source is the first one that has both fields.
pub proof fn law_sources_are_never_mixed(
    env_user: Option<Seq<char>>,
    env_pass: Option<Seq<char>>,
    ring_user: Option<Seq<char>>,
    ring_pass: Option<Seq<char>>,
    table_user: Option<Seq<char>>,
    table_pass: Option<Seq<char>>,
)
    ensures
        chosen_credentials(
            complete(env_user, env_pass),
            complete(ring_user, ring_pass),
            complete(table_user, table_pass),
        ) matches Some(c) ==> {
            &&& c.username.len() > 0
            &&& c.password.len() > 0
            &&& {
                ||| env_user == Some(c.username) && env_pass == Some(c.password)
                ||| complete(env_user, env_pass) is None && ring_user == Some(c.username)
                    && ring_pass == Some(c.password)
                ||| complete(env_user, env_pass) is None && complete(ring_user, ring_pass) is None
                    && table_user == Some(c.username) && table_pass == Some(c.password)
            }
        },
{
}

/// The lists in force are the configured ones, whole and in their order, and
/// empty where none is configured.
pub proof fn law_configured_domains_are_all_used(cfg: FileConfig, proxy: Vec<String>, direct: Vec<String>)
    requires
        call_ensures(proxy_domains, (&cfg,), proxy),
        call_ensures(direct_domains, (&cfg,), direct),
    ensures
        cfg.domains matches Some(d) ==> {
            &&& d.proxy matches Some(list) ==> {
                &&& proxy_list(cfg).len() == list@.len()
                &&& proxy@.len() == list@.len()
                &&& forall|i: int|
                    0 <= i < list@.len() ==> #[trigger] proxy_list(cfg)[i] == list@[i]@
                &&& forall|i: int| 0 <= i < list@.len() ==> (#[trigger] proxy@[i])@ == list@[i]@
            }
            &&& d.direct matches Some(list) ==> {
                &&& direct_list(cfg).len() == list@.len()
                &&& direct@.len() == list@.len()
                &&& forall|i: int|
                    0 <= i < list@.len() ==> #[trigger] direct_list(cfg)[i] == list@[i]@
                &&& forall|i: int| 0 <= i < list@.len() ==> (#[trigger] direct@[i])@ == list@[i]@
            }
            &&& d.proxy is None ==> proxy_list(cfg).len() == 0 && proxy@.len() == 0
            &&& d.direct is None ==> direct_list(cfg).len() == 0 && direct@.len() == 0
        },
        cfg.domains is None ==> proxy_list(cfg).len() == 0 && proxy@.len() == 0 && direct_list(
            cfg,
        ).len() == 0 && direct@.len() == 0,
{
    assert(texts(proxy@).len() == proxy@.len());
    assert(texts(direct@).len() == direct@.len());
    assert forall|i: int| 0 <= i < proxy@.len() implies (#[trigger] proxy@[i])@ == proxy_list(cfg)[i] by {
        assert(texts(proxy@)[i] == proxy@[i]@);
    }
    assert forall|i: int| 0 <= i < direct@.len() implies (#[trigger] direct@[i])@ == direct_list(cfg)[i] by {
        assert(texts(direct@)[i] == direct@[i]@);
    }
}

/// Credentials are found wherever there are any: nothing is found only where
/// no source has a whole pair, and a source that has one is used whatever the
/// sources behind it hold.
pub proof fn law_credentials_are_found(
    env: Option<VpnCredentials>,
    keyring: Option<(String, String)>,
    table: Option<VpnCredentials>,
    r: Option<VpnCredentials>,
)
    requires
        call_ensures(vpn_credentials, (env, keyring, table), r),
    ensures
        env matches Some(c) ==> {
            &&& r matches Some(found)
            &&& found.username@ == c.username@
            &&& found.password@ == c.password@
        },
        env is None ==> (keyring matches Some((user, pass)) ==> (user@.len() > 0 && pass@.len() > 0
            ==> {
            &&& r matches Some(found)
            &&& found.username@ == user@
            &&& found.password@ == pass@
        })),
        env is None && (keyring matches Some((user, pass)) ==> user@.len() == 0 || pass@.len() == 0)
            ==> {
            &&& table matches Some(c) ==> {
                &&& r matches Some(found)
                &&& found.username@ == c.username@
                &&& found.password@ == c.password@
            }
            &&& table is None ==> r is None
        },
{
}

/// One source gives credentials exactly if both fields are there and hold
/// something, and it gives them as they are.
pub proof fn law_half_a_pair_is_none(
    username: Option<String>,
    password: Option<String>,
    r: Option<VpnCredentials>,
)
    requires
        call_ensures(env_vpn_credentials, (username, password), r),
    ensures
        r is Some <==> (username matches Some(u) && u@.len() > 0) && (password matches Some(p)
            && p@.len() > 0),
        r matches Some(c) ==> {
            &&& username matches Some(u) && c.username@ == u@
            &&& password matches Some(p) && c.password@ == p@
        },
{
}

/// The table's own fields are used as they are; a file that is named for a
/// field takes its place, whatever the field holds, and counts without the
/// white space round its contents.
pub proof fn law_table_credentials(
    cfg: FileConfig,
    user_contents: Option<String>,
    pass_contents: Option<String>,
    r: Option<VpnCredentials>,
)
    requires
        call_ensures(config_credentials, (&cfg, user_contents, pass_contents), r),
    ensures
        cfg.credentials is None ==> r is None,
        cfg.credentials matches Some(t) ==> {
            &&& t.username_file is None && t.password_file is None ==> {
                &&& r is Some <==> (t.username matches Some(u) && u@.len() > 0) && (
                t.password matches Some(p) && p@.len() > 0)
                &&& r matches Some(c) ==> {
                    &&& t.username matches Some(u) && c.username@ == u@
                    &&& t.password matches Some(p) && c.password@ == p@
                }
            }
            &&& t.username_file is Some && t.password_file is Some ==> {
                &&& r is Some <==> (user_contents matches Some(u) && trimmed(u@).len() > 0) && (
                pass_contents matches Some(p) && trimmed(p@).len() > 0)
                &&& r matches Some(c) ==> {
                    &&& user_contents matches Some(u) && c.username@ == trimmed(u@)
                    &&& pass_contents matches Some(p) && c.password@ == trimmed(p@)
                }
            }
            &&& t.username_file is None && t.password_file is Some ==> {
                &&& r is Some <==> (t.username matches Some(u) && u@.len() > 0) && (
                pass_contents matches Some(p) && trimmed(p@).len() > 0)
                &&& r matches Some(c) ==> {
                    &&& t.username matches Some(u) && c.username@ == u@
                    &&& pass_contents matches Some(p) && c.password@ == trimmed(p@)
                }
            }
            &&& t.username_file is Some && t.password_file is None ==> {
                &&& r is Some <==> (user_contents matches Some(u) && trimmed(u@).len() > 0) && (
                t.password matches Some(p) && p@.len() > 0)
                &&& r matches Some(c) ==> {
                    &&& user_contents matches Some(u) && c.username@ == trimmed(u@)
                    &&& t.password matches Some(p) && c.password@ == p@
                }
            }
        },
{
}

proof fn lemma_text_keys()
    ensures
        "VPN_URL"@ != "VPN_PROTOCOL"@,
        "VPN_URL"@ != "ROUTING_PROXY_BIND"@,
        "VPN_URL"@ != "PAC_SERVE_BIND"@,
        "VPN_PROTOCOL"@ != "ROUTING_PROXY_BIND"@,
        "VPN_PROTOCOL"@ != "PAC_SERVE_BIND"@,
        "ROUTING_PROXY_BIND"@ != "PAC_SERVE_BIND"@,
        "SOCKS_PORT"@ != "ROUTING_PROXY_PORT"@,
        "SOCKS_PORT"@ != "PAC_SERVE_PORT"@,
        "ROUTING_PROXY_PORT"@ != "PAC_SERVE_PORT"@,
{
    reveal_strlit("VPN_URL");
    reveal_strlit("VPN_PROTOCOL");
    reveal_strlit("ROUTING_PROXY_BIND");
    reveal_strlit("PAC_SERVE_BIND");
    reveal_strlit("SOCKS_PORT");
    reveal_strlit("ROUTING_PROXY_PORT");
    reveal_strlit("PAC_SERVE_PORT");
    assert("VPN_URL"@.len() == 7 && "VPN_PROTOCOL"@.len() == 12 && "ROUTING_PROXY_BIND"@.len() == 18
        && "PAC_SERVE_BIND"@.len() == 14);
    assert("SOCKS_PORT"@.len() == 10 && "ROUTING_PROXY_PORT"@.len() == 18 && "PAC_SERVE_PORT"@.len()
        == 14);
}

/// Each text setting is the file's own field for it, and the default where the
/// file does not have the field.
pub proof fn law_text_settings_are_their_fields(cfg: FileConfig, default: Seq<char>)
    ensures
        effective_text(cfg, "VPN_URL"@, default) == (match cfg.vpn_url {
            Some(v) => v@,
            None => default,
        }),
        effective_text(cfg, "VPN_PROTOCOL"@, default) == (match cfg.vpn_protocol {
            Some(v) => v@,
            None => default,
        }),
        cfg.routing_proxy matches Some(t) ==> (t.bind matches Some(v) ==> effective_text(
            cfg,
            "ROUTING_PROXY_BIND"@,
            default,
        ) == v@),
        (cfg.routing_proxy matches Some(t) ==> t.bind is None) ==> effective_text(
            cfg,
            "ROUTING_PROXY_BIND"@,
            default,
        ) == default,
        cfg.pac_server matches Some(t) ==> (t.bind matches Some(v) ==> effective_text(
            cfg,
            "PAC_SERVE_BIND"@,
            default,
        ) == v@),
        (cfg.pac_server matches Some(t) ==> t.bind is None) ==> effective_text(
            cfg,
            "PAC_SERVE_BIND"@,
            default,
        ) == default,
{
    lemma_text_keys();
}

/// Each port is the file's own field for it, and the default where the file
/// does not have the field.
pub proof fn law_port_settings_are_their_fields(cfg: FileConfig, default: u16)
    ensures
        effective_port(cfg, "SOCKS_PORT"@, default) == (match cfg.socks_port {
            Some(v) => v,
            None => default,
        }),
        cfg.routing_proxy matches Some(t) ==> (t.port matches Some(v) ==> effective_port(
            cfg,
            "ROUTING_PROXY_PORT"@,
            default,
        ) == v),
        (cfg.routing_proxy matches Some(t) ==> t.port is None) ==> effective_port(
            cfg,
            "ROUTING_PROXY_PORT"@,
            default,
        ) == default,
        cfg.pac_server matches Some(t) ==> (t.port matches Some(v) ==> effective_port(
            cfg,
            "PAC_SERVE_PORT"@,
            default,
        ) == v),
        (cfg.pac_server matches Some(t) ==> t.port is None) ==> effective_port(
            cfg,
            "PAC_SERVE_PORT"@,
            default,
        ) == default,
{
    lemma_text_keys();
}

/// What is looked up by name is what the settings in force are made of, and
/// other names have no setting.
pub proof fn law_lookups_feed_the_settings(
    cfg: FileConfig,
    key: &str,
    default: &str,
    found: Option<String>,
    r: String,
    port: Option<u16>,
    default_port: u16,
    p: u16,
    number: Option<u32>,
    default_number: u32,
    n: u32,
)
    requires
        call_ensures(lookup_string, (&cfg, key), found),
        call_ensures(cfg_string, (&cfg, key, default), r),
        call_ensures(lookup_u16, (&cfg, key), port),
        call_ensures(cfg_u16, (&cfg, key, default_port), p),
        call_ensures(lookup_u32, (&cfg, key), number),
        call_ensures(cfg_u32, (&cfg, key, default_number), n),
    ensures
        r@ == (match found {
            Some(v) => v@,
            None => default@,
        }),
        r@ == effective_text(cfg, key@, default@),
        p == (match port {
            Some(v) => v,
            None => default_port,
        }),
        p == effective_port(cfg, key@, default_port),
        n == (match number {
            Some(v) => v,
            None => default_number,
        }),
        key@ == "OCPROXY_KEEPALIVE"@ ==> number == cfg.ocproxy_keepalive,
        number is Some ==> key@ == "OCPROXY_KEEPALIVE"@,
        found is Some ==> key@ == "VPN_URL"@ || key@ == "VPN_PROTOCOL"@ || key@
            == "ROUTING_PROXY_BIND"@ || key@ == "PAC_SERVE_BIND"@,
        port is Some ==> key@ == "SOCKS_PORT"@ || key@ == "ROUTING_PROXY_PORT"@ || key@
            == "PAC_SERVE_PORT"@,
{
}

/// A switch is on only where the file says so.
pub proof fn law_switches_are_off_by_default(cfg: FileConfig, headed: bool, pac: bool)
    requires
        call_ensures(no_headless, (&cfg,), headed),
        call_ensures(serve_pac, (&cfg,), pac),
    ensures
        headed <==> (cfg.no_headless matches Some(on) && on),
        pac <==> (cfg.serve_pac matches Some(on) && on),
{
}

/// The check interval is the configured one wherever that is a second or more;
/// a shorter one becomes a second, and without one it is five minutes.
pub proof fn law_check_interval(cfg: FileConfig, r: u128)
    requires
        call_ensures(cookie_check_interval, (&cfg,), r),
    ensures
        r >= 1_000_000_000,
        cfg.check_interval matches Some(n) ==> (n >= 1_000_000_000 ==> r == n),
        cfg.check_interval matches Some(n) ==> (n < 1_000_000_000 ==> r == 1_000_000_000),
        cfg.check_interval is None ==> r == 300_000_000_000,
{
}

/// The settings of the probes are the configured ones; a timeout is never
/// zero, ten seconds by default, and nothing is repeated by default.
pub proof fn law_probe_settings(
    cfg: FileConfig,
    hosts: Option<Vec<String>>,
    timeout: u64,
    retries: u32,
)
    requires
        call_ensures(probe_hosts_from_config, (&cfg,), hosts),
        call_ensures(probe_timeout, (&cfg,), timeout),
        call_ensures(probe_retries, (&cfg,), retries),
    ensures
        timeout >= 1,
        cfg.probe is None ==> hosts is None && timeout == 10 && retries == 0,
        cfg.probe matches Some(t) ==> {
            &&& t.timeout_secs is None ==> timeout == 10
            &&& t.timeout_secs matches Some(n) ==> (n > 0 ==> timeout == n)
            &&& t.timeout_secs == Some(0u64) ==> timeout == 1
            &&& t.retries is None ==> retries == 0
            &&& t.retries matches Some(n) ==> retries == n
            &&& t.hosts is None ==> hosts is None
            &&& t.hosts matches Some(list) ==> {
                &&& hosts matches Some(found)
                &&& found@.len() == list@.len()
                &&& forall|i: int| 0 <= i < list@.len() ==> (#[trigger] found@[i])@ == list@[i]@
                &&& probe_hosts_of(cfg) matches Some(named)
                &&& named.len() == list@.len()
                &&& forall|i: int| 0 <= i < list@.len() ==> #[trigger] named[i] == list@[i]@
            }
        },
{
    if let Some(found) = hosts {
        assert(texts(found@).len() == found@.len());
        assert forall|i: int| 0 <= i < found@.len() implies (#[trigger] found@[i])@ == texts(found@)[i] by {
        }
    }
}

/// The configured browser is used as it is named.
pub proof fn law_browser_setting(cfg: FileConfig, r: Option<String>)
    requires
        call_ensures(chromium_path, (&cfg,), r),
    ensures
        r is Some <==> cfg.chromium_path is Some,
        r matches Some(p) ==> (cfg.chromium_path matches Some(q) && p@ == q@),
{
}

/// Everything that is kept is kept below the state directory, which is below
/// the one that the environment names, whatever the home directory, and else
/// below the home directory.
pub proof fn law_state_paths(
    xdg: Option<String>,
    home: Option<String>,
    r: String,
    dir: &str,
    cookie: String,
    profile: String,
)
    requires
        call_ensures(state_dir, (&xdg, &home), r),
        call_ensures(cookie_file_path, (dir,), cookie),
        call_ensures(default_browser_profile_dir, (dir,), profile),
    ensures
        xdg matches Some(x) ==> (x@.len() > 0 && x@.last() != '/' ==> r@ == x@
            + "/vpn-jumphost"@),
        xdg matches Some(x) ==> (x@.len() > 0 && x@.last() == '/' ==> r@ == x@ + "vpn-jumphost"@),
        (xdg matches Some(x) ==> x@.len() == 0) ==> {
            &&& home matches Some(h) ==> (h@.len() > 0 && h@.last() != '/' ==> r@ == h@
                + "/.local/state/vpn-jumphost"@)
            &&& home is None ==> r@ == ".local/state/vpn-jumphost"@
            &&& home matches Some(h) ==> r@ == path_below(
                path_below(path_below(h@, ".local"@), "state"@),
                "vpn-jumphost"@,
            )
        },
        cookie@ == path_below(dir@, "cookie"@) && profile@ == path_below(
            dir@,
            "chromium-profile"@,
        ),
        dir@.len() > 0 && dir@.last() != '/' ==> cookie@ == dir@ + "/cookie"@ && profile@ == dir@
            + "/chromium-profile"@,
{
    reveal_strlit("/vpn-jumphost");
    reveal_strlit("vpn-jumphost");
    reveal_strlit("/.local/state/vpn-jumphost");
    reveal_strlit(".local/state/vpn-jumphost");
    reveal_strlit(".local");
    reveal_strlit("state");
    reveal_strlit("/cookie");
    reveal_strlit("cookie");
    reveal_strlit("/chromium-profile");
    reveal_strlit("chromium-profile");
    assert("/vpn-jumphost"@ =~= seq!['/'] + "vpn-jumphost"@);
    assert("/cookie"@ =~= seq!['/'] + "cookie"@);
    assert("/chromium-profile"@ =~= seq!['/'] + "chromium-profile"@);
    if let Some(x) = xdg {
        assert(x@ + seq!['/'] + "vpn-jumphost"@ =~= x@ + "/vpn-jumphost"@);
    }
    let tail = seq!['/'] + ".local"@ + seq!['/'] + "state"@ + seq!['/'] + "vpn-jumphost"@;
    assert(tail =~= "/.local/state/vpn-jumphost"@);
    assert(".local"@ + seq!['/'] + "state"@ + seq!['/'] + "vpn-jumphost"@
        =~= ".local/state/vpn-jumphost"@);
    if let Some(h) = home {
        assert(h@ + seq!['/'] + ".local"@ + seq!['/'] + "state"@ + seq!['/'] + "vpn-jumphost"@ =~= h@
            + tail);
    }
    assert(dir@ + seq!['/'] + "cookie"@ =~= dir@ + "/cookie"@);
    assert(dir@ + seq!['/'] + "chromium-profile"@ =~= dir@ + "/chromium-profile"@);
}

} // verus!
