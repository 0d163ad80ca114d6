//! The VPN's session cookie: where it is kept, how it is told whether the
//! VPN still accepts it, and how it is found among a browser's cookies.
//!
//! The check asks the VPN's endpoint without following redirects: an expired
//! session is redirected to the sign-in page, which would answer well.
use vstd::prelude::*;
use vstd::string::*;

use crate::config::{
    cfg_string, effective_text, law_text_settings_are_their_fields, COOKIE_NAME, COOKIE_PROBE_PATH,
    DEFAULT_VPN_URL,
};
use crate::config_file::FileConfig;
use crate::text::{chars_of, concat2, opt_str, opt_text, same, string_from, trim, trimmed};

verus! {

/// The permissions of the cookie file: its owner's alone.
pub const COOKIE_FILE_MODE: u32 = 0o600;

/// The outcome of a check.
#[derive(Debug, Clone, Copy, PartialEq, Eq, Structural)]
pub enum CookieStatus {
    /// The VPN accepts the cookie: it answered with a success code.
    Valid,
    /// There is no cookie, or the VPN does not accept it.
    Invalid,
    /// The VPN could not be asked, or its answer settles nothing. The cookie
    /// at hand is kept, and none is captured.
    NetworkError,
}

// ── The check ────────────────────────────────────────────────────────────

/// The cookie in a file: its contents without white space round them, unless
/// nothing is left.
pub open spec fn cookie_in(contents: Option<Seq<char>>) -> Option<Seq<char>> {
    match contents {
        Some(c) if trimmed(c).len() > 0 => Some(trimmed(c)),
        _ => None,
    }
}

/// What is to be done about a cookie file.
pub enum FileCheck {
    /// The file settles it.
    Known(CookieStatus),
    /// The VPN has to be asked about this cookie.
    Ask(String),
}

/// Looks at the contents of a cookie file, as far as they could be read.
/// Without a cookie in it the file is invalid; otherwise the VPN decides.
pub fn validate_file(contents: Option<&str>) -> (r: FileCheck)
    ensures
        match r {
            FileCheck::Known(status) => status == CookieStatus::Invalid && cookie_in(opt_str(contents)) is None,
            FileCheck::Ask(cookie) => cookie_in(opt_str(contents)) == Some(cookie@),
        },
{
    match contents {
        Some(text) => {
            let cookie = trim(text);
            if cookie.as_str().unicode_len() == 0 {
                FileCheck::Known(CookieStatus::Invalid)
            } else {
                FileCheck::Ask(cookie)
            }
        },
        None => FileCheck::Known(CookieStatus::Invalid),
    }
}

/// A text without the slashes at its end.
pub open spec fn without_slashes(s: Seq<char>) -> Seq<char>
    decreases s.len(),
{
    if s.len() > 0 && s.last() == '/' {
        without_slashes(s.drop_last())
    } else {
        s
    }
}

fn strip_slashes(s: &str) -> (r: String)
    ensures
        r@ == without_slashes(s@),
{
    let v = chars_of(s);
    let mut end: usize = v.len();
    assert(v@.take(end as int) == v@);
    while end > 0 && v[end - 1] == '/'
        invariant
            end <= v@.len(),
            without_slashes(v@.take(end as int)) == without_slashes(v@),
        decreases end,
    {
        assert(v@.take(end as int).drop_last() == v@.take(end - 1));
        end = end - 1;
    }
    assert(v@.take(end as int) == v@.subrange(0, end as int));
    string_from(&v, 0, end)
}

/// The request that asks the VPN about a cookie. It bypasses proxies and
/// follows no redirect.
#[derive(Debug)]
pub struct CookieRequest {
    pub url: String,
    /// The value of the `Cookie` header.
    pub header: String,
    pub user_agent: String,
    pub timeout_secs: u64,
    pub follow_redirects: bool,
    pub use_proxy: bool,
}

/// Where the VPN is asked about a cookie.
pub open spec fn probe_url_of(vpn_url: Seq<char>) -> Seq<char> {
    without_slashes(vpn_url) + COOKIE_PROBE_PATH@
}

/// The request that asks the VPN about `cookie`.
pub fn validate_cookie(cfg: &FileConfig, cookie: &str) -> (r: CookieRequest)
    ensures
        r.url@ == probe_url_of(effective_text(*cfg, "VPN_URL"@, DEFAULT_VPN_URL@)),
        r.header@ == COOKIE_NAME@ + "="@ + cookie@,
        r.user_agent@ == "vpn-jumphost-cookie-check"@,
        r.timeout_secs == 10,
        !r.follow_redirects,
        !r.use_proxy,
{
    let vpn_url = cfg_string(cfg, "VPN_URL", DEFAULT_VPN_URL);
    let mut header = concat2(COOKIE_NAME, "=");
    header.append(cookie);
    CookieRequest {
        url: concat2(strip_slashes(vpn_url.as_str()).as_str(), COOKIE_PROBE_PATH),
        header,
        user_agent: "vpn-jumphost-cookie-check".to_owned(),
        timeout_secs: 10,
        follow_redirects: false,
        use_proxy: false,
    }
}

/// What the answer's status code says of the cookie: a success code that it
/// is accepted, a redirect and 404 that it is not. No answer and any other
/// code, such as that of a failing server, say nothing, so that a cookie at
/// hand is kept and a doubtful one is not captured.
pub open spec fn status_of(code: Option<u16>) -> CookieStatus {
    match code {
        Some(c) => if 200 <= c <= 299 {
            CookieStatus::Valid
        } else if 300 <= c <= 399 || c == 404 {
            CookieStatus::Invalid
        } else {
            CookieStatus::NetworkError
        },
        None => CookieStatus::NetworkError,
    }
}

/// What the answer's status code says of the cookie.
pub fn cookie_status(code: Option<u16>) -> (r: CookieStatus)
    ensures
        r == status_of(code),
{
    match code {
        Some(c) => if 200 <= c && c <= 299 {
            CookieStatus::Valid
        } else if (300 <= c && c <= 399) || c == 404 {
            CookieStatus::Invalid
        } else {
            CookieStatus::NetworkError
        },
        None => CookieStatus::NetworkError,
    }
}

/// The exit code of a check: 0 for valid, 1 for invalid, 2 for unknown.
pub fn validation_exit_code(status: CookieStatus) -> (r: u8)
    ensures
        r == (match status {
            CookieStatus::Valid => 0u8,
            CookieStatus::Invalid => 1u8,
            CookieStatus::NetworkError => 2u8,
        }),
{
    match status {
        CookieStatus::Valid => 0,
        CookieStatus::Invalid => 1,
        CookieStatus::NetworkError => 2,
    }
}

// ── The browser's cookies ────────────────────────────────────────────────

/// A cookie of a browser.
pub struct BrowserCookie {
    pub name: String,
    pub value: String,
}

/// Whether a cookie is the VPN's session and holds something.
pub open spec fn is_session(c: BrowserCookie) -> bool {
    c.name@ == COOKIE_NAME@ && c.value@.len() > 0
}

/// The first session cookie from `from` on.
pub open spec fn session_from(list: Seq<BrowserCookie>, from: int) -> Option<Seq<char>>
    decreases list.len() - from,
{
    if from < 0 || from >= list.len() {
        None
    } else if is_session(list[from]) {
        Some(list[from].value@)
    } else {
        session_from(list, from + 1)
    }
}

/// The VPN's session among a browser's cookies.
pub fn current_mrhsession(list: &Vec<BrowserCookie>) -> (r: Option<String>)
    ensures
        opt_text(r) == session_from(list@, 0),
{
    let mut i: usize = 0;
    while i < list.len()
        invariant
            i <= list@.len(),
            session_from(list@, 0) == session_from(list@, i as int),
        decreases list@.len() - i,
    {
        let c = &list[i];
        if same(c.name.as_str(), COOKIE_NAME) && c.value.as_str().unicode_len() > 0 {
            return Some(c.value.as_str().to_owned());
        }
        i = i + 1;
    }
    None
}

// ── Laws ─────────────────────────────────────────────────────────────────

/// A cookie counts as accepted exactly on a success code, and as rejected
/// exactly on a redirect or 404: neither a redirect nor a failing server ever
/// counts as acceptance, and a failure to reach the VPN never as rejection.
pub proof fn law_redirects_and_outages(code: Option<u16>)
    ensures
        status_of(code) == CookieStatus::Valid <==> (code matches Some(c) && 200 <= c <= 299),
        status_of(code) == CookieStatus::Invalid <==> (code matches Some(c) && (300 <= c <= 399
            || c == 404)),
        code is None ==> status_of(code) == CookieStatus::NetworkError,
{
}

/// A cookie that is found is a session cookie of the list, and none before it
/// is one.
pub proof fn law_first_session_is_found(list: Seq<BrowserCookie>, value: Seq<char>)
    requires
        session_from(list, 0) == Some(value),
    ensures
        exists|i: int|
            0 <= i < list.len() && #[trigger] is_session(list[i]) && list[i].value@ == value
                && forall|j: int| 0 <= j < i ==> !is_session(list[j]),
{
    lemma_session_from(list, 0, value);
}

proof fn lemma_session_from(list: Seq<BrowserCookie>, from: int, value: Seq<char>)
    requires
        0 <= from,
        session_from(list, from) == Some(value),
    ensures
        exists|i: int|
            from <= i < list.len() && #[trigger] is_session(list[i]) && list[i].value@ == value
                && forall|j: int| from <= j < i ==> !is_session(list[j]),
    decreases list.len() - from,
{
    if is_session(list[from]) {
    } else {
        lemma_session_from(list, from + 1, value);
        let i = choose|i: int|
            from + 1 <= i < list.len() && #[trigger] is_session(list[i]) && list[i].value@ == value
                && forall|j: int| from + 1 <= j < i ==> !is_session(list[j]);
        assert(from <= i < list.len() && is_session(list[i]));
    }
}

proof fn lemma_no_session(list: Seq<BrowserCookie>, from: int)
    requires
        0 <= from,
        session_from(list, from) is None,
    ensures
        forall|i: int| from <= i < list.len() ==> !is_session(#[trigger] list[i]),
    decreases list.len() - from,
{
    if from < list.len() {
        lemma_no_session(list, from + 1);
        assert forall|i: int| from <= i < list.len() implies !is_session(#[trigger] list[i]) by {
            if i > from {
                assert(from + 1 <= i);
            }
        }
    }
}

/// The browser's session is found wherever it stands: nothing is found only
/// where no cookie of the list is an `MRHSession` that holds something, and
/// what is found is the value of the first that is.
pub proof fn law_session_is_never_missed(list: Vec<BrowserCookie>, r: Option<String>)
    requires
        call_ensures(current_mrhsession, (&list,), r),
    ensures
        r is None <==> forall|i: int|
            0 <= i < list@.len() ==> !((#[trigger] list@[i]).name@ == "MRHSession"@
                && list@[i].value@.len() > 0),
        r matches Some(value) ==> exists|i: int|
            0 <= i < list@.len() && (#[trigger] list@[i]).name@ == "MRHSession"@
                && list@[i].value@.len() > 0 && list@[i].value@ == value@ && forall|j: int|
                0 <= j < i ==> !((#[trigger] list@[j]).name@ == "MRHSession"@
                    && list@[j].value@.len() > 0),
{
    if r is None {
        lemma_no_session(list@, 0);
        assert forall|i: int| 0 <= i < list@.len() implies !((#[trigger] list@[i]).name@
            == "MRHSession"@ && list@[i].value@.len() > 0) by {
            assert(!is_session(list@[i]));
        }
    } else {
        let value = r->0@;
        law_first_session_is_found(list@, value);
        let i = choose|i: int|
            0 <= i < list@.len() && #[trigger] is_session(list@[i]) && list@[i].value@ == value
                && forall|j: int| 0 <= j < i ==> !is_session(list@[j]);
        assert forall|j: int| 0 <= j < i implies !((#[trigger] list@[j]).name@ == "MRHSession"@
            && list@[j].value@.len() > 0) by {
            assert(!is_session(list@[j]));
        }
        assert(list@[i].name@ == "MRHSession"@);
    }
}

proof fn lemma_without_slashes(s: Seq<char>) -> (k: int)
    ensures
        0 <= k <= s.len(),
        without_slashes(s) == s.take(k),
        k > 0 ==> s[k - 1] != '/',
        forall|i: int| k <= i < s.len() ==> #[trigger] s[i] == '/',
    decreases s.len(),
{
    if s.len() > 0 && s.last() == '/' {
        let rest = s.drop_last();
        let k = lemma_without_slashes(rest);
        assert(rest.take(k) =~= s.take(k));
        assert(k > 0 ==> rest[k - 1] == s[k - 1]);
        assert forall|i: int| k <= i < s.len() implies #[trigger] s[i] == '/' by {
            if i < rest.len() {
                assert(rest[i] == s[i]);
            }
        }
        k
    } else {
        assert(s.take(s.len() as int) =~= s);
        s.len() as int
    }
}

/// The VPN is asked at its probe path, whatever its configured address: the
/// address without the slashes at its end, and the path behind it. The request
/// carries the cookie, follows no redirect and uses no proxy.
pub proof fn law_vpn_is_asked_at_its_probe_path(
    cfg: FileConfig,
    url: Seq<char>,
    cookie: &str,
    r: CookieRequest,
)
    requires
        call_ensures(validate_cookie, (&cfg, cookie), r),
        url == (match cfg.vpn_url {
            Some(u) => u@,
            None => Seq::empty(),
        }),
    ensures
        exists|k: int|
            0 <= k <= url.len() && r.url@ == #[trigger] url.take(k)
                + "/vdesk/vpn/index.php3?outform=xml"@ && (k > 0 ==> url[k - 1] != '/') && forall|
                i: int,
            |
                k <= i < url.len() ==> #[trigger] url[i] == '/',
        url.len() > 0 && url.last() != '/' ==> r.url@ == url + "/vdesk/vpn/index.php3?outform=xml"@,
        r.header@ == "MRHSession="@ + cookie@,
        r.user_agent@ == "vpn-jumphost-cookie-check"@,
        r.timeout_secs == 10,
        !r.follow_redirects,
        !r.use_proxy,
{
    law_text_settings_are_their_fields(cfg, DEFAULT_VPN_URL@);
    reveal_strlit("");
    assert(DEFAULT_VPN_URL@ =~= Seq::empty());
    let k = lemma_without_slashes(url);
    assert(r.url@ == url.take(k) + "/vdesk/vpn/index.php3?outform=xml"@);
    if url.len() > 0 && url.last() != '/' {
        if k < url.len() {
            assert(url[url.len() - 1] == '/');
        }
        assert(url.take(k) =~= url);
    }
    reveal_strlit("MRHSession=");
    reveal_strlit("MRHSession");
    reveal_strlit("=");
    assert("MRHSession"@ + "="@ =~= "MRHSession="@);
}

/// A file settles the matter only where it holds nothing but white space, or
/// cannot be read; else the VPN is asked about its contents without the white
/// space round them.
pub proof fn law_only_an_empty_file_settles_it(contents: Option<&str>, r: FileCheck)
    requires
        call_ensures(validate_file, (contents,), r),
    ensures
        contents is None ==> r == FileCheck::Known(CookieStatus::Invalid),
        contents matches Some(c) ==> {
            &&& trimmed(c@).len() == 0 ==> r == FileCheck::Known(CookieStatus::Invalid)
            &&& trimmed(c@).len() > 0 ==> (r matches FileCheck::Ask(cookie) && cookie@ == trimmed(
                c@,
            ))
        },
{
}

/// The answer's code decides: accepted on a success code, rejected on a
/// redirect and on 404, and undecided on anything else and without an answer.
/// The exit code tells the three apart.
pub proof fn law_answers_and_exit_codes(code: Option<u16>, r: CookieStatus, exit: u8)
    requires
        call_ensures(cookie_status, (code,), r),
        call_ensures(validation_exit_code, (r,), exit),
    ensures
        exit == 0 <==> (code matches Some(c) && c / 100 == 2),
        exit == 1 <==> (code matches Some(c) && (c / 100 == 3 || c == 404)),
        exit <= 2,
        COOKIE_FILE_MODE == 0o600,
        r == CookieStatus::Valid <==> exit == 0,
        r == CookieStatus::NetworkError <==> exit == 2,
{
}

} // verus!
