//! Proxy auto-configuration: the script that sends VPN domains to the routing
//! proxy, made from the same lists that the routing proxy goes by, and the
//! answers of the little server that hands it out.
use vstd::prelude::*;
use vstd::string::*;
use vstd::utf8::*;

use crate::config::{
    cfg_string, cfg_u16, direct_domains, direct_list, effective_port, effective_text,
    law_port_settings_are_their_fields, law_text_settings_are_their_fields, proxy_domains,
    proxy_list, DEFAULT_ROUTING_PROXY_BIND, DEFAULT_ROUTING_PROXY_PORT,
};
use crate::config_file::FileConfig;
use crate::domains::{any_match, domain_match, is_tunnelled};
use crate::text::{
    begins_with, chars_of, concat2, decimal, decimal_of, finishes_with, has_text, join, joined,
    lower, matches_at, occurs_at, same, string_from, texts,
};

verus! {

/// The content type by which browsers know a PAC file.
pub const PAC_CONTENT_TYPE: &'static str = "application/x-ns-proxy-autoconfig";

// ── The script ───────────────────────────────────────────────────────────

/// The script's condition for one domain: the host itself or a subdomain;
/// with a leading `*.`, subdomains only.
pub open spec fn condition_text(domain: Seq<char>) -> Seq<char> {
    if begins_with(domain, "*."@) {
        "shExpMatch(host, \"*."@ + domain.skip("*."@.len() as int) + "\")"@
    } else {
        "host === \""@ + domain + "\" || dnsDomainIs(host, \"."@ + domain + "\")"@
    }
}

/// The conditions of a list of domains.
pub open spec fn condition_texts(domains: Seq<Seq<char>>) -> Seq<Seq<char>> {
    domains.map_values(|d: Seq<char>| condition_text(d))
}

/// Conditions of which one has to hold, each on a line of its own.
pub open spec fn block_text(conditions: Seq<Seq<char>>) -> Seq<char> {
    if conditions.len() == 0 {
        "    false"@
    } else {
        joined(conditions.map_values(|c: Seq<char>| "    "@ + c), " ||\n"@)
    }
}

/// The rule that answers DIRECT for one domain.
pub open spec fn direct_rule_text(domain: Seq<char>) -> Seq<char> {
    "  if ("@ + condition_text(domain) + ") {\n    return \"DIRECT\";\n  }"@
}

/// The rules that answer DIRECT, one per domain.
pub open spec fn direct_rules_text(domains: Seq<Seq<char>>) -> Seq<char> {
    joined(domains.map_values(|d: Seq<char>| direct_rule_text(d)), "\n"@)
}

/// The proxies that the script names: the routing proxy, else none.
pub open spec fn chain_text(host: Seq<char>, port: u16) -> Seq<char> {
    "SOCKS5 "@ + host + ":"@ + decimal(port as nat) + "; DIRECT"@
}

/// The script up to the DIRECT rules.
pub open spec fn pac_head(chain: Seq<char>, direct: Seq<Seq<char>>) -> Seq<char> {
    "function FindProxyForURL(url, host) {\n  var proxy_chain = \""@ + chain
        + "\";\n\n  // Always-DIRECT domains (e.g. VPN portal): checked before dnsResolve so a\n  // broken VPN DNS cannot force these through the proxy.\n  // Always-DIRECT: "@
        + joined(direct, ", "@) + "\n"@
}

/// The whole script: DIRECT rules first, then the proxy for the listed
/// domains, then DIRECT for the rest.
pub open spec fn pac_text(
    chain: Seq<char>,
    direct: Seq<Seq<char>>,
    proxy: Seq<Seq<char>>,
) -> Seq<char> {
    pac_head(chain, direct) + direct_rules_text(direct) + "\n\n  if (\n"@ + block_text(
        condition_texts(proxy),
    ) + "\n  ) {\n    return proxy_chain;\n  }\n\n  return \"DIRECT\";\n}\n"@
}

/// The script for a configuration.
pub open spec fn pac_of(cfg: FileConfig) -> Seq<char> {
    pac_text(
        chain_text(
            effective_text(cfg, "ROUTING_PROXY_BIND"@, DEFAULT_ROUTING_PROXY_BIND@),
            effective_port(cfg, "ROUTING_PROXY_PORT"@, DEFAULT_ROUTING_PROXY_PORT),
        ),
        direct_list(cfg),
        proxy_list(cfg),
    )
}

/// The script's condition for one domain.
pub fn domain_condition(domain: &str) -> (r: String)
    ensures
        r@ == condition_text(domain@),
{
    let v = chars_of(domain);
    let mark = chars_of("*.");
    let mut out = String::new();
    if matches_at(&v, &mark, 0) {
        out.append("shExpMatch(host, \"*.");
        let rest = string_from(&v, mark.len(), v.len());
        assert(rest@ =~= domain@.skip(mark@.len() as int));
        out.append(rest.as_str());
        out.append("\")");
    } else {
        out.append("host === \"");
        out.append(domain);
        out.append("\" || dnsDomainIs(host, \".");
        out.append(domain);
        out.append("\")");
    }
    assert(out@ =~= condition_text(domain@));
    out
}

/// Conditions of which one has to hold, each on a line of its own.
pub fn build_condition_block(conditions: &Vec<String>) -> (r: String)
    ensures
        r@ == block_text(texts(conditions@)),
{
    if conditions.len() == 0 {
        return "    false".to_owned();
    }
    let ghost f = |c: Seq<char>| "    "@ + c;
    let ghost all = texts(conditions@).map_values(f);
    let mut lines: Vec<String> = Vec::new();
    let mut i: usize = 0;
    assert(texts(lines@) =~= all.take(0));
    while i < conditions.len()
        invariant
            i <= conditions@.len(),
            f == (|c: Seq<char>| "    "@ + c),
            all == texts(conditions@).map_values(f),
            texts(lines@) == all.take(i as int),
        decreases conditions@.len() - i,
    {
        let ghost before = lines@;
        lines.push(concat2("    ", conditions[i].as_str()));
        assert(lines@.last()@ == all[i as int]);
        assert(texts(lines@) =~= texts(before).push(all[i as int]));
        i = i + 1;
        assert(texts(lines@) =~= all.take(i as int));
    }
    assert(all.take(i as int) =~= all);
    join(&lines, " ||\n")
}

/// The rules that answer DIRECT, one per domain.
pub fn build_direct_rules(domains: &Vec<String>) -> (r: String)
    ensures
        r@ == direct_rules_text(texts(domains@)),
{
    let ghost f = |d: Seq<char>| direct_rule_text(d);
    let ghost all = texts(domains@).map_values(f);
    let mut blocks: Vec<String> = Vec::new();
    let mut i: usize = 0;
    assert(texts(blocks@) =~= all.take(0));
    while i < domains.len()
        invariant
            i <= domains@.len(),
            f == (|d: Seq<char>| direct_rule_text(d)),
            all == texts(domains@).map_values(f),
            texts(blocks@) == all.take(i as int),
        decreases domains@.len() - i,
    {
        let ghost before = blocks@;
        let mut rule = concat2("  if (", domain_condition(domains[i].as_str()).as_str());
        rule.append(") {\n    return \"DIRECT\";\n  }");
        blocks.push(rule);
        assert(blocks@.last()@ == all[i as int]);
        assert(texts(blocks@) =~= texts(before).push(all[i as int]));
        i = i + 1;
        assert(texts(blocks@) =~= all.take(i as int));
    }
    assert(all.take(i as int) =~= all);
    join(&blocks, "\n")
}

fn conditions_of(domains: &Vec<String>) -> (r: Vec<String>)
    ensures
        texts(r@) == condition_texts(texts(domains@)),
{
    let ghost all = condition_texts(texts(domains@));
    let mut out: Vec<String> = Vec::new();
    let mut i: usize = 0;
    assert(texts(out@) =~= all.take(0));
    while i < domains.len()
        invariant
            i <= domains@.len(),
            all == condition_texts(texts(domains@)),
            texts(out@) == all.take(i as int),
        decreases domains@.len() - i,
    {
        let ghost before = out@;
        out.push(domain_condition(domains[i].as_str()));
        assert(out@.last()@ == all[i as int]);
        assert(texts(out@) =~= texts(before).push(all[i as int]));
        i = i + 1;
        assert(texts(out@) =~= all.take(i as int));
    }
    assert(all.take(i as int) =~= all);
    out
}

/// The PAC script for the configuration.
pub fn generate(cfg: &FileConfig) -> (r: String)
    ensures
        r@ == pac_of(*cfg),
{
    let direct = direct_domains(cfg);
    let proxy = proxy_domains(cfg);
    let mut out = "function FindProxyForURL(url, host) {\n  var proxy_chain = \"".to_owned();
    out.append("SOCKS5 ");
    out.append(cfg_string(cfg, "ROUTING_PROXY_BIND", DEFAULT_ROUTING_PROXY_BIND).as_str());
    out.append(":");
    out.append(
        decimal_of(cfg_u16(cfg, "ROUTING_PROXY_PORT", DEFAULT_ROUTING_PROXY_PORT) as u128).as_str(),
    );
    out.append("; DIRECT");
    out.append(
        "\";\n\n  // Always-DIRECT domains (e.g. VPN portal): checked before dnsResolve so a\n  // broken VPN DNS cannot force these through the proxy.\n  // Always-DIRECT: ",
    );
    out.append(join(&direct, ", ").as_str());
    out.append("\n");
    out.append(build_direct_rules(&direct).as_str());
    out.append("\n\n  if (\n");
    out.append(build_condition_block(&conditions_of(&proxy)).as_str());
    out.append("\n  ) {\n    return proxy_chain;\n  }\n\n  return \"DIRECT\";\n}\n");
    assert(out@ =~= pac_of(*cfg));
    out
}

// ── The server's answers ─────────────────────────────────────────────────

/// An answer of the server.
#[derive(Debug)]
pub struct PacResponse {
    pub status: u16,
    pub headers: Vec<(&'static str, String)>,
    pub body: String,
}

/// An answer by its contents.
pub struct PacResponseView {
    pub status: u16,
    pub headers: Seq<(Seq<char>, Seq<char>)>,
    pub body: Seq<char>,
}

impl View for PacResponse {
    type V = PacResponseView;

    open spec fn view(&self) -> PacResponseView {
        PacResponseView {
            status: self.status,
            headers: self.headers@.map_values(|h: (&'static str, String)| (h.0@, h.1@)),
            body: self.body@,
        }
    }
}

/// The headers that come with the script, `len` bytes long.
pub open spec fn pac_headers(len: nat) -> Seq<(Seq<char>, Seq<char>)> {
    seq![
        ("Content-Type"@, PAC_CONTENT_TYPE@),
        ("Content-Length"@, decimal(len)),
        ("Cache-Control"@, "no-store"@),
    ]
}

/// The answer to a request, whatever its path: GET brings the script, HEAD
/// its headers, and any other method is turned down.
pub open spec fn response_of(method: Seq<char>, script: Seq<char>) -> PacResponseView {
    if method == "GET"@ {
        PacResponseView {
            status: 200,
            headers: pac_headers(encode_utf8(script).len()).push(
                ("Content-Disposition"@, "inline; filename=\"proxy.pac\""@),
            ),
            body: script,
        }
    } else if method == "HEAD"@ {
        PacResponseView {
            status: 200,
            headers: pac_headers(encode_utf8(script).len()),
            body: Seq::empty(),
        }
    } else {
        PacResponseView {
            status: 405,
            headers: seq![("Allow"@, "GET, HEAD"@)],
            body: "Method Not Allowed\n"@,
        }
    }
}

/// Answers a request with this method.
pub fn handle(method: &str, cfg: &FileConfig) -> (r: PacResponse)
    ensures
        r@ == response_of(method@, pac_of(*cfg)),
{
    let ghost f = |h: (&'static str, String)| (h.0@, h.1@);
    let get = same(method, "GET");
    if !get && !same(method, "HEAD") {
        let mut headers: Vec<(&'static str, String)> = Vec::new();
        headers.push(("Allow", "GET, HEAD".to_owned()));
        assert(headers@.map_values(f) =~= seq![("Allow"@, "GET, HEAD"@)]);
        return PacResponse { status: 405, headers, body: "Method Not Allowed\n".to_owned() };
    }
    let script = generate(cfg);
    let len: usize = script.as_str().as_bytes_vec().len();
    let mut headers: Vec<(&'static str, String)> = Vec::new();
    headers.push(("Content-Type", PAC_CONTENT_TYPE.to_owned()));
    headers.push(("Content-Length", decimal_of(len as u128)));
    headers.push(("Cache-Control", "no-store".to_owned()));
    assert(headers@.map_values(f) =~= pac_headers(encode_utf8(script@).len()));
    if get {
        let ghost before = headers@;
        headers.push(("Content-Disposition", "inline; filename=\"proxy.pac\"".to_owned()));
        assert(headers@.map_values(f) =~= before.map_values(f).push(
            ("Content-Disposition"@, "inline; filename=\"proxy.pac\""@),
        ));
        PacResponse { status: 200, headers, body: script }
    } else {
        let body = String::new();
        assert(body@ =~= Seq::empty());
        PacResponse { status: 200, headers, body }
    }
}

// ── Laws ─────────────────────────────────────────────────────────────────

/// What the script's condition for a domain means to a browser: the host is
/// the domain or ends with a dot and the domain; with a leading `*.`, the
/// latter only.
pub open spec fn condition_holds(host: Seq<char>, domain: Seq<char>) -> bool {
    if begins_with(domain, "*."@) {
        finishes_with(host, seq!['.'] + domain.skip(2))
    } else {
        host == domain || finishes_with(host, seq!['.'] + domain)
    }
}

/// A condition of the list holds.
pub open spec fn any_condition_holds(host: Seq<char>, domains: Seq<Seq<char>>) -> bool {
    exists|i: int| 0 <= i < domains.len() && condition_holds(host, #[trigger] domains[i])
}

/// A list that a browser compares as the routing proxy does: in lower case,
/// as host names reach the script, and without patterns.
pub open spec fn is_plain(domains: Seq<Seq<char>>) -> bool {
    forall|i: int|
        0 <= i < domains.len() ==> lower(#[trigger] domains[i]) == domains[i] && !begins_with(
            domains[i],
            "*."@,
        )
}

proof fn lemma_conditions_agree(host: Seq<char>, domains: Seq<Seq<char>>)
    requires
        lower(host) == host,
        is_plain(domains),
    ensures
        any_condition_holds(host, domains) == any_match(host, domains),
{
    assert forall|i: int| 0 <= i < domains.len() implies condition_holds(host, domains[i])
        == domain_match(host, #[trigger] domains[i]) by {
        assert(lower(domains[i]) == domains[i]);
    }
    if any_condition_holds(host, domains) {
        let i = choose|i: int|
            0 <= i < domains.len() && condition_holds(host, #[trigger] domains[i]);
        assert(domain_match(host, domains[i]));
    }
}

/// The script and the routing proxy agree: on a host in lower case and lists
/// of plain domains, the script's rules name the proxy exactly for the hosts
/// that go through the tunnel.
pub proof fn law_script_agrees_with_routing(
    host: Seq<char>,
    direct: Seq<Seq<char>>,
    proxy: Seq<Seq<char>>,
)
    requires
        lower(host) == host,
        is_plain(direct),
        is_plain(proxy),
    ensures
        (!any_condition_holds(host, direct) && any_condition_holds(host, proxy)) == is_tunnelled(
            host,
            direct,
            proxy,
        ),
{
    lemma_conditions_agree(host, direct);
    lemma_conditions_agree(host, proxy);
}

proof fn lemma_text_within(a: Seq<char>, s: Seq<char>, b: Seq<char>)
    ensures
        has_text(a + s + b, s),
{
    let all = a + s + b;
    assert(all.subrange(a.len() as int, a.len() + s.len() as int) =~= s);
    assert(occurs_at(all, s, a.len() as int));
}

proof fn lemma_has_text_inside(a: Seq<char>, s: Seq<char>, b: Seq<char>, needle: Seq<char>)
    requires
        has_text(s, needle),
    ensures
        has_text(a + s + b, needle),
{
    let i = choose|i: int| #[trigger] occurs_at(s, needle, i);
    let all = a + s + b;
    assert(all.subrange(a.len() + i, a.len() + i + needle.len() as int) =~= s.subrange(
        i,
        i + needle.len() as int,
    ));
    assert(occurs_at(all, needle, a.len() + i));
}

proof fn lemma_joined_has(list: Seq<Seq<char>>, sep: Seq<char>, i: int)
    requires
        0 <= i < list.len(),
    ensures
        has_text(joined(list, sep), list[i]),
    decreases list.len(),
{
    let e = Seq::<char>::empty();
    if list.len() == 1 {
        lemma_text_within(e, list[0], e);
        assert(e + list[0] + e =~= list[0]);
    } else if i == list.len() - 1 {
        let head = joined(list.drop_last(), sep) + sep;
        lemma_text_within(head, list[i], e);
        assert(head + list[i] + e =~= joined(list, sep));
    } else {
        lemma_joined_has(list.drop_last(), sep, i);
        assert(list.drop_last()[i] == list[i]);
        let tail = sep + list.last();
        lemma_has_text_inside(e, joined(list.drop_last(), sep), tail, list[i]);
        assert(e + joined(list.drop_last(), sep) + tail =~= joined(list, sep));
    }
}

proof fn lemma_condition_mentions(domain: Seq<char>)
    ensures
        has_text(condition_text(domain), domain),
{
    if begins_with(domain, "*."@) {
        reveal_strlit("*.");
        reveal_strlit("shExpMatch(host, \"*.");
        let head = "shExpMatch(host, \""@;
        reveal_strlit("shExpMatch(host, \"");
        assert("shExpMatch(host, \"*."@ =~= head + "*."@);
        assert(domain.take(2) =~= "*."@) by {
            assert(domain.subrange(0, 2) =~= domain.take(2));
        }
        assert("*."@ + domain.skip(2) =~= domain);
        lemma_text_within(head, domain, "\")"@);
        assert(condition_text(domain) =~= head + domain + "\")"@);
    } else {
        lemma_text_within("host === \""@, domain, "\" || dnsDomainIs(host, \"."@ + domain + "\")"@);
        assert(condition_text(domain) =~= "host === \""@ + domain + (
        "\" || dnsDomainIs(host, \"."@ + domain + "\")"@));
    }
}

/// The script mentions every domain of the proxy list.
pub proof fn law_script_mentions_each_proxy_domain(
    chain: Seq<char>,
    direct: Seq<Seq<char>>,
    proxy: Seq<Seq<char>>,
    i: int,
)
    requires
        0 <= i < proxy.len(),
    ensures
        has_text(pac_text(chain, direct, proxy), proxy[i]),
{
    let f = |c: Seq<char>| "    "@ + c;
    let conditions = condition_texts(proxy);
    let lines = conditions.map_values(f);
    let e = Seq::<char>::empty();
    lemma_condition_mentions(proxy[i]);
    lemma_has_text_inside("    "@, condition_text(proxy[i]), e, proxy[i]);
    assert("    "@ + condition_text(proxy[i]) + e =~= lines[i]);
    lemma_joined_has(lines, " ||\n"@, i);
    let block = block_text(conditions);
    // The line stands in the block, and the domain in the line.
    let k = choose|k: int| #[trigger] occurs_at(block, lines[i], k);
    let before = block.take(k);
    let after = block.skip(k + lines[i].len() as int);
    assert(block =~= before + lines[i] + after);
    lemma_has_text_inside(before, lines[i], after, proxy[i]);
    let head = pac_head(chain, direct) + direct_rules_text(direct) + "\n\n  if (\n"@;
    let tail = "\n  ) {\n    return proxy_chain;\n  }\n\n  return \"DIRECT\";\n}\n"@;
    lemma_has_text_inside(head, block, tail, proxy[i]);
    assert(head + block + tail =~= pac_text(chain, direct, proxy));
}

/// The script names the routing proxy's own address.
pub proof fn law_script_names_the_chain(
    chain: Seq<char>,
    direct: Seq<Seq<char>>,
    proxy: Seq<Seq<char>>,
)
    ensures
        has_text(pac_text(chain, direct, proxy), chain),
{
    let open = "function FindProxyForURL(url, host) {\n  var proxy_chain = \""@;
    let rest = pac_text(chain, direct, proxy).skip((open + chain).len() as int);
    assert(pac_text(chain, direct, proxy) =~= open + chain + rest);
    lemma_text_within(open, chain, rest);
}

/// The condition for one domain, as it stands in the script.
pub proof fn law_condition_as_written(domain: &str, r: String)
    requires
        call_ensures(domain_condition, (domain,), r),
    ensures
        !(domain@.len() >= 2 && domain@[0] == '*' && domain@[1] == '.') ==> r@ == "host === \""@
            + domain@ + "\" || dnsDomainIs(host, \"."@ + domain@ + "\")"@,
        domain@.len() >= 2 && domain@[0] == '*' && domain@[1] == '.' ==> r@
            == "shExpMatch(host, \""@ + domain@ + "\")"@,
{
    reveal_strlit("*.");
    reveal_strlit("shExpMatch(host, \"*.");
    reveal_strlit("shExpMatch(host, \"");
    let d = domain@;
    if d.len() >= 2 {
        assert(d.subrange(0, 2)[0] == d[0] && d.subrange(0, 2)[1] == d[1]);
        if d[0] == '*' && d[1] == '.' {
            assert(d.subrange(0, 2) =~= "*."@);
            assert("shExpMatch(host, \"*."@ + d.skip(2) =~= "shExpMatch(host, \""@ + d);
        }
    }
}

/// A line for a domain of the proxy list: four blanks and the condition.
pub open spec fn proxy_line(domain: Seq<char>) -> Seq<char> {
    "    "@ + condition_text(domain)
}

/// The script in two parts. The first names the routing proxy and holds one
/// DIRECT rule for every direct domain, the second sends a host to the proxy
/// on the condition of every proxy domain and answers DIRECT for the rest. So
/// direct domains come first, and no configured domain is left out.
pub proof fn law_script_has_a_rule_for_each_domain(
    cfg: FileConfig,
    script: String,
    direct: Vec<String>,
    proxy: Vec<String>,
    i: int,
    k: int,
)
    requires
        call_ensures(generate, (&cfg,), script),
        call_ensures(direct_domains, (&cfg,), direct),
        call_ensures(proxy_domains, (&cfg,), proxy),
    ensures
        exists|first: Seq<char>, second: Seq<char>|
            {
                &&& script@ == #[trigger] (first + second)
                &&& 0 <= i < direct@.len() ==> has_text(
                    first,
                    "  if ("@ + condition_text(direct@[i]@) + ") {\n    return \"DIRECT\";\n  }"@,
                )
                &&& 0 <= k < proxy@.len() ==> has_text(second, proxy_line(proxy@[k]@))
                &&& begins_with(second, "\n\n  if (\n"@)
                &&& finishes_with(
                    second,
                    "\n  ) {\n    return proxy_chain;\n  }\n\n  return \"DIRECT\";\n}\n"@,
                )
                &&& proxy@.len() == 0 ==> has_text(second, "    false"@)
            },
{
    let chain = chain_text(
        effective_text(cfg, "ROUTING_PROXY_BIND"@, DEFAULT_ROUTING_PROXY_BIND@),
        effective_port(cfg, "ROUTING_PROXY_PORT"@, DEFAULT_ROUTING_PROXY_PORT),
    );
    let d = direct_list(cfg);
    let p = proxy_list(cfg);
    assert(texts(direct@).len() == direct@.len());
    assert(texts(proxy@).len() == proxy@.len());
    let e = Seq::<char>::empty();
    let rules = direct_rules_text(d);
    let first = pac_head(chain, d) + rules;
    let open = "\n\n  if (\n"@;
    let close = "\n  ) {\n    return proxy_chain;\n  }\n\n  return \"DIRECT\";\n}\n"@;
    let block = block_text(condition_texts(p));
    let second = open + block + close;
    assert(script@ =~= first + second);
    if 0 <= i < direct@.len() {
        assert(texts(direct@)[i] == direct@[i]@);
        let list = d.map_values(|x: Seq<char>| direct_rule_text(x));
        lemma_joined_has(list, "\n"@, i);
        assert(list[i] == direct_rule_text(d[i]));
        lemma_has_text_inside(pac_head(chain, d), rules, e, list[i]);
        assert(pac_head(chain, d) + rules + e =~= first);
    }
    if 0 <= k < proxy@.len() {
        assert(texts(proxy@)[k] == proxy@[k]@);
        let f = |c: Seq<char>| "    "@ + c;
        let lines = condition_texts(p).map_values(f);
        lemma_joined_has(lines, " ||\n"@, k);
        assert(lines[k] == proxy_line(p[k]));
        lemma_has_text_inside(open, block, close, lines[k]);
    }
    if proxy@.len() == 0 {
        assert(condition_texts(p).len() == 0);
        lemma_text_within(open, block, close);
    }
    assert(second.subrange(0, open.len() as int) =~= open);
    assert(second.subrange(second.len() - close.len(), second.len() as int) =~= close);
}

/// The script names the routing proxy at its configured address, with DIRECT
/// behind it.
pub proof fn law_script_names_the_routing_proxy(cfg: FileConfig, script: String, host: Seq<char>, port: u16)
    requires
        call_ensures(generate, (&cfg,), script),
        host == (match cfg.routing_proxy {
            Some(t) => match t.bind {
                Some(b) => b@,
                None => "127.0.0.1"@,
            },
            None => "127.0.0.1"@,
        }),
        port == (match cfg.routing_proxy {
            Some(t) => match t.port {
                Some(p) => p,
                None => 1081u16,
            },
            None => 1081u16,
        }),
    ensures
        has_text(
            script@,
            "var proxy_chain = \"SOCKS5 "@ + host + ":"@ + decimal(port as nat) + "; DIRECT\";"@,
        ),
{
    law_text_settings_are_their_fields(cfg, "127.0.0.1"@);
    law_port_settings_are_their_fields(cfg, 1081);
    let wanted = "var proxy_chain = \"SOCKS5 "@ + host + ":"@ + decimal(port as nat)
        + "; DIRECT\";"@;
    let a = "function FindProxyForURL(url, host) {\n  "@;
    reveal_strlit("function FindProxyForURL(url, host) {\n  ");
    reveal_strlit("function FindProxyForURL(url, host) {\n  var proxy_chain = \"");
    reveal_strlit("SOCKS5 ");
    reveal_strlit("var proxy_chain = \"SOCKS5 ");
    reveal_strlit("; DIRECT");
    reveal_strlit("; DIRECT\";");
    reveal_strlit(
        "\";\n\n  // Always-DIRECT domains (e.g. VPN portal): checked before dnsResolve so a\n  // broken VPN DNS cannot force these through the proxy.\n  // Always-DIRECT: ",
    );
    let open = "function FindProxyForURL(url, host) {\n  var proxy_chain = \""@;
    assert(open + "SOCKS5 "@ =~= a + "var proxy_chain = \"SOCKS5 "@);
    let n = a.len() + wanted.len();
    let rest = script@.skip(n as int);
    assert(script@ =~= a + wanted + rest);
    lemma_text_within(a, wanted, rest);
}

/// What a browser gets: the script with its length, type and no leave to keep
/// it on GET, the same headers without a body on HEAD, and a refusal on any
/// other method.
pub proof fn law_pac_answers(method: &str, cfg: FileConfig, r: PacResponse, script: String)
    requires
        call_ensures(handle, (method, &cfg), r),
        call_ensures(generate, (&cfg,), script),
    ensures
        r.status == 200 <==> method@ == "GET"@ || method@ == "HEAD"@,
        r.status == 200 || r.status == 405,
        method@ == "GET"@ ==> r.body@ == script@,
        r.status == 200 && method@ != "GET"@ ==> r.body@.len() == 0,
        r.status == 200 ==> {
            &&& r@.headers.len() == if method@ == "GET"@ {
                4nat
            } else {
                3nat
            }
            &&& r@.headers[0] == ("Content-Type"@, "application/x-ns-proxy-autoconfig"@)
            &&& r@.headers[1] == ("Content-Length"@, decimal(encode_utf8(script@).len()))
            &&& r@.headers[2] == ("Cache-Control"@, "no-store"@)
            &&& method@ == "GET"@ ==> r@.headers[3] == (
                "Content-Disposition"@,
                "inline; filename=\"proxy.pac\""@,
            )
        },
        r.status == 405 ==> r@.headers == seq![("Allow"@, "GET, HEAD"@)] && r.body@
            == "Method Not Allowed\n"@,
{
}

/// The conditions of the proxy domains are alternatives: one line for each, in
/// their order, with nothing but an "or" between each two; and likewise the
/// DIRECT rules follow each other, one for each direct domain.
pub proof fn law_conditions_are_alternatives(
    cfg: FileConfig,
    script: String,
    direct: Vec<String>,
    proxy: Vec<String>,
)
    requires
        call_ensures(generate, (&cfg,), script),
        call_ensures(direct_domains, (&cfg,), direct),
        call_ensures(proxy_domains, (&cfg,), proxy),
    ensures
        ({
            let lines = Seq::new(proxy@.len(), |k: int| proxy_line(proxy@[k]@));
            let rules = Seq::new(
                direct@.len(),
                |k: int|
                    "  if ("@ + condition_text(direct@[k]@)
                        + ") {\n    return \"DIRECT\";\n  }"@,
            );
            let close = "\n  ) {\n    return proxy_chain;\n  }\n\n  return \"DIRECT\";\n}\n"@;
            &&& proxy@.len() > 0 ==> finishes_with(
                script@,
                "\n"@ + joined(rules, "\n"@) + "\n\n  if (\n"@ + joined(lines, " ||\n"@) + close,
            )
            &&& proxy@.len() == 0 ==> finishes_with(
                script@,
                "\n"@ + joined(rules, "\n"@) + "\n\n  if (\n"@ + "    false"@ + close,
            )
        }),
{
    let d = direct_list(cfg);
    let p = proxy_list(cfg);
    assert(texts(direct@).len() == direct@.len());
    assert(texts(proxy@).len() == proxy@.len());
    let lines = Seq::new(proxy@.len(), |k: int| proxy_line(proxy@[k]@));
    let rules = Seq::new(
        direct@.len(),
        |k: int| "  if ("@ + condition_text(direct@[k]@) + ") {\n    return \"DIRECT\";\n  }"@,
    );
    let close = "\n  ) {\n    return proxy_chain;\n  }\n\n  return \"DIRECT\";\n}\n"@;
    assert forall|k: int| 0 <= k < p.len() implies #[trigger] p[k] == proxy@[k]@ by {
        assert(texts(proxy@)[k] == proxy@[k]@);
    }
    assert forall|k: int| 0 <= k < d.len() implies #[trigger] d[k] == direct@[k]@ by {
        assert(texts(direct@)[k] == direct@[k]@);
    }
    assert(condition_texts(p).map_values(|c: Seq<char>| "    "@ + c) =~= lines);
    assert(d.map_values(|x: Seq<char>| direct_rule_text(x)) =~= rules);
    let tail = "\n"@ + joined(rules, "\n"@) + "\n\n  if (\n"@ + block_text(condition_texts(p))
        + close;
    assert(script@.subrange(script@.len() - tail.len(), script@.len() as int) =~= tail);
    assert(proxy@.len() == 0 ==> condition_texts(p).len() == 0);
}

} // verus!
