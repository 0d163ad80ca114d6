//! The PAC script and the server that hands it out.
use jumphost::config::{direct_domains, proxy_domains};
use jumphost::config_file::{DomainsConfig, FileConfig, RoutingProxyConfig};
use jumphost::pac::{build_condition_block, build_direct_rules, domain_condition, generate, handle};
use jumphost::routing::{route_for, Route};
use jumphost::socks::Target;

fn example() -> FileConfig {
    FileConfig {
        domains: Some(DomainsConfig {
            proxy: Some(vec!["example.com".to_string(), "*.corp.local".to_string()]),
            direct: Some(vec!["vpn.example.com".to_string(), "x.org".to_string()]),
        }),
        ..FileConfig::default()
    }
}

#[test]
fn pac_default_chain_format() {
    let pac = generate(&FileConfig::default());
    assert!(pac.contains("SOCKS5 127.0.0.1:1081; DIRECT"));
}

#[test]
fn pac_mentions_each_proxy_domain() {
    for cfg in [FileConfig::default(), example()] {
        let pac = generate(&cfg);
        for d in proxy_domains(&cfg) {
            assert!(pac.contains(d.as_str()), "PAC should reference {d}");
        }
    }
}

#[test]
fn pac_direct_domains_no_url_indexof() {
    for cfg in [FileConfig::default(), example()] {
        let pac = generate(&cfg);
        assert!(
            !pac.contains("url.indexOf"),
            "PAC should not contain url.indexOf checks"
        );
    }
}

#[test]
fn script_is_spelled_out() {
    let want = "function FindProxyForURL(url, host) {
  var proxy_chain = \"SOCKS5 127.0.0.1:1081; DIRECT\";

  // Always-DIRECT domains (e.g. VPN portal): checked before dnsResolve so a
  // broken VPN DNS cannot force these through the proxy.
  // Always-DIRECT: vpn.example.com, x.org
  if (host === \"vpn.example.com\" || dnsDomainIs(host, \".vpn.example.com\")) {
    return \"DIRECT\";
  }
  if (host === \"x.org\" || dnsDomainIs(host, \".x.org\")) {
    return \"DIRECT\";
  }

  if (
    host === \"example.com\" || dnsDomainIs(host, \".example.com\") ||
    shExpMatch(host, \"*.corp.local\")
  ) {
    return proxy_chain;
  }

  return \"DIRECT\";
}
";
    assert_eq!(generate(&example()), want);
}

#[test]
fn chain_follows_the_routing_proxy() {
    let cfg = FileConfig {
        routing_proxy: Some(RoutingProxyConfig { bind: Some("10.1.1.1".to_string()), port: Some(9) }),
        ..FileConfig::default()
    };
    assert!(generate(&cfg).contains("\"SOCKS5 10.1.1.1:9; DIRECT\""));
}

#[test]
fn script_agrees_with_routing() {
    let cfg = FileConfig {
        domains: Some(DomainsConfig {
            proxy: Some(vec!["example.com".to_string(), "corp.local".to_string()]),
            direct: Some(vec!["vpn.example.com".to_string()]),
        }),
        ..FileConfig::default()
    };
    // What the script's conditions mean, on the domains that it names.
    let holds = |host: &str, d: &str| host == d || host.ends_with(&format!(".{d}"));
    for host in [
        "example.com",
        "a.example.com",
        "vpn.example.com",
        "b.vpn.example.com",
        "notexample.com",
        "corp.local",
        "local",
        "",
    ] {
        let proxied = !direct_domains(&cfg).iter().any(|d| holds(host, d))
            && proxy_domains(&cfg).iter().any(|d| holds(host, d));
        let route = route_for(&cfg, &Target::Domain(host.to_string(), 443));
        assert_eq!(proxied, route == Route::Upstream, "{host}");
    }
}

#[test]
fn conditions_are_spelled_out() {
    assert_eq!(domain_condition("a.b"), "host === \"a.b\" || dnsDomainIs(host, \".a.b\")");
    assert_eq!(domain_condition("*.b"), "shExpMatch(host, \"*.b\")");
    assert_eq!(build_condition_block(&vec![]), "    false");
    assert_eq!(
        build_condition_block(&vec!["x".to_string(), "y".to_string()]),
        "    x ||\n    y"
    );
    assert_eq!(build_direct_rules(&vec![]), "");
}

#[test]
fn get_and_head_are_answered() {
    let cfg = example();
    let script = generate(&cfg);
    let get = handle("GET", &cfg);
    assert_eq!(get.status, 200);
    assert_eq!(get.body, script);
    let text = |h: &[(&'static str, String)]| {
        h.iter().map(|(k, v)| format!("{k}: {v}")).collect::<Vec<_>>()
    };
    let common = [
        "Content-Type: application/x-ns-proxy-autoconfig".to_string(),
        format!("Content-Length: {}", script.len()),
        "Cache-Control: no-store".to_string(),
    ];
    assert_eq!(text(&get.headers)[..3], common);
    assert_eq!(text(&get.headers)[3], "Content-Disposition: inline; filename=\"proxy.pac\"");
    let head = handle("HEAD", &cfg);
    assert_eq!((head.status, head.body.as_str()), (200, ""));
    assert_eq!(text(&head.headers), common);
}

#[test]
fn other_methods_are_turned_down() {
    for method in ["POST", "get", ""] {
        let r = handle(method, &FileConfig::default());
        assert_eq!(r.status, 405);
        assert_eq!(r.body, "Method Not Allowed\n");
        assert_eq!(r.headers, [("Allow", "GET, HEAD".to_string())]);
    }
}
