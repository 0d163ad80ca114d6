//! Domain patterns: the one rule by which the routing proxy, the PAC file
//! and the probe output tell VPN hosts from the rest.
use vstd::prelude::*;

use crate::text::{
    chars_of, ends_with, finishes_with, lower, lower_char, lower_chars, same_chars, texts,
};

verus! {

/// `host` is `pattern` or a subdomain of it, whatever the case of their
/// ASCII letters.
pub open spec fn domain_match(host: Seq<char>, pattern: Seq<char>) -> bool {
    ||| lower(host) == lower(pattern)
    ||| finishes_with(lower(host), seq!['.'] + lower(pattern))
}

/// `host` matches one of `patterns`.
pub open spec fn any_match(host: Seq<char>, patterns: Seq<Seq<char>>) -> bool {
    exists|i: int| 0 <= i < patterns.len() && domain_match(host, #[trigger] patterns[i])
}

/// `host` goes through the tunnel: no pattern of the direct list covers it,
/// and one of the proxy list does.
pub open spec fn is_tunnelled(
    host: Seq<char>,
    direct: Seq<Seq<char>>,
    proxy: Seq<Seq<char>>,
) -> bool {
    !any_match(host, direct) && any_match(host, proxy)
}

/// Whether `hostname` is `pattern` or a subdomain of it, case-insensitively.
pub fn domain_matches(hostname: &str, pattern: &str) -> (r: bool)
    ensures
        r == domain_match(hostname@, pattern@),
{
    let h = lower_chars(&chars_of(hostname));
    let p = lower_chars(&chars_of(pattern));
    if same_chars(&h, &p) {
        return true;
    }
    let mut dotted: Vec<char> = vec!['.'];
    let mut i: usize = 0;
    assert(dotted@ =~= seq!['.'] + p@.take(0));
    while i < p.len()
        invariant
            i <= p@.len(),
            dotted@ == seq!['.'] + p@.take(i as int),
        decreases p@.len() - i,
    {
        dotted.push(p[i]);
        i = i + 1;
        assert(dotted@ =~= seq!['.'] + p@.take(i as int));
    }
    assert(p@.take(p@.len() as int) == p@);
    ends_with(&h, &dotted)
}

/// Whether `hostname` matches one of `patterns`.
pub fn matches_any(hostname: &str, patterns: &Vec<String>) -> (r: bool)
    ensures
        r == any_match(hostname@, texts(patterns@)),
{
    let mut i: usize = 0;
    while i < patterns.len()
        invariant
            i <= patterns@.len(),
            forall|j: int|
                0 <= j < i ==> !domain_match(hostname@, #[trigger] texts(patterns@)[j]),
        decreases patterns@.len() - i,
    {
        assert(texts(patterns@)[i as int] == patterns@[i as int]@);
        if domain_matches(hostname, patterns[i].as_str()) {
            return true;
        }
        i = i + 1;
    }
    false
}

/// Whether `hostname` goes through the tunnel. The direct list is asked
/// first.
pub fn goes_through_tunnel(
    hostname: &str,
    direct: &Vec<String>,
    proxy: &Vec<String>,
) -> (r: bool)
    ensures
        r == is_tunnelled(hostname@, texts(direct@), texts(proxy@)),
{
    !matches_any(hostname, direct) && matches_any(hostname, proxy)
}

/// Making a text small twice is making it small once.
pub proof fn lemma_lower_twice(s: Seq<char>)
    ensures
        lower(lower(s)) == lower(s),
{
    assert forall|i: int| 0 <= i < s.len() implies lower(lower(s))[i] == lower(s)[i] by {
        assert(lower_char(lower_char(s[i])) == lower_char(s[i]));
    }
    assert(lower(lower(s)) =~= lower(s));
}

/// The case of ASCII letters plays no part in matching, in the host or in
/// the pattern.
pub proof fn law_match_ignores_case(host: Seq<char>, pattern: Seq<char>)
    ensures
        domain_match(lower(host), pattern) == domain_match(host, pattern),
        domain_match(host, lower(pattern)) == domain_match(host, pattern),
{
    lemma_lower_twice(host);
    lemma_lower_twice(pattern);
}

/// A pattern matches itself.
pub proof fn law_pattern_matches_itself(pattern: Seq<char>)
    ensures
        domain_match(pattern, pattern),
{
}

/// A pattern matches every subdomain.
pub proof fn law_pattern_matches_subdomains(prefix: Seq<char>, pattern: Seq<char>)
    ensures
        domain_match(prefix + seq!['.'] + pattern, pattern),
{
    let host = prefix + seq!['.'] + pattern;
    let tail = seq!['.'] + lower(pattern);
    assert(lower_char('.') == '.');
    assert(lower(host) =~= lower(prefix) + tail);
    assert(lower(host).subrange(lower(prefix).len() as int, lower(host).len() as int) =~= tail);
}

/// A host that merely ends with the letters of a pattern does not match it:
/// in a longer host that matches, the pattern is preceded by a dot.
pub proof fn law_match_is_at_a_dot(host: Seq<char>, pattern: Seq<char>)
    requires
        domain_match(host, pattern),
        host.len() > pattern.len(),
    ensures
        host[host.len() - pattern.len() - 1] == '.',
{
    let at = host.len() - pattern.len() - 1;
    let tail = seq!['.'] + lower(pattern);
    assert(lower(host).len() == host.len());
    assert(lower(host).subrange(at, at + tail.len())[0] == tail[0]);
    assert(lower(host)[at] == lower_char(host[at]));
}

/// The direct list has the higher priority: a host that it covers is never
/// tunnelled.
pub proof fn law_direct_list_wins(
    host: Seq<char>,
    direct: Seq<Seq<char>>,
    proxy: Seq<Seq<char>>,
)
    requires
        any_match(host, direct),
    ensures
        !is_tunnelled(host, direct, proxy),
{
}

/// A host that neither list covers is not tunnelled.
pub proof fn law_unlisted_hosts_are_direct(
    host: Seq<char>,
    direct: Seq<Seq<char>>,
    proxy: Seq<Seq<char>>,
)
    requires
        !any_match(host, proxy),
    ensures
        !is_tunnelled(host, direct, proxy),
{
}

/// Two characters are the same but for the case of an ASCII letter.
pub open spec fn same_letter(a: char, b: char) -> bool {
    ||| a == b
    ||| 'A' <= a <= 'Z' && b as u32 == a as u32 + 32
    ||| 'A' <= b <= 'Z' && a as u32 == b as u32 + 32
}

/// Two texts are the same but for the case of their ASCII letters.
pub open spec fn same_letters(a: Seq<char>, b: Seq<char>) -> bool {
    a.len() == b.len() && forall|i: int| 0 <= i < a.len() ==> same_letter(#[trigger] a[i], b[i])
}

/// A host is a domain, or ends with a dot and the domain, but for the case of
/// ASCII letters.
pub open spec fn is_within(host: Seq<char>, domain: Seq<char>) -> bool {
    ||| same_letters(host, domain)
    ||| host.len() > domain.len() && host[host.len() - domain.len() - 1] == '.' && same_letters(
        host.skip(host.len() - domain.len()),
        domain,
    )
}

/// Two texts are the same but for the case of their ASCII letters exactly if
/// they are the same once these are made small.
pub proof fn lemma_same_letters(a: Seq<char>, b: Seq<char>)
    ensures
        same_letters(a, b) <==> lower(a) == lower(b),
{
    if same_letters(a, b) {
        assert forall|i: int| 0 <= i < a.len() implies lower(a)[i] == lower(b)[i] by {
            assert(same_letter(a[i], b[i]));
        }
        assert(lower(a) =~= lower(b));
    }
    if lower(a) == lower(b) {
        assert(lower(a).len() == a.len() && lower(b).len() == b.len());
        assert forall|i: int| 0 <= i < a.len() implies same_letter(#[trigger] a[i], b[i]) by {
            assert(lower(a)[i] == lower_char(a[i]));
            assert(lower(b)[i] == lower_char(b[i]));
        }
    }
}

/// A pattern matches exactly the hosts that are its domain or end with a dot
/// and its domain, whatever the case of their ASCII letters.
pub proof fn law_match_is_domain_or_subdomain(host: Seq<char>, pattern: Seq<char>)
    ensures
        domain_match(host, pattern) <==> is_within(host, pattern),
{
    lemma_same_letters(host, pattern);
    let tail = seq!['.'] + lower(pattern);
    let n = host.len() - pattern.len();
    if n > 0 {
        let rest = host.skip(n);
        lemma_same_letters(rest, pattern);
        assert(lower(host).subrange(n - 1, lower(host).len() as int) =~= seq![lower_char(host[n - 1])]
            + lower(rest));
        let got = lower(host).subrange(n - 1, n - 1 + tail.len());
        if finishes_with(lower(host), tail) {
            assert(got == tail);
            assert(got[0] == lower_char(host[n - 1]));
            assert(tail.skip(1) =~= lower(pattern));
            assert(got.skip(1) =~= lower(rest));
        }
        if is_within(host, pattern) && !same_letters(host, pattern) {
            assert(got =~= tail);
        }
    }
}

/// The decision of the lists, as the program takes it: through the tunnel
/// exactly for a host that is within some domain of the proxy list and within
/// none of the direct list.
pub proof fn law_every_listed_domain_counts(
    host: &str,
    direct: Vec<String>,
    proxy: Vec<String>,
    r: bool,
)
    requires
        call_ensures(goes_through_tunnel, (host, &direct, &proxy), r),
    ensures
        r <==> (exists|i: int| 0 <= i < proxy@.len() && is_within(host@, (#[trigger] proxy@[i])@))
            && !(exists|i: int| 0 <= i < direct@.len() && is_within(
            host@,
            (#[trigger] direct@[i])@,
        )),
{
    lemma_lists(host@, direct@);
    lemma_lists(host@, proxy@);
}

/// A host matches a list exactly if it is within one of its domains.
pub proof fn lemma_lists(host: Seq<char>, list: Seq<String>)
    ensures
        any_match(host, texts(list)) <==> exists|i: int|
            0 <= i < list.len() && is_within(host, (#[trigger] list[i])@),
{
    let t = texts(list);
    if any_match(host, t) {
        let i = choose|i: int| 0 <= i < t.len() && domain_match(host, #[trigger] t[i]);
        law_match_is_domain_or_subdomain(host, t[i]);
        assert(list[i]@ == t[i]);
        assert(is_within(host, list[i]@));
    }
    if exists|i: int| 0 <= i < list.len() && is_within(host, (#[trigger] list[i])@) {
        let i = choose|i: int| 0 <= i < list.len() && is_within(host, (#[trigger] list[i])@);
        law_match_is_domain_or_subdomain(host, list[i]@);
        assert(t[i] == list[i]@);
        assert(domain_match(host, t[i]));
    }
}

/// Matching as the program does it: one pattern, and a list of them.
pub proof fn law_matching(host: &str, pattern: &str, one: bool, list: Vec<String>, any: bool)
    requires
        call_ensures(domain_matches, (host, pattern), one),
        call_ensures(matches_any, (host, &list), any),
    ensures
        one <==> is_within(host@, pattern@),
        any <==> exists|i: int| 0 <= i < list@.len() && is_within(host@, (#[trigger] list@[i])@),
{
    law_match_is_domain_or_subdomain(host@, pattern@);
    lemma_lists(host@, list@);
}

} // verus!
