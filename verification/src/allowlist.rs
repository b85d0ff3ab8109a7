//! Outbound host and stdio allowlists, and the steps that record them.

use vstd::prelude::*;
use crate::json::{view_entries, Json, JsonValue};
use crate::report::{ProbeStep, ProbeStepStatus};
use crate::text::{decimal, is_ws, lowercase, opt_view, strings_view, trim};
use crate::urls::{parse_url, url_parse, UrlModel};

verus! {

/// Environment variable that enables the stdio transport.
pub const STDIO_ALLOW_ENV: &'static str = "MCP_PROBE_ALLOW_STDIO";

/// Environment variable that holds the outbound host allowlist.
pub const ALLOWED_HOSTS_ENV: &'static str = "MCP_PROBE_ALLOWED_HOSTS";

/// The hosts allowed when no list is configured: the local machine.
pub open spec fn default_hosts() -> Seq<Seq<char>> {
    seq!["localhost"@, "127.0.0.1"@, "::1"@]
}

fn default_allowed_hosts() -> (r: Vec<String>)
    ensures
        strings_view(r@) == default_hosts(),
{
    let mut v: Vec<String> = Vec::new();
    v.push(String::from_str("localhost"));
    v.push(String::from_str("127.0.0.1"));
    v.push(String::from_str("::1"));
    assert(strings_view(v@) =~= default_hosts());
    v
}

/// A setting reads as on unless it is `0`, `false`, `no` or `off`
/// (trimmed, in any case).
pub open spec fn truthy(value: Seq<char>) -> bool {
    let n = lowercase(trim(value));
    !(n == "0"@ || n == "false"@ || n == "no"@ || n == "off"@)
}

/// Whether a setting reads as on.
pub fn is_truthy(value: &str) -> (r: bool)
    ensures
        r == truthy(value@),
{
    let t = crate::text::trim_str(value);
    let n = crate::text::to_lowercase(t.as_str());
    let s = n.as_str();
    !(crate::text::str_eq(s, "0") || crate::text::str_eq(s, "false") || crate::text::str_eq(s, "no")
        || crate::text::str_eq(s, "off"))
}

/// Whether stdio is explicitly enabled, given the value of
/// `MCP_PROBE_ALLOW_STDIO`: only when it is set, not blank, and truthy. It is
/// off by default, so an empty or all-whitespace value leaves it off.
pub fn is_stdio_allowed(raw: Option<&str>) -> (r: bool)
    ensures
        r == match raw {
            Some(v) => trim(v@).len() > 0 && truthy(v@),
            None => false,
        },
{
    match raw {
        Some(v) => {
            let t = crate::text::trim_str(v);
            crate::text::chars_of(t.as_str()).len() > 0 && is_truthy(v)
        },
        None => false,
    }
}

/// A character that separates hosts in the allowlist setting.
pub open spec fn host_sep(c: char) -> bool {
    c == ',' || is_ws(c)
}

/// The entries of an allowlist setting from position `i`, `cur` read so
/// far: runs of non-separators, trimmed, blank ones dropped.
pub open spec fn host_scan(s: Seq<char>, i: int, cur: Seq<char>) -> Seq<Seq<char>>
    decreases s.len() - i,
{
    let flushed = if trim(cur).len() == 0 {
        Seq::<Seq<char>>::empty()
    } else {
        seq![trim(cur)]
    };
    if i >= s.len() {
        flushed
    } else if host_sep(s[i]) {
        flushed + host_scan(s, i + 1, Seq::empty())
    } else {
        host_scan(s, i + 1, cur.push(s[i]))
    }
}

/// The allowlist a setting gives: the local hosts when it is unset or
/// blank, none (the setting names no host) when it lists nothing, else its
/// entries.
pub open spec fn allowed_hosts_from(raw: Option<Seq<char>>) -> Option<Seq<Seq<char>>> {
    match raw {
        None => Some(default_hosts()),
        Some(v) => if trim(v).len() == 0 {
            Some(default_hosts())
        } else if host_scan(v, 0, Seq::empty()).len() == 0 {
            None
        } else {
            Some(host_scan(v, 0, Seq::empty()))
        },
    }
}

fn flush_host(hosts: &mut Vec<String>, cur: &mut Vec<char>)
    ensures
        strings_view(final(hosts)@) == strings_view(old(hosts)@) + if trim(old(cur)@).len() == 0 {
            Seq::<Seq<char>>::empty()
        } else {
            seq![trim(old(cur)@)]
        },
        final(cur)@.len() == 0,
{
    let ghost before = hosts@;
    let t = crate::text::trim_chars(cur.as_slice());
    if t.len() > 0 {
        hosts.push(crate::text::string_of(t.as_slice()));
        assert(strings_view(hosts@) =~= strings_view(before).push(trim(old(cur)@)));
    } else {
        assert(strings_view(hosts@) =~= strings_view(before));
    }
    *cur = Vec::new();
}

/// Parse the outbound host allowlist, given the value of
/// `MCP_PROBE_ALLOWED_HOSTS`; it defaults to the local machine when unset
/// or blank.
pub fn parse_allowed_hosts_env(raw: Option<&str>) -> (r: Option<Vec<String>>)
    ensures
        match r {
            Some(v) => allowed_hosts_from(opt_str(raw)) == Some(strings_view(v@)),
            None => allowed_hosts_from(opt_str(raw)) is None,
        },
{
    let value = match raw {
        None => {
            return Some(default_allowed_hosts());
        },
        Some(v) => v,
    };
    if crate::text::is_blank_str(value) {
        return Some(default_allowed_hosts());
    }
    let cs = crate::text::chars_of(value);
    let mut hosts: Vec<String> = Vec::new();
    let mut cur: Vec<char> = Vec::new();
    let mut i: usize = 0;
    proof {
        assert(strings_view(hosts@) =~= Seq::<Seq<char>>::empty());
        assert(cur@ =~= Seq::<char>::empty());
    }
    while i < cs.len()
        invariant
            i <= cs@.len(),
            cs@ == value@,
            strings_view(hosts@) + host_scan(cs@, i as int, cur@) == host_scan(value@, 0, Seq::empty()),
        decreases cs@.len() - i,
    {
        let c = cs[i];
        if c == ',' || crate::text::is_ws_exec(c) {
            let ghost prev = strings_view(hosts@);
            let ghost pc = cur@;
            flush_host(&mut hosts, &mut cur);
            proof {
                assert(cur@ =~= Seq::<char>::empty());
                assert(prev + host_scan(cs@, i as int, pc) =~= strings_view(hosts@) + host_scan(cs@, i + 1, cur@));
            }
        } else {
            cur.push(c);
        }
        i = i + 1;
    }
    let ghost prev = strings_view(hosts@);
    let ghost pc = cur@;
    flush_host(&mut hosts, &mut cur);
    proof {
        assert(prev + host_scan(cs@, i as int, pc) =~= strings_view(hosts@));
    }
    if hosts.len() == 0 {
        None
    } else {
        Some(hosts)
    }
}

/// An optional text as plain values.
pub open spec fn opt_str(o: Option<&str>) -> Option<Seq<char>> {
    match o {
        Some(s) => Some(s@),
        None => None,
    }
}

/// An optional list as plain values.
pub open spec fn opt_hosts(o: Option<&[String]>) -> Option<Seq<Seq<char>>> {
    match o {
        Some(l) => Some(strings_view(l@)),
        None => None,
    }
}

/// A parsed URL's host, empty when it has none.
pub open spec fn host_of(f: UrlModel) -> Seq<char> {
    match f.host {
        Some(h) => h,
        None => Seq::empty(),
    }
}

/// A parsed URL's `host:port` (the port or the scheme's default), or its
/// host when there is no port.
pub open spec fn host_with_port(f: UrlModel) -> Seq<char> {
    match f.port {
        Some(p) => host_of(f) + ":"@ + decimal(p as nat),
        None => host_of(f),
    }
}

/// A URL is allowed when there is no list or an empty one, or when it
/// parses and some entry names its host, its `host:port` or its origin.
pub open spec fn host_allowed(url: Seq<char>, allowed: Option<Seq<Seq<char>>>) -> bool {
    match allowed {
        None => true,
        Some(list) => list.len() == 0 || match url_parse(url) {
            Err(_) => false,
            Ok(f) => exists|i: int|
                0 <= i < list.len() && (#[trigger] list[i] == host_of(f) || list[i] == host_with_port(f)
                    || list[i] == f.origin),
        },
    }
}

/// Check whether a URL matches the host allowlist.
#[verifier::loop_isolation(false)]
pub fn is_host_allowed(url: &str, allowed_hosts: Option<&[String]>) -> (r: bool)
    ensures
        r == host_allowed(url@, opt_hosts(allowed_hosts)),
{
    let allowed = match allowed_hosts {
        None => {
            return true;
        },
        Some(a) => a,
    };
    if allowed.len() == 0 {
        return true;
    }
    let f = match parse_url(url) {
        Err(_) => {
            return false;
        },
        Ok(f) => f,
    };
    let ghost fm = crate::urls::facts_view(f);
    assert(url_parse(url@) == Ok::<UrlModel, Seq<char>>(fm));
    let hostname = match &f.host {
        Some(h) => h.clone(),
        None => String::new(),
    };
    let hp = match f.port {
        Some(p) => {
            let mut s = hostname.clone();
            s.append(":");
            s.append(crate::text::fmt_u64(p as u64).as_str());
            s
        },
        None => hostname.clone(),
    };
    assert(hostname@ == host_of(fm));
    assert(hp@ == host_with_port(fm));
    let mut i: usize = 0;
    while i < allowed.len()
        invariant
            i <= allowed@.len(),
            hostname@ == host_of(fm),
            hp@ == host_with_port(fm),
            f.origin@ == fm.origin,
            forall|j: int|
                0 <= j < i ==> !(#[trigger] strings_view(allowed@)[j] == host_of(fm) || strings_view(allowed@)[j]
                    == host_with_port(fm) || strings_view(allowed@)[j] == fm.origin),
        decreases allowed@.len() - i,
    {
        let e = allowed[i].as_str();
        if crate::text::str_eq(e, hostname.as_str()) || crate::text::str_eq(e, hp.as_str())
            || crate::text::str_eq(e, f.origin.as_str()) {
            proof {
                let list = strings_view(allowed@);
                assert(list[i as int] == allowed@[i as int]@);
                assert(list[i as int] == host_of(fm) || list[i as int] == host_with_port(fm) || list[i as int] == fm.origin);
                assert(opt_hosts(allowed_hosts) == Some(list));
            }
            return true;
        }
        i = i + 1;
    }
    proof {
        assert(opt_hosts(allowed_hosts) == Some(strings_view(allowed@)));
    }
    false
}

/// Ensure a URL's host is permitted by the allowlist.
pub fn ensure_host_allowed(url: &str, allowed_hosts: Option<&[String]>, label: &str) -> (r: Result<(), String>)
    ensures
        match r {
            Ok(_) => host_allowed(url@, opt_hosts(allowed_hosts)),
            Err(m) => !host_allowed(url@, opt_hosts(allowed_hosts)) && m@ == label@
                + " host is not in the allowlist"@,
        },
{
    if !is_host_allowed(url, allowed_hosts) {
        let mut m = String::from_str(label);
        m.append(" host is not in the allowlist");
        return Err(m);
    }
    Ok(())
}

fn step(name: &str, ok: bool, detail: Option<&str>, data: Option<JsonValue>) -> (r: ProbeStep)
    ensures
        r.name@ == name@,
        r.status == (if ok {
            ProbeStepStatus::Passed
        } else {
            ProbeStepStatus::Error
        }),
        opt_view(r.detail) == opt_str(detail),
        r.data == data,
{
    ProbeStep {
        name: String::from_str(name),
        status: if ok {
            ProbeStepStatus::Passed
        } else {
            ProbeStepStatus::Error
        },
        detail: match detail {
            Some(d) => Some(String::from_str(d)),
            None => None,
        },
        data,
    }
}

/// The stdio allowlist step: it passes when stdio is enabled, and fails
/// with how to enable it otherwise.
pub open spec fn stdio_step_matches(s: ProbeStep, allowed: bool) -> bool {
    &&& s.name@ == "stdio.allowlist"@
    &&& s.status == (if allowed {
        ProbeStepStatus::Passed
    } else {
        ProbeStepStatus::Error
    })
    &&& opt_view(s.detail) == (if allowed {
        None
    } else {
        Some("stdio transport disabled. Set MCP_PROBE_ALLOW_STDIO=1 to enable."@)
    })
    &&& s.data is None
}

/// Enforce the stdio allowlist (`stdio_allowed` as `is_stdio_allowed`
/// reads the environment) and record a step for stdio targets. True when
/// the target may proceed.
pub fn enforce_stdio_allowlist(transport: &str, steps: &mut Vec<ProbeStep>, stdio_allowed: bool) -> (r: bool)
    ensures
        transport@ != "stdio"@ ==> r && final(steps)@ == old(steps)@,
        transport@ == "stdio"@ ==> r == stdio_allowed && final(steps)@.len() == old(steps)@.len() + 1
            && final(steps)@.drop_last() == old(steps)@ && stdio_step_matches(final(steps)@.last(), stdio_allowed),
{
    if !crate::text::str_eq(transport, "stdio") {
        return true;
    }
    let ghost before = steps@;
    if stdio_allowed {
        steps.push(step("stdio.allowlist", true, None, None));
        assert(steps@.drop_last() =~= before);
        return true;
    }
    steps.push(step("stdio.allowlist", false, Some("stdio transport disabled. Set MCP_PROBE_ALLOW_STDIO=1 to enable."), None));
    assert(steps@.drop_last() =~= before);
    false
}

/// The host allowlist step of a probe target, and whether it may proceed:
/// stdio targets and targets without a configured list pass; an HTTP
/// target needs a URL that is allowed; a refused URL is reported as
/// malformed when it does not parse and by its host otherwise.
pub open spec fn host_check(
    transport: Seq<char>,
    url: Option<Seq<char>>,
    allowed: Option<Seq<Seq<char>>>,
    configured: bool,
) -> (bool, Option<Seq<char>>, Option<Json>) {
    if transport == "stdio"@ {
        (true, Some("not applicable"@), None)
    } else if allowed is None || allowed->0.len() == 0 {
        (true, Some("not configured"@), None)
    } else {
        match url {
            None => (false, Some("Missing target URL"@), None),
            Some(u) => if host_allowed(u, allowed) {
                (true, if configured { None } else { Some("default (localhost only)"@) }, None)
            } else {
                match url_parse(u) {
                    Err(e) => (
                        false,
                        Some("Malformed target URL"@),
                        Some(Json::Object(seq![
                            ("code"@, Json::Str("url_malformed"@)),
                            ("endpoint"@, Json::Str("target"@)),
                            ("error"@, Json::Str(e)),
                            ("url"@, Json::Str(u)),
                        ])),
                    ),
                    Ok(f) => {
                        let host = match f.host {
                            Some(h) => h,
                            None => "unknown"@,
                        };
                        (
                            false,
                            Some("Host not allowed: "@ + host),
                            Some(Json::Object(seq![
                                ("code"@, Json::Str("host_not_allowed"@)),
                                ("host"@, Json::Str(host)),
                                ("url"@, Json::Str(u)),
                            ])),
                        )
                    },
                }
            },
        }
    }
}

fn object_of(entries: Vec<(String, JsonValue)>) -> (r: JsonValue)
    ensures
        r@ == Json::Object(view_entries(entries@)),
{
    JsonValue::Object(entries)
}

fn str_member(key: &str, value: &str) -> (r: (String, JsonValue))
    ensures
        r.0@ == key@,
        r.1@ == Json::Str(value@),
{
    (String::from_str(key), JsonValue::String(String::from_str(value)))
}

/// Enforce the host allowlist for a probe target and record a step;
/// `allowlist_configured` says whether `MCP_PROBE_ALLOWED_HOSTS` is set.
/// True when the target may proceed.
pub fn enforce_host_allowlist(
    transport: &str,
    url: Option<&str>,
    steps: &mut Vec<ProbeStep>,
    allowed_hosts: Option<&[String]>,
    allowlist_configured: bool,
) -> (r: bool)
    ensures
        final(steps)@.len() == old(steps)@.len() + 1,
        final(steps)@.drop_last() == old(steps)@,
        ({
            let (ok, detail, data) = host_check(transport@, opt_str(url), opt_hosts(allowed_hosts), allowlist_configured);
            let s = final(steps)@.last();
            &&& r == ok
            &&& s.name@ == "host.allowlist"@
            &&& s.status == (if ok {
                ProbeStepStatus::Passed
            } else {
                ProbeStepStatus::Error
            })
            &&& opt_view(s.detail) == detail
            &&& match s.data {
                Some(d) => data == Some(d@),
                None => data is None,
            }
        }),
{
    let ghost before = steps@;
    if crate::text::str_eq(transport, "stdio") {
        steps.push(step("host.allowlist", true, Some("not applicable"), None));
        assert(steps@.drop_last() =~= before);
        return true;
    }
    let allowed = match allowed_hosts {
        None => {
            steps.push(step("host.allowlist", true, Some("not configured"), None));
            assert(steps@.drop_last() =~= before);
            return true;
        },
        Some(a) => a,
    };
    if allowed.len() == 0 {
        steps.push(step("host.allowlist", true, Some("not configured"), None));
        assert(steps@.drop_last() =~= before);
        return true;
    }
    let url = match url {
        None => {
            steps.push(step("host.allowlist", false, Some("Missing target URL"), None));
            assert(steps@.drop_last() =~= before);
            return false;
        },
        Some(u) => u,
    };
    if !is_host_allowed(url, Some(allowed)) {
        match parse_url(url) {
            Err(e) => {
                let mut m: Vec<(String, JsonValue)> = Vec::new();
                m.push(str_member("code", "url_malformed"));
                m.push(str_member("endpoint", "target"));
                m.push(str_member("error", e.as_str()));
                m.push(str_member("url", url));
                proof {
                    crate::json::lemma_view_entries(m@);
                    assert(view_entries(m@) =~= seq![
                        ("code"@, Json::Str("url_malformed"@)),
                        ("endpoint"@, Json::Str("target"@)),
                        ("error"@, Json::Str(e@)),
                        ("url"@, Json::Str(url@)),
                    ]);
                }
                steps.push(step("host.allowlist", false, Some("Malformed target URL"), Some(object_of(m))));
            },
            Ok(f) => {
                let host = match &f.host {
                    Some(h) => h.clone(),
                    None => String::from_str("unknown"),
                };
                let mut detail = String::from_str("Host not allowed: ");
                detail.append(host.as_str());
                let mut m: Vec<(String, JsonValue)> = Vec::new();
                m.push(str_member("code", "host_not_allowed"));
                m.push(str_member("host", host.as_str()));
                m.push(str_member("url", url));
                proof {
                    crate::json::lemma_view_entries(m@);
                    assert(view_entries(m@) =~= seq![
                        ("code"@, Json::Str("host_not_allowed"@)),
                        ("host"@, Json::Str(host@)),
                        ("url"@, Json::Str(url@)),
                    ]);
                }
                steps.push(step("host.allowlist", false, Some(detail.as_str()), Some(object_of(m))));
            },
        }
        assert(steps@.drop_last() =~= before);
        return false;
    }
    if allowlist_configured {
        steps.push(step("host.allowlist", true, None, None));
    } else {
        steps.push(step("host.allowlist", true, Some("default (localhost only)"), None));
    }
    assert(steps@.drop_last() =~= before);
    true
}

/// The step that checks an expected auth challenge was seen: it passes
/// when the first `auth.prm` step passed with a detail other than
/// `no auth required` and `not applicable`.
pub open spec fn prm_challenged(steps: Seq<ProbeStep>) -> bool {
    exists|i: int|
        0 <= i < steps.len() && (#[trigger] steps[i]).name@ == "auth.prm"@ && (forall|j: int|
            0 <= j < i ==> steps[j].name@ != "auth.prm"@) && steps[i].status == ProbeStepStatus::Passed
            && opt_view(steps[i].detail) != Some("no auth required"@) && opt_view(steps[i].detail) != Some(
            "not applicable"@,
        )
}

/// Add an expect-auth-required check to probe steps when an auth
/// challenge is expected.
pub fn apply_expect_auth_required(steps: &mut Vec<ProbeStep>, expect_auth_required: Option<bool>)
    ensures
        expect_auth_required != Some(true) ==> final(steps)@ == old(steps)@,
        expect_auth_required == Some(true) ==> ({
            let ok = prm_challenged(old(steps)@);
            let s = final(steps)@.last();
            &&& final(steps)@.len() == old(steps)@.len() + 1
            &&& final(steps)@.drop_last() == old(steps)@
            &&& s.name@ == "expect.auth_required"@
            &&& s.status == (if ok {
                ProbeStepStatus::Passed
            } else {
                ProbeStepStatus::Error
            })
            &&& opt_view(s.detail) == (if ok {
                None
            } else {
                Some("Expected an auth challenge but none was detected"@)
            })
            &&& s.data is None
        }),
{
    if expect_auth_required != Some(true) {
        return;
    }
    let mut i: usize = 0;
    while i < steps.len() && !crate::text::str_eq(steps[i].name.as_str(), "auth.prm")
        invariant
            i <= steps@.len(),
            forall|j: int| 0 <= j < i ==> steps@[j].name@ != "auth.prm"@,
        decreases steps@.len() - i,
    {
        i = i + 1;
    }
    let ok = if i < steps.len() {
        let s = &steps[i];
        s.status == ProbeStepStatus::Passed && !crate::text::opt_str_eq(&s.detail, "no auth required")
            && !crate::text::opt_str_eq(&s.detail, "not applicable")
    } else {
        false
    };
    proof {
        if prm_challenged(steps@) {
            let k = choose|k: int|
                0 <= k < steps@.len() && (#[trigger] steps@[k]).name@ == "auth.prm"@ && (forall|j: int|
                    0 <= j < k ==> steps@[j].name@ != "auth.prm"@) && steps@[k].status == ProbeStepStatus::Passed
                    && opt_view(steps@[k].detail) != Some("no auth required"@) && opt_view(steps@[k].detail)
                    != Some("not applicable"@);
            assert(k == i);
        }
    }
    let ghost before = steps@;
    if ok {
        steps.push(step("expect.auth_required", true, None, None));
    } else {
        steps.push(step("expect.auth_required", false, Some("Expected an auth challenge but none was detected"), None));
    }
    assert(steps@.drop_last() =~= before);
}

} // verus!
