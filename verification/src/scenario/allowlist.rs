//! Host allowlist policy for scripted scenarios.

use vstd::prelude::*;
use crate::allowlist::{host_allowed, is_host_allowed, opt_hosts, opt_str};
use crate::report::{ProbeStep, ProbeStepStatus};
use crate::text::opt_view;
use crate::transport::TransportType;
use crate::urls::{parse_url, url_parse};

verus! {

/// The host allowlist step of a scenario, and whether it may proceed: as
/// for a probe target, but a refused host is reported by name alone
/// (`unknown` when the URL has none).
pub open spec fn scenario_host_check(
    transport: TransportType,
    url: Option<Seq<char>>,
    allowed: Option<Seq<Seq<char>>>,
    configured: bool,
) -> (bool, Option<Seq<char>>) {
    if transport == TransportType::Stdio {
        (true, Some("not applicable"@))
    } else if allowed is None || allowed->0.len() == 0 {
        (true, Some("not configured"@))
    } else {
        match url {
            None => (false, Some("Missing target URL"@)),
            Some(u) => if host_allowed(u, allowed) {
                (true, if configured { None } else { Some("default (localhost only)"@) })
            } else {
                let host = match url_parse(u) {
                    Ok(f) => match f.host {
                        Some(h) => h,
                        None => "unknown"@,
                    },
                    Err(_) => "unknown"@,
                };
                (false, Some("Host not allowed: "@ + host))
            },
        }
    }
}

fn push_step(steps: &mut Vec<ProbeStep>, ok: bool, detail: Option<String>)
    ensures
        final(steps)@.len() == old(steps)@.len() + 1,
        final(steps)@.drop_last() == old(steps)@,
        final(steps)@.last().name@ == "host.allowlist"@,
        final(steps)@.last().status == (if ok {
            ProbeStepStatus::Passed
        } else {
            ProbeStepStatus::Error
        }),
        opt_view(final(steps)@.last().detail) == opt_view(detail),
        final(steps)@.last().data is None,
{
    let ghost before = steps@;
    steps.push(
        ProbeStep {
            name: String::from_str("host.allowlist"),
            status: if ok {
                ProbeStepStatus::Passed
            } else {
                ProbeStepStatus::Error
            },
            detail,
            data: None,
        },
    );
    assert(steps@.drop_last() =~= before);
}

/// Enforce host allowlist policy for a scripted scenario and record a
/// step; `allowlist_configured` says whether `MCP_PROBE_ALLOWED_HOSTS` is
/// set. True when the scenario may proceed.
pub fn enforce_host_allowlist(
    transport: TransportType,
    url: Option<&str>,
    steps: &mut Vec<ProbeStep>,
    allowed_hosts: Option<&[String]>,
    allowlist_configured: bool,
) -> (r: bool)
    ensures
        final(steps)@.len() == old(steps)@.len() + 1,
        final(steps)@.drop_last() == old(steps)@,
        ({
            let (ok, detail) = scenario_host_check(transport, opt_str(url), opt_hosts(allowed_hosts), allowlist_configured);
            let s = final(steps)@.last();
            &&& r == ok
            &&& s.name@ == "host.allowlist"@
            &&& s.status == (if ok {
                ProbeStepStatus::Passed
            } else {
                ProbeStepStatus::Error
            })
            &&& opt_view(s.detail) == detail
            &&& s.data is None
        }),
{
    if transport == TransportType::Stdio {
        push_step(steps, true, Some(String::from_str("not applicable")));
        return true;
    }
    let allowed = match allowed_hosts {
        None => {
            push_step(steps, true, Some(String::from_str("not configured")));
            return true;
        },
        Some(a) => a,
    };
    if allowed.len() == 0 {
        push_step(steps, true, Some(String::from_str("not configured")));
        return true;
    }
    let url = match url {
        None => {
            push_step(steps, false, Some(String::from_str("Missing target URL")));
            return false;
        },
        Some(u) => u,
    };
    if !is_host_allowed(url, Some(allowed)) {
        let host = match parse_url(url) {
            Ok(f) => match f.host {
                Some(h) => h,
                None => String::from_str("unknown"),
            },
            Err(_) => String::from_str("unknown"),
        };
        let mut detail = String::from_str("Host not allowed: ");
        detail.append(host.as_str());
        push_step(steps, false, Some(detail));
        return false;
    }
    if allowlist_configured {
        push_step(steps, true, None);
    } else {
        push_step(steps, true, Some(String::from_str("default (localhost only)")));
    }
    true
}

} // verus!
