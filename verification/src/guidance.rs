//! Remediation hints derived from probe errors and failed steps.

use vstd::prelude::*;
use crate::report::{ProbeStep, ProbeStepStatus};
use crate::text::{contains_ci, contains_ci_exec, join_strings, join_with, opt_view, str_eq, strings_view};

verus! {

/// Add a hint unless it is already present.
#[verifier::opaque]
pub open spec fn with_hint(hints: Seq<Seq<char>>, hint: Seq<char>) -> Seq<Seq<char>> {
    if hints.contains(hint) {
        hints
    } else {
        hints.push(hint)
    }
}

/// Add `hint` to `hints` unless it is already present.
#[verifier::loop_isolation(false)]
pub fn add_hint(hints: &mut Vec<String>, hint: &str)
    ensures
        strings_view(final(hints)@) == with_hint(strings_view(old(hints)@), hint@),
{
    proof {
        reveal(with_hint);
    }
    let ghost before = strings_view(hints@);
    let mut i: usize = 0;
    while i < hints.len()
        invariant
            i <= hints@.len(),
            before == strings_view(hints@),
            forall|j: int| 0 <= j < i ==> hints@[j]@ != hint@,
        decreases hints@.len() - i,
    {
        if str_eq(hints[i].as_str(), hint) {
            assert(before[i as int] == hint@);
            return;
        }
        i = i + 1;
    }
    proof {
        if before.contains(hint@) {
            let k = choose|k: int| 0 <= k < before.len() && before[k] == hint@;
            assert(hints@[k]@ == hint@);
        }
    }
    hints.push(String::from_str(hint));
    proof {
        assert(strings_view(hints@) =~= before.push(hint@));
    }
}

/// `hints` with `hint` added when `cond` holds.
pub open spec fn hint_if(hints: Seq<Seq<char>>, cond: bool, hint: Seq<char>) -> Seq<Seq<char>> {
    if cond {
        with_hint(hints, hint)
    } else {
        hints
    }
}

/// The text triggers the `auth_required` hint.
pub open spec fn rule_auth_required(t: Seq<char>) -> bool {
    (contains_ci(t, "missing token"@)) || (contains_ci(t, "missing bearer"@)) || (contains_ci(t, "auth.missing_token"@))
}

/// The text triggers the `auth_cache` hint.
pub open spec fn rule_auth_cache(t: Seq<char>) -> bool {
    (contains_ci(t, "no cached tokens found"@)) || (contains_ci(t, "cached access token has expired"@))
}

/// The text triggers the `auth_sources` hint.
pub open spec fn rule_auth_sources(t: Seq<char>) -> bool {
    (contains_ci(t, "specify only one auth source"@))
}

/// The text triggers the `refresh_required` hint.
pub open spec fn rule_refresh_required(t: Seq<char>) -> bool {
    (contains_ci(t, "refresh_token is required"@))
}

/// The text triggers the `client_id` hint.
pub open spec fn rule_client_id(t: Seq<char>) -> bool {
    (contains_ci(t, "client_id is required to refresh tokens"@))
}

/// The text triggers the `refresh_http` hint.
pub open spec fn rule_refresh_http(t: Seq<char>) -> bool {
    (contains_ci(t, "refresh_token auth is only supported for http transports"@))
}

/// The text triggers the `token_path` hint.
pub open spec fn rule_token_path(t: Seq<char>) -> bool {
    (contains_ci(t, "token path is outside the allowed directory"@))
}

/// The text triggers the `host` hint.
pub open spec fn rule_host(t: Seq<char>) -> bool {
    (contains_ci(t, "host is not in the allowlist"@)) || (contains_ci(t, "host not allowed"@))
}

/// The text triggers the `malformed` hint.
pub open spec fn rule_malformed(t: Seq<char>) -> bool {
    (contains_ci(t, "malformed"@) && contains_ci(t, "url"@))
}

/// The text triggers the `stdio` hint.
pub open spec fn rule_stdio(t: Seq<char>) -> bool {
    (contains_ci(t, "stdio transport disabled"@))
}

/// The text triggers the `prm_missing` hint.
pub open spec fn rule_prm_missing(t: Seq<char>) -> bool {
    (contains_ci(t, "oauth metadata"@) && contains_ci(t, "404"@)) || (contains_ci(t, "auth.prm"@) && contains_ci(t, "404"@)) || (contains_ci(t, "resource_metadata"@) && contains_ci(t, "404"@))
}

/// The text triggers the `resource_metadata` hint.
pub open spec fn rule_resource_metadata(t: Seq<char>) -> bool {
    (contains_ci(t, "missing resource_metadata"@))
}

/// The text triggers the `transport_closed` hint.
pub open spec fn rule_transport_closed(t: Seq<char>) -> bool {
    (contains_ci(t, "transport closed"@))
}

/// The text triggers the `issuer` hint.
pub open spec fn rule_issuer(t: Seq<char>) -> bool {
    (contains_ci(t, "issuer does not match"@))
}

/// The hints an error message calls for, in rule order.
pub open spec fn error_hints(m: Seq<char>) -> Seq<Seq<char>> {
    let h = Seq::<Seq<char>>::empty();
    let h = hint_if(h, rule_auth_required(m), "Auth required: pass access_token (Bearer token) or (HTTP only) refresh_token + client_id. If the probe server has cached tokens for this URL, set use_auth: true."@);
    let h = hint_if(h, rule_auth_cache(m), "Auth cache missing or expired: pass access_token or (HTTP only) refresh_token + client_id. access_token_path/refresh_token_path are also supported if token files are available on the probe server."@);
    let h = hint_if(h, rule_auth_sources(m), "Auth sources are mutually exclusive. Choose one: use_auth (cached), access_token/access_token_path, or refresh_token/refresh_token_path."@);
    let h = hint_if(h, rule_refresh_required(m), "Provide refresh_token directly or via refresh_token_path (JSON with refresh_token)."@);
    let h = hint_if(h, rule_client_id(m), "Provide client_id when using refresh_token (either argument or inside refresh_token_path JSON)."@);
    let h = hint_if(h, rule_refresh_http(m), "refresh_token auth only works with HTTP transports (sse/streamable-http). For stdio, pass access_token/access_token_path."@);
    let h = hint_if(h, rule_token_path(m), "Token file path is outside the probe server token directory (restricted for safety)."@);
    let h = hint_if(h, rule_host(m), "Host blocked by probe allowlist. Use an allowed host (often localhost) or ask the probe operator to allow the target host."@);
    let h = hint_if(h, rule_malformed(m), "Malformed URL: use an absolute HTTP(S) URL with scheme + host, for example `http://127.0.0.1:8002/mcp`."@);
    let h = hint_if(h, rule_stdio(m), "stdio transport is disabled by probe policy. Use sse/streamable-http, or ask the probe operator to enable stdio."@);
    let h = hint_if(h, rule_prm_missing(m), "Server appears to be missing PRM discovery. Ensure it serves `/.well-known/oauth-protected-resource` and returns WWW-Authenticate resource_metadata."@);
    let h = hint_if(h, rule_resource_metadata(m), "WWW-Authenticate should include resource_metadata for PRM discovery. Add the header and ensure the URL is reachable."@);
    let h = hint_if(h, rule_transport_closed(m), "Transport closed often means the target server crashed or wrote non-JSON-RPC output. Try trace:true for diagnostics; for stdio servers, ensure logs go to stderr (not stdout)."@);
    h
}

/// Build common guidance hints from an error message.
pub fn build_common_guidance_from_error(message: &str) -> (r: Vec<String>)
    ensures
        strings_view(r@) == error_hints(message@),
{
    let mut hints: Vec<String> = Vec::new();
    let ghost h = Seq::<Seq<char>>::empty();
    proof {
        assert(strings_view(hints@) =~= h);
    }
    if (contains_ci_exec(message, "missing token")) || (contains_ci_exec(message, "missing bearer")) || (contains_ci_exec(message, "auth.missing_token")) {
        add_hint(&mut hints, "Auth required: pass access_token (Bearer token) or (HTTP only) refresh_token + client_id. If the probe server has cached tokens for this URL, set use_auth: true.");
    }
    proof {
        h = hint_if(h, rule_auth_required(message@), "Auth required: pass access_token (Bearer token) or (HTTP only) refresh_token + client_id. If the probe server has cached tokens for this URL, set use_auth: true."@);
    }
    assert(strings_view(hints@) == h);
    if (contains_ci_exec(message, "no cached tokens found")) || (contains_ci_exec(message, "cached access token has expired")) {
        add_hint(&mut hints, "Auth cache missing or expired: pass access_token or (HTTP only) refresh_token + client_id. access_token_path/refresh_token_path are also supported if token files are available on the probe server.");
    }
    proof {
        h = hint_if(h, rule_auth_cache(message@), "Auth cache missing or expired: pass access_token or (HTTP only) refresh_token + client_id. access_token_path/refresh_token_path are also supported if token files are available on the probe server."@);
    }
    assert(strings_view(hints@) == h);
    if (contains_ci_exec(message, "specify only one auth source")) {
        add_hint(&mut hints, "Auth sources are mutually exclusive. Choose one: use_auth (cached), access_token/access_token_path, or refresh_token/refresh_token_path.");
    }
    proof {
        h = hint_if(h, rule_auth_sources(message@), "Auth sources are mutually exclusive. Choose one: use_auth (cached), access_token/access_token_path, or refresh_token/refresh_token_path."@);
    }
    assert(strings_view(hints@) == h);
    if (contains_ci_exec(message, "refresh_token is required")) {
        add_hint(&mut hints, "Provide refresh_token directly or via refresh_token_path (JSON with refresh_token).");
    }
    proof {
        h = hint_if(h, rule_refresh_required(message@), "Provide refresh_token directly or via refresh_token_path (JSON with refresh_token)."@);
    }
    assert(strings_view(hints@) == h);
    if (contains_ci_exec(message, "client_id is required to refresh tokens")) {
        add_hint(&mut hints, "Provide client_id when using refresh_token (either argument or inside refresh_token_path JSON).");
    }
    proof {
        h = hint_if(h, rule_client_id(message@), "Provide client_id when using refresh_token (either argument or inside refresh_token_path JSON)."@);
    }
    assert(strings_view(hints@) == h);
    if (contains_ci_exec(message, "refresh_token auth is only supported for http transports")) {
        add_hint(&mut hints, "refresh_token auth only works with HTTP transports (sse/streamable-http). For stdio, pass access_token/access_token_path.");
    }
    proof {
        h = hint_if(h, rule_refresh_http(message@), "refresh_token auth only works with HTTP transports (sse/streamable-http). For stdio, pass access_token/access_token_path."@);
    }
    assert(strings_view(hints@) == h);
    if (contains_ci_exec(message, "token path is outside the allowed directory")) {
        add_hint(&mut hints, "Token file path is outside the probe server token directory (restricted for safety).");
    }
    proof {
        h = hint_if(h, rule_token_path(message@), "Token file path is outside the probe server token directory (restricted for safety)."@);
    }
    assert(strings_view(hints@) == h);
    if (contains_ci_exec(message, "host is not in the allowlist")) || (contains_ci_exec(message, "host not allowed")) {
        add_hint(&mut hints, "Host blocked by probe allowlist. Use an allowed host (often localhost) or ask the probe operator to allow the target host.");
    }
    proof {
        h = hint_if(h, rule_host(message@), "Host blocked by probe allowlist. Use an allowed host (often localhost) or ask the probe operator to allow the target host."@);
    }
    assert(strings_view(hints@) == h);
    if (contains_ci_exec(message, "malformed") && contains_ci_exec(message, "url")) {
        add_hint(&mut hints, "Malformed URL: use an absolute HTTP(S) URL with scheme + host, for example `http://127.0.0.1:8002/mcp`.");
    }
    proof {
        h = hint_if(h, rule_malformed(message@), "Malformed URL: use an absolute HTTP(S) URL with scheme + host, for example `http://127.0.0.1:8002/mcp`."@);
    }
    assert(strings_view(hints@) == h);
    if (contains_ci_exec(message, "stdio transport disabled")) {
        add_hint(&mut hints, "stdio transport is disabled by probe policy. Use sse/streamable-http, or ask the probe operator to enable stdio.");
    }
    proof {
        h = hint_if(h, rule_stdio(message@), "stdio transport is disabled by probe policy. Use sse/streamable-http, or ask the probe operator to enable stdio."@);
    }
    assert(strings_view(hints@) == h);
    if (contains_ci_exec(message, "oauth metadata") && contains_ci_exec(message, "404")) || (contains_ci_exec(message, "auth.prm") && contains_ci_exec(message, "404")) || (contains_ci_exec(message, "resource_metadata") && contains_ci_exec(message, "404")) {
        add_hint(&mut hints, "Server appears to be missing PRM discovery. Ensure it serves `/.well-known/oauth-protected-resource` and returns WWW-Authenticate resource_metadata.");
    }
    proof {
        h = hint_if(h, rule_prm_missing(message@), "Server appears to be missing PRM discovery. Ensure it serves `/.well-known/oauth-protected-resource` and returns WWW-Authenticate resource_metadata."@);
    }
    assert(strings_view(hints@) == h);
    if (contains_ci_exec(message, "missing resource_metadata")) {
        add_hint(&mut hints, "WWW-Authenticate should include resource_metadata for PRM discovery. Add the header and ensure the URL is reachable.");
    }
    proof {
        h = hint_if(h, rule_resource_metadata(message@), "WWW-Authenticate should include resource_metadata for PRM discovery. Add the header and ensure the URL is reachable."@);
    }
    assert(strings_view(hints@) == h);
    if (contains_ci_exec(message, "transport closed")) {
        add_hint(&mut hints, "Transport closed often means the target server crashed or wrote non-JSON-RPC output. Try trace:true for diagnostics; for stdio servers, ensure logs go to stderr (not stdout).");
    }
    proof {
        h = hint_if(h, rule_transport_closed(message@), "Transport closed often means the target server crashed or wrote non-JSON-RPC output. Try trace:true for diagnostics; for stdio servers, ensure logs go to stderr (not stdout)."@);
    }
    assert(strings_view(hints@) == h);
    hints
}

/// A step's detail text (empty when it has none).
pub open spec fn detail_text(s: ProbeStep) -> Seq<char> {
    match s.detail {
        Some(d) => d@,
        None => Seq::empty(),
    }
}

/// Some step's detail satisfies `p`.
pub open spec fn any_detail(steps: Seq<ProbeStep>, p: spec_fn(Seq<char>) -> bool) -> bool {
    exists|i: int| 0 <= i < steps.len() && p(detail_text(#[trigger] steps[i]))
}

/// Some step has the given name, failed, and its detail holds `needle`
/// (ignoring case); with `needle` absent, failing is enough.
pub open spec fn failed_step_with(steps: Seq<ProbeStep>, name: Seq<char>, needle: Option<Seq<char>>) -> bool {
    exists|i: int|
        0 <= i < steps.len() && (#[trigger] steps[i]).name@ == name && steps[i].status
            == ProbeStepStatus::Error && match needle {
            Some(n) => match steps[i].detail {
                Some(d) => contains_ci(d@, n),
                None => false,
            },
            None => true,
        }
}

/// The hints a list of steps calls for, in rule order.
pub open spec fn report_hints(steps: Seq<ProbeStep>) -> Seq<Seq<char>> {
    let h = Seq::<Seq<char>>::empty();
    let h = hint_if(h, any_detail(steps, |t: Seq<char>| rule_auth_required(t)), "Auth required: pass access_token (Bearer token) or (HTTP only) refresh_token + client_id. If the probe server has cached tokens for this URL, set use_auth: true."@);
    let h = hint_if(h, any_detail(steps, |t: Seq<char>| rule_auth_cache(t)), "Auth cache missing or expired: pass access_token or (HTTP only) refresh_token + client_id. access_token_path/refresh_token_path are also supported if token files are available on the probe server."@);
    let h = hint_if(h, any_detail(steps, |t: Seq<char>| rule_auth_sources(t)), "Auth sources are mutually exclusive. Choose one: use_auth (cached), access_token/access_token_path, or refresh_token/refresh_token_path."@);
    let h = hint_if(h, any_detail(steps, |t: Seq<char>| rule_refresh_required(t)), "Provide refresh_token directly or via refresh_token_path (JSON with refresh_token)."@);
    let h = hint_if(h, any_detail(steps, |t: Seq<char>| rule_client_id(t)), "Provide client_id when using refresh_token (either argument or inside refresh_token_path JSON)."@);
    let h = hint_if(h, any_detail(steps, |t: Seq<char>| rule_refresh_http(t)), "refresh_token auth only works with HTTP transports (sse/streamable-http). For stdio, pass access_token/access_token_path."@);
    let h = hint_if(h, any_detail(steps, |t: Seq<char>| rule_token_path(t)), "Token file path is outside the probe server token directory (restricted for safety)."@);
    let h = hint_if(h, any_detail(steps, |t: Seq<char>| rule_host(t)), "Host blocked by probe allowlist. Use an allowed host (often localhost) or ask the probe operator to allow the target host."@);
    let h = hint_if(h, any_detail(steps, |t: Seq<char>| rule_malformed(t)), "Malformed URL: use an absolute HTTP(S) URL with scheme + host, for example `http://127.0.0.1:8002/mcp`."@);
    let h = hint_if(h, any_detail(steps, |t: Seq<char>| rule_stdio(t)), "stdio transport is disabled by probe policy. Use sse/streamable-http, or ask the probe operator to enable stdio."@);
    let h = hint_if(h, failed_step_with(steps, "auth.oauth.fetch"@, Some("404"@)), "PRM discovery failed (404). Ensure server exposes `/.well-known/oauth-protected-resource` and WWW-Authenticate resource_metadata."@);
    let h = hint_if(h, any_detail(steps, |t: Seq<char>| rule_resource_metadata(t)), "WWW-Authenticate should include resource_metadata for PRM discovery. Add the header and ensure the URL is reachable."@);
    let h = hint_if(h, any_detail(steps, |t: Seq<char>| rule_issuer(t)), "Issuer mismatch: align PRM authorization_servers with OAuth metadata issuer on the same host/path lineage."@);
    let h = hint_if(h, failed_step_with(steps, "resources.list"@, Some("typeerror"@)), "resources.list threw a TypeError. This usually means the server responded with a malformed resources list or advertised resources capability incorrectly. Try probe_raw_request with method \"resources/list\" to inspect the raw response."@);
    let h = hint_if(h, failed_step_with(steps, "tools.schema_compatibility"@, None), "Tool schema compatibility failed: inspect report.steps[].data.findings for tool_name, schema_path, fragment, and remediation hint."@);
    h
}

fn detail_rule_auth_cache(steps: &[ProbeStep]) -> (b: bool)
    ensures
        b == any_detail(steps@, |t: Seq<char>| rule_auth_cache(t)),
{
    let mut i: usize = 0;
    while i < steps.len()
        invariant
            i <= steps@.len(),
            forall|j: int| 0 <= j < i ==> !rule_auth_cache(detail_text(#[trigger] steps@[j])),
        decreases steps@.len() - i,
    {
        let d: &str = match &steps[i].detail {
            Some(d) => d.as_str(),
            None => "",
        };
        proof {
            if steps@[i as int].detail is None {
                assert(""@ =~= Seq::<char>::empty()) by {
                    reveal_strlit("");
                }
            }
        }
        if (contains_ci_exec(d, "no cached tokens found")) || (contains_ci_exec(d, "cached access token has expired")) {
            assert(rule_auth_cache(detail_text(steps@[i as int])));
            return true;
        }
        i = i + 1;
    }
    false
}

fn detail_rule_refresh_http(steps: &[ProbeStep]) -> (b: bool)
    ensures
        b == any_detail(steps@, |t: Seq<char>| rule_refresh_http(t)),
{
    let mut i: usize = 0;
    while i < steps.len()
        invariant
            i <= steps@.len(),
            forall|j: int| 0 <= j < i ==> !rule_refresh_http(detail_text(#[trigger] steps@[j])),
        decreases steps@.len() - i,
    {
        let d: &str = match &steps[i].detail {
            Some(d) => d.as_str(),
            None => "",
        };
        proof {
            if steps@[i as int].detail is None {
                assert(""@ =~= Seq::<char>::empty()) by {
                    reveal_strlit("");
                }
            }
        }
        if (contains_ci_exec(d, "refresh_token auth is only supported for http transports")) {
            assert(rule_refresh_http(detail_text(steps@[i as int])));
            return true;
        }
        i = i + 1;
    }
    false
}

fn detail_rule_client_id(steps: &[ProbeStep]) -> (b: bool)
    ensures
        b == any_detail(steps@, |t: Seq<char>| rule_client_id(t)),
{
    let mut i: usize = 0;
    while i < steps.len()
        invariant
            i <= steps@.len(),
            forall|j: int| 0 <= j < i ==> !rule_client_id(detail_text(#[trigger] steps@[j])),
        decreases steps@.len() - i,
    {
        let d: &str = match &steps[i].detail {
            Some(d) => d.as_str(),
            None => "",
        };
        proof {
            if steps@[i as int].detail is None {
                assert(""@ =~= Seq::<char>::empty()) by {
                    reveal_strlit("");
                }
            }
        }
        if (contains_ci_exec(d, "client_id is required to refresh tokens")) {
            assert(rule_client_id(detail_text(steps@[i as int])));
            return true;
        }
        i = i + 1;
    }
    false
}

fn detail_rule_token_path(steps: &[ProbeStep]) -> (b: bool)
    ensures
        b == any_detail(steps@, |t: Seq<char>| rule_token_path(t)),
{
    let mut i: usize = 0;
    while i < steps.len()
        invariant
            i <= steps@.len(),
            forall|j: int| 0 <= j < i ==> !rule_token_path(detail_text(#[trigger] steps@[j])),
        decreases steps@.len() - i,
    {
        let d: &str = match &steps[i].detail {
            Some(d) => d.as_str(),
            None => "",
        };
        proof {
            if steps@[i as int].detail is None {
                assert(""@ =~= Seq::<char>::empty()) by {
                    reveal_strlit("");
                }
            }
        }
        if (contains_ci_exec(d, "token path is outside the allowed directory")) {
            assert(rule_token_path(detail_text(steps@[i as int])));
            return true;
        }
        i = i + 1;
    }
    false
}

fn detail_rule_host(steps: &[ProbeStep]) -> (b: bool)
    ensures
        b == any_detail(steps@, |t: Seq<char>| rule_host(t)),
{
    let mut i: usize = 0;
    while i < steps.len()
        invariant
            i <= steps@.len(),
            forall|j: int| 0 <= j < i ==> !rule_host(detail_text(#[trigger] steps@[j])),
        decreases steps@.len() - i,
    {
        let d: &str = match &steps[i].detail {
            Some(d) => d.as_str(),
            None => "",
        };
        proof {
            if steps@[i as int].detail is None {
                assert(""@ =~= Seq::<char>::empty()) by {
                    reveal_strlit("");
                }
            }
        }
        if (contains_ci_exec(d, "host is not in the allowlist")) || (contains_ci_exec(d, "host not allowed")) {
            assert(rule_host(detail_text(steps@[i as int])));
            return true;
        }
        i = i + 1;
    }
    false
}

fn detail_rule_resource_metadata(steps: &[ProbeStep]) -> (b: bool)
    ensures
        b == any_detail(steps@, |t: Seq<char>| rule_resource_metadata(t)),
{
    let mut i: usize = 0;
    while i < steps.len()
        invariant
            i <= steps@.len(),
            forall|j: int| 0 <= j < i ==> !rule_resource_metadata(detail_text(#[trigger] steps@[j])),
        decreases steps@.len() - i,
    {
        let d: &str = match &steps[i].detail {
            Some(d) => d.as_str(),
            None => "",
        };
        proof {
            if steps@[i as int].detail is None {
                assert(""@ =~= Seq::<char>::empty()) by {
                    reveal_strlit("");
                }
            }
        }
        if (contains_ci_exec(d, "missing resource_metadata")) {
            assert(rule_resource_metadata(detail_text(steps@[i as int])));
            return true;
        }
        i = i + 1;
    }
    false
}

fn detail_rule_auth_required(steps: &[ProbeStep]) -> (b: bool)
    ensures
        b == any_detail(steps@, |t: Seq<char>| rule_auth_required(t)),
{
    let mut i: usize = 0;
    while i < steps.len()
        invariant
            i <= steps@.len(),
            forall|j: int| 0 <= j < i ==> !rule_auth_required(detail_text(#[trigger] steps@[j])),
        decreases steps@.len() - i,
    {
        let d: &str = match &steps[i].detail {
            Some(d) => d.as_str(),
            None => "",
        };
        proof {
            if steps@[i as int].detail is None {
                assert(""@ =~= Seq::<char>::empty()) by {
                    reveal_strlit("");
                }
            }
        }
        if (contains_ci_exec(d, "missing token")) || (contains_ci_exec(d, "missing bearer")) || (contains_ci_exec(d, "auth.missing_token")) {
            assert(rule_auth_required(detail_text(steps@[i as int])));
            return true;
        }
        i = i + 1;
    }
    false
}

fn detail_rule_stdio(steps: &[ProbeStep]) -> (b: bool)
    ensures
        b == any_detail(steps@, |t: Seq<char>| rule_stdio(t)),
{
    let mut i: usize = 0;
    while i < steps.len()
        invariant
            i <= steps@.len(),
            forall|j: int| 0 <= j < i ==> !rule_stdio(detail_text(#[trigger] steps@[j])),
        decreases steps@.len() - i,
    {
        let d: &str = match &steps[i].detail {
            Some(d) => d.as_str(),
            None => "",
        };
        proof {
            if steps@[i as int].detail is None {
                assert(""@ =~= Seq::<char>::empty()) by {
                    reveal_strlit("");
                }
            }
        }
        if (contains_ci_exec(d, "stdio transport disabled")) {
            assert(rule_stdio(detail_text(steps@[i as int])));
            return true;
        }
        i = i + 1;
    }
    false
}

fn detail_rule_malformed(steps: &[ProbeStep]) -> (b: bool)
    ensures
        b == any_detail(steps@, |t: Seq<char>| rule_malformed(t)),
{
    let mut i: usize = 0;
    while i < steps.len()
        invariant
            i <= steps@.len(),
            forall|j: int| 0 <= j < i ==> !rule_malformed(detail_text(#[trigger] steps@[j])),
        decreases steps@.len() - i,
    {
        let d: &str = match &steps[i].detail {
            Some(d) => d.as_str(),
            None => "",
        };
        proof {
            if steps@[i as int].detail is None {
                assert(""@ =~= Seq::<char>::empty()) by {
                    reveal_strlit("");
                }
            }
        }
        if (contains_ci_exec(d, "malformed") && contains_ci_exec(d, "url")) {
            assert(rule_malformed(detail_text(steps@[i as int])));
            return true;
        }
        i = i + 1;
    }
    false
}

fn detail_rule_issuer(steps: &[ProbeStep]) -> (b: bool)
    ensures
        b == any_detail(steps@, |t: Seq<char>| rule_issuer(t)),
{
    let mut i: usize = 0;
    while i < steps.len()
        invariant
            i <= steps@.len(),
            forall|j: int| 0 <= j < i ==> !rule_issuer(detail_text(#[trigger] steps@[j])),
        decreases steps@.len() - i,
    {
        let d: &str = match &steps[i].detail {
            Some(d) => d.as_str(),
            None => "",
        };
        proof {
            if steps@[i as int].detail is None {
                assert(""@ =~= Seq::<char>::empty()) by {
                    reveal_strlit("");
                }
            }
        }
        if (contains_ci_exec(d, "issuer does not match")) {
            assert(rule_issuer(detail_text(steps@[i as int])));
            return true;
        }
        i = i + 1;
    }
    false
}

fn detail_rule_refresh_required(steps: &[ProbeStep]) -> (b: bool)
    ensures
        b == any_detail(steps@, |t: Seq<char>| rule_refresh_required(t)),
{
    let mut i: usize = 0;
    while i < steps.len()
        invariant
            i <= steps@.len(),
            forall|j: int| 0 <= j < i ==> !rule_refresh_required(detail_text(#[trigger] steps@[j])),
        decreases steps@.len() - i,
    {
        let d: &str = match &steps[i].detail {
            Some(d) => d.as_str(),
            None => "",
        };
        proof {
            if steps@[i as int].detail is None {
                assert(""@ =~= Seq::<char>::empty()) by {
                    reveal_strlit("");
                }
            }
        }
        if (contains_ci_exec(d, "refresh_token is required")) {
            assert(rule_refresh_required(detail_text(steps@[i as int])));
            return true;
        }
        i = i + 1;
    }
    false
}

fn detail_rule_auth_sources(steps: &[ProbeStep]) -> (b: bool)
    ensures
        b == any_detail(steps@, |t: Seq<char>| rule_auth_sources(t)),
{
    let mut i: usize = 0;
    while i < steps.len()
        invariant
            i <= steps@.len(),
            forall|j: int| 0 <= j < i ==> !rule_auth_sources(detail_text(#[trigger] steps@[j])),
        decreases steps@.len() - i,
    {
        let d: &str = match &steps[i].detail {
            Some(d) => d.as_str(),
            None => "",
        };
        proof {
            if steps@[i as int].detail is None {
                assert(""@ =~= Seq::<char>::empty()) by {
                    reveal_strlit("");
                }
            }
        }
        if (contains_ci_exec(d, "specify only one auth source")) {
            assert(rule_auth_sources(detail_text(steps@[i as int])));
            return true;
        }
        i = i + 1;
    }
    false
}

fn failed_step_exec(steps: &[ProbeStep], name: &str, needle: Option<&str>) -> (b: bool)
    ensures
        b == failed_step_with(
            steps@,
            name@,
            match needle {
                Some(n) => Some(n@),
                None => None,
            },
        ),
{
    let mut i: usize = 0;
    while i < steps.len()
        invariant
            i <= steps@.len(),
            forall|j: int|
                0 <= j < i ==> !((#[trigger] steps@[j]).name@ == name@ && steps@[j].status
                    == ProbeStepStatus::Error && match needle {
                    Some(n) => match steps@[j].detail {
                        Some(d) => contains_ci(d@, n@),
                        None => false,
                    },
                    None => true,
                }),
        decreases steps@.len() - i,
    {
        let s = &steps[i];
        if str_eq(s.name.as_str(), name) && s.status == ProbeStepStatus::Error {
            let hit = match needle {
                Some(n) => match &s.detail {
                    Some(d) => contains_ci_exec(d.as_str(), n),
                    None => false,
                },
                None => true,
            };
            if hit {
                return true;
            }
        }
        i = i + 1;
    }
    false
}

/// Build common guidance hints from probe steps.
#[verifier::rlimit(30)]
#[verifier::spinoff_prover]
pub fn build_common_guidance_from_report(steps: &[ProbeStep]) -> (r: Vec<String>)
    ensures
        strings_view(r@) == report_hints(steps@),
{
    let mut hints: Vec<String> = Vec::new();
    let ghost h = Seq::<Seq<char>>::empty();
    proof {
        assert(strings_view(hints@) =~= h);
    }
    if detail_rule_auth_required(steps) {
        add_hint(&mut hints, "Auth required: pass access_token (Bearer token) or (HTTP only) refresh_token + client_id. If the probe server has cached tokens for this URL, set use_auth: true.");
    }
    proof {
        h = hint_if(h, any_detail(steps@, |t: Seq<char>| rule_auth_required(t)), "Auth required: pass access_token (Bearer token) or (HTTP only) refresh_token + client_id. If the probe server has cached tokens for this URL, set use_auth: true."@);
    }
    assert(strings_view(hints@) == h);
    if detail_rule_auth_cache(steps) {
        add_hint(&mut hints, "Auth cache missing or expired: pass access_token or (HTTP only) refresh_token + client_id. access_token_path/refresh_token_path are also supported if token files are available on the probe server.");
    }
    proof {
        h = hint_if(h, any_detail(steps@, |t: Seq<char>| rule_auth_cache(t)), "Auth cache missing or expired: pass access_token or (HTTP only) refresh_token + client_id. access_token_path/refresh_token_path are also supported if token files are available on the probe server."@);
    }
    assert(strings_view(hints@) == h);
    if detail_rule_auth_sources(steps) {
        add_hint(&mut hints, "Auth sources are mutually exclusive. Choose one: use_auth (cached), access_token/access_token_path, or refresh_token/refresh_token_path.");
    }
    proof {
        h = hint_if(h, any_detail(steps@, |t: Seq<char>| rule_auth_sources(t)), "Auth sources are mutually exclusive. Choose one: use_auth (cached), access_token/access_token_path, or refresh_token/refresh_token_path."@);
    }
    assert(strings_view(hints@) == h);
    if detail_rule_refresh_required(steps) {
        add_hint(&mut hints, "Provide refresh_token directly or via refresh_token_path (JSON with refresh_token).");
    }
    proof {
        h = hint_if(h, any_detail(steps@, |t: Seq<char>| rule_refresh_required(t)), "Provide refresh_token directly or via refresh_token_path (JSON with refresh_token)."@);
    }
    assert(strings_view(hints@) == h);
    if detail_rule_client_id(steps) {
        add_hint(&mut hints, "Provide client_id when using refresh_token (either argument or inside refresh_token_path JSON).");
    }
    proof {
        h = hint_if(h, any_detail(steps@, |t: Seq<char>| rule_client_id(t)), "Provide client_id when using refresh_token (either argument or inside refresh_token_path JSON)."@);
    }
    assert(strings_view(hints@) == h);
    if detail_rule_refresh_http(steps) {
        add_hint(&mut hints, "refresh_token auth only works with HTTP transports (sse/streamable-http). For stdio, pass access_token/access_token_path.");
    }
    proof {
        h = hint_if(h, any_detail(steps@, |t: Seq<char>| rule_refresh_http(t)), "refresh_token auth only works with HTTP transports (sse/streamable-http). For stdio, pass access_token/access_token_path."@);
    }
    assert(strings_view(hints@) == h);
    if detail_rule_token_path(steps) {
        add_hint(&mut hints, "Token file path is outside the probe server token directory (restricted for safety).");
    }
    proof {
        h = hint_if(h, any_detail(steps@, |t: Seq<char>| rule_token_path(t)), "Token file path is outside the probe server token directory (restricted for safety)."@);
    }
    assert(strings_view(hints@) == h);
    if detail_rule_host(steps) {
        add_hint(&mut hints, "Host blocked by probe allowlist. Use an allowed host (often localhost) or ask the probe operator to allow the target host.");
    }
    proof {
        h = hint_if(h, any_detail(steps@, |t: Seq<char>| rule_host(t)), "Host blocked by probe allowlist. Use an allowed host (often localhost) or ask the probe operator to allow the target host."@);
    }
    assert(strings_view(hints@) == h);
    if detail_rule_malformed(steps) {
        add_hint(&mut hints, "Malformed URL: use an absolute HTTP(S) URL with scheme + host, for example `http://127.0.0.1:8002/mcp`.");
    }
    proof {
        h = hint_if(h, any_detail(steps@, |t: Seq<char>| rule_malformed(t)), "Malformed URL: use an absolute HTTP(S) URL with scheme + host, for example `http://127.0.0.1:8002/mcp`."@);
    }
    assert(strings_view(hints@) == h);
    if detail_rule_stdio(steps) {
        add_hint(&mut hints, "stdio transport is disabled by probe policy. Use sse/streamable-http, or ask the probe operator to enable stdio.");
    }
    proof {
        h = hint_if(h, any_detail(steps@, |t: Seq<char>| rule_stdio(t)), "stdio transport is disabled by probe policy. Use sse/streamable-http, or ask the probe operator to enable stdio."@);
    }
    assert(strings_view(hints@) == h);
    if failed_step_exec(steps, "auth.oauth.fetch", Some("404")) {
        add_hint(&mut hints, "PRM discovery failed (404). Ensure server exposes `/.well-known/oauth-protected-resource` and WWW-Authenticate resource_metadata.");
    }
    proof {
        h = hint_if(h, failed_step_with(steps@, "auth.oauth.fetch"@, Some("404"@)), "PRM discovery failed (404). Ensure server exposes `/.well-known/oauth-protected-resource` and WWW-Authenticate resource_metadata."@);
    }
    assert(strings_view(hints@) == h);
    if detail_rule_resource_metadata(steps) {
        add_hint(&mut hints, "WWW-Authenticate should include resource_metadata for PRM discovery. Add the header and ensure the URL is reachable.");
    }
    proof {
        h = hint_if(h, any_detail(steps@, |t: Seq<char>| rule_resource_metadata(t)), "WWW-Authenticate should include resource_metadata for PRM discovery. Add the header and ensure the URL is reachable."@);
    }
    assert(strings_view(hints@) == h);
    if detail_rule_issuer(steps) {
        add_hint(&mut hints, "Issuer mismatch: align PRM authorization_servers with OAuth metadata issuer on the same host/path lineage.");
    }
    proof {
        h = hint_if(h, any_detail(steps@, |t: Seq<char>| rule_issuer(t)), "Issuer mismatch: align PRM authorization_servers with OAuth metadata issuer on the same host/path lineage."@);
    }
    assert(strings_view(hints@) == h);
    if failed_step_exec(steps, "resources.list", Some("typeerror")) {
        add_hint(&mut hints, "resources.list threw a TypeError. This usually means the server responded with a malformed resources list or advertised resources capability incorrectly. Try probe_raw_request with method \"resources/list\" to inspect the raw response.");
    }
    proof {
        h = hint_if(h, failed_step_with(steps@, "resources.list"@, Some("typeerror"@)), "resources.list threw a TypeError. This usually means the server responded with a malformed resources list or advertised resources capability incorrectly. Try probe_raw_request with method \"resources/list\" to inspect the raw response."@);
    }
    assert(strings_view(hints@) == h);
    if failed_step_exec(steps, "tools.schema_compatibility", None) {
        add_hint(&mut hints, "Tool schema compatibility failed: inspect report.steps[].data.findings for tool_name, schema_path, fragment, and remediation hint.");
    }
    proof {
        h = hint_if(h, failed_step_with(steps@, "tools.schema_compatibility"@, None), "Tool schema compatibility failed: inspect report.steps[].data.findings for tool_name, schema_path, fragment, and remediation hint."@);
    }
    assert(strings_view(hints@) == h);
    hints
}

/// The guidance block: `Hints:` then one bullet per hint; nothing when
/// there are no hints.
pub open spec fn guidance_text(hints: Seq<Seq<char>>) -> Option<Seq<char>> {
    if hints.len() == 0 {
        None
    } else {
        Some("Hints:\n- "@ + join_with(hints, "\n- "@))
    }
}

/// Format guidance hints as a bullet list.
pub fn format_guidance(hints: &[String]) -> (r: Option<String>)
    ensures
        opt_view(r) == guidance_text(strings_view(hints@)),
{
    if hints.len() == 0 {
        None
    } else {
        let mut s = String::from_str("Hints:\n- ");
        s.append(join_strings(hints, "\n- ").as_str());
        Some(s)
    }
}


/// The steps that did not pass, in order.
pub open spec fn failed_steps(steps: Seq<ProbeStep>) -> Seq<ProbeStep>
    decreases steps.len(),
{
    if steps.len() == 0 {
        Seq::empty()
    } else {
        let f = failed_steps(steps.drop_last());
        if steps.last().status != ProbeStepStatus::Passed {
            f.push(steps.last())
        } else {
            f
        }
    }
}

/// How a failed step is summarized: `name: detail`, or the name alone.
pub open spec fn failure_line(s: ProbeStep) -> Seq<char> {
    match s.detail {
        Some(d) => s.name@ + ": "@ + d@,
        None => s.name@,
    }
}

/// The failure summary: up to `limit` failed steps, a count of the rest,
/// and a pointer to the full report; nothing when every step passed.
pub open spec fn failure_summary(steps: Seq<ProbeStep>, limit: nat) -> Option<Seq<char>> {
    let failures = failed_steps(steps);
    if failures.len() == 0 {
        None
    } else {
        let shown = if limit < failures.len() {
            limit
        } else {
            failures.len()
        };
        let lines = failures.subrange(0, shown as int).map_values(|s: ProbeStep| failure_line(s));
        let extra = failures.len() - shown;
        let head = seq!["Failures:"@, "- "@ + join_with(lines, "\n- "@)];
        let mid = if extra > 0 {
            head.push("- ...and "@ + crate::text::decimal(extra as nat) + " more"@)
        } else {
            head
        };
        Some(join_with(mid.push("See structuredContent.report.steps for full details."@), "\n"@))
    }
}

/// Summarize failed steps for quick reading.
#[verifier::loop_isolation(false)]
pub fn format_failure_summary(steps: &[ProbeStep], limit: usize) -> (r: Option<String>)
    ensures
        opt_view(r) == failure_summary(steps@, limit as nat),
{
    let ghost failures = failed_steps(steps@);
    let mut lines: Vec<String> = Vec::new();
    let mut count: usize = 0;
    let mut i: usize = 0;
    proof {
        assert(steps@.subrange(0, 0) =~= Seq::<ProbeStep>::empty());
    }
    while i < steps.len()
        invariant
            i <= steps@.len(),
            count == failed_steps(steps@.subrange(0, i as int)).len(),
            count <= i,
            lines@.len() <= limit,
            lines@.len() == (if count < limit { count as int } else { limit as int }),
            strings_view(lines@) == failed_steps(steps@.subrange(0, i as int)).subrange(
                0,
                lines@.len() as int,
            ).map_values(|s: ProbeStep| failure_line(s)),
        decreases steps@.len() - i,
    {
        let ghost pre = failed_steps(steps@.subrange(0, i as int));
        proof {
            assert(steps@.subrange(0, i + 1).drop_last() =~= steps@.subrange(0, i as int));
        }
        if steps[i].status != ProbeStepStatus::Passed {
            let ghost post = pre.push(steps@[i as int]);
            if lines.len() < limit {
                let line = match &steps[i].detail {
                    Some(d) => {
                        let mut l = steps[i].name.clone();
                        l.append(": ");
                        l.append(d.as_str());
                        l
                    },
                    None => steps[i].name.clone(),
                };
                let ghost before = lines@;
                lines.push(line);
                proof {
                    assert(strings_view(lines@) =~= strings_view(before).push(failure_line(steps@[i as int])));
                    assert(post.subrange(0, lines@.len() as int) =~= pre.subrange(0, before.len() as int).push(steps@[i as int]));
                }
            } else {
                proof {
                    assert(post.subrange(0, lines@.len() as int) =~= pre.subrange(0, lines@.len() as int));
                }
            }
            count = count + 1;
        }
        i = i + 1;
    }
    proof {
        assert(steps@.subrange(0, steps@.len() as int) =~= steps@);
    }
    if count == 0 {
        return None;
    }
    let extra = count - lines.len();
    let mut parts: Vec<String> = Vec::new();
    parts.push(String::from_str("Failures:"));
    let mut second = String::from_str("- ");
    second.append(join_strings(&lines, "\n- ").as_str());
    parts.push(second);
    if extra > 0 {
        let mut e = String::from_str("- ...and ");
        e.append(crate::text::fmt_usize(extra).as_str());
        e.append(" more");
        parts.push(e);
    }
    parts.push(String::from_str("See structuredContent.report.steps for full details."));
    proof {
        let shown = if limit < failures.len() { limit as int } else { failures.len() as int };
        assert(lines@.len() == shown);
        let head = seq!["Failures:"@, "- "@ + join_with(strings_view(lines@), "\n- "@)];
        let mid = if extra > 0 {
            head.push("- ...and "@ + crate::text::decimal(extra as nat) + " more"@)
        } else {
            head
        };
        assert(strings_view(parts@) =~= mid.push("See structuredContent.report.steps for full details."@));
    }
    Some(join_strings(&parts, "\n"))
}

} // verus!
