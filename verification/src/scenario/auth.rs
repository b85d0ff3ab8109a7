//! Auth headers for scripted scenarios: which auth source a scenario uses,
//! and the steps that turn it into request headers.

use vstd::prelude::*;
use crate::auth::{attach_access_token, auth_source_error, headers_view, RefreshTokenFile, RefreshTokenOptions};
use crate::text::{opt_view, strings_view};
use crate::transport::TransportType;

verus! {

/// Result of resolving auth headers for a scenario.
pub enum AuthHeaderResult {
    Headers(Option<Vec<(String, String)>>),
    Failed(String),
}

/// Scenario auth inputs.
pub struct ScenarioAuthInput {
    pub transport: TransportType,
    pub url: Option<String>,
    pub headers: Option<Vec<(String, String)>>,
    pub use_auth: Option<bool>,
    pub access_token: Option<String>,
    pub access_token_path: Option<String>,
    pub refresh_token: Option<String>,
    pub refresh_token_path: Option<String>,
    pub client_id: Option<String>,
    pub client_secret: Option<String>,
    pub token_endpoint: Option<String>,
    pub scope: Option<String>,
    pub timeout_ms: Option<u64>,
}

/// What resolving a scenario's auth headers takes next: the result itself,
/// reading an access token from a file, refreshing a token (after reading
/// its file, when one is named), or the cached tokens of the target URL.
pub enum AuthPlan {
    Done(AuthHeaderResult),
    ReadAccessToken(String),
    Refresh(Option<String>),
    UseStoredAuth(String),
}

/// The auth sources a scenario names, in a fixed order.
pub open spec fn auth_sources(s: ScenarioAuthInput) -> Seq<Seq<char>> {
    (if s.use_auth == Some(true) { seq!["use_auth"@] } else { Seq::empty() }) + (if s.access_token is Some {
        seq!["access_token"@]
    } else {
        Seq::empty()
    }) + (if s.access_token_path is Some { seq!["access_token_path"@] } else { Seq::empty() }) + (
    if s.refresh_token is Some {
        seq!["refresh_token"@]
    } else {
        Seq::empty()
    }) + (if s.refresh_token_path is Some { seq!["refresh_token_path"@] } else { Seq::empty() })
}

/// The outcome of attaching a bearer token to headers.
pub open spec fn attached(headers: Option<Vec<(String, String)>>, token: Seq<char>, r: AuthHeaderResult) -> bool {
    let h = match headers {
        Some(v) => headers_view(v@),
        None => Seq::empty(),
    };
    match r {
        AuthHeaderResult::Failed(m) => crate::auth::has_header_ci(h, "authorization"@) && m@
            == crate::auth::authorization_present_message(),
        AuthHeaderResult::Headers(Some(v)) => !crate::auth::has_header_ci(h, "authorization"@) && headers_view(v@)
            == h.push(("Authorization"@, "Bearer "@ + token)),
        AuthHeaderResult::Headers(None) => false,
    }
}

/// Attach a bearer token to a scenario's headers.
pub fn attach_token_result(headers: Option<Vec<(String, String)>>, token: &str) -> (r: AuthHeaderResult)
    ensures
        attached(headers, token@, r),
{
    match attach_access_token(headers, token) {
        Ok(updated) => AuthHeaderResult::Headers(Some(updated)),
        Err(e) => AuthHeaderResult::Failed(e),
    }
}

/// Finish a plan that needed a token (read from a file, or refreshed): a
/// failure is passed on as it came, a token is attached to the headers.
pub fn attach_token_outcome(headers: Option<Vec<(String, String)>>, token: Result<String, String>) -> (r:
    AuthHeaderResult)
    ensures
        match token {
            Err(e) => r matches AuthHeaderResult::Failed(m) && m@ == e@,
            Ok(t) => attached(headers, t@, r),
        },
{
    match token {
        Err(e) => AuthHeaderResult::Failed(e),
        Ok(t) => attach_token_result(headers, t.as_str()),
    }
}

fn err_result(m: &str) -> (r: AuthPlan)
    ensures
        r matches AuthPlan::Done(AuthHeaderResult::Failed(e)) && e@ == m@,
{
    AuthPlan::Done(AuthHeaderResult::Failed(String::from_str(m)))
}

/// The plan for a scenario's auth headers: more than one auth source is a
/// failure; an access token is attached; a token file is read; a refresh
/// token needs an HTTP target; stored auth uses the target URL's cached
/// tokens; each needs a target URL; with none, the headers stay as given.
pub open spec fn plan_matches(s: ScenarioAuthInput, p: AuthPlan) -> bool {
    let sources = auth_sources(s);
    if sources.len() > 1 {
        p matches AuthPlan::Done(AuthHeaderResult::Failed(e)) && e@ == auth_source_error(sources)
    } else if s.access_token is Some {
        if s.url is None {
            p matches AuthPlan::Done(AuthHeaderResult::Failed(e)) && e@ == "access_token requires a target URL"@
        } else {
            p matches AuthPlan::Done(r) && attached(s.headers, s.access_token->0@, r)
        }
    } else if s.access_token_path is Some {
        if s.url is None {
            p matches AuthPlan::Done(AuthHeaderResult::Failed(e)) && e@ == "access_token_path requires a target URL"@
        } else {
            p matches AuthPlan::ReadAccessToken(path) && path@ == s.access_token_path->0@
        }
    } else if s.refresh_token is Some || s.refresh_token_path is Some {
        if s.transport == TransportType::Stdio {
            p matches AuthPlan::Done(AuthHeaderResult::Failed(e)) && e@
                == "refresh_token auth is only supported for HTTP transports."@
        } else if s.url is None {
            p matches AuthPlan::Done(AuthHeaderResult::Failed(e)) && e@ == "refresh_token requires a target URL"@
        } else {
            p matches AuthPlan::Refresh(path) && opt_view(path) == opt_view(s.refresh_token_path)
        }
    } else if s.use_auth == Some(true) {
        if s.url is None {
            p matches AuthPlan::Done(AuthHeaderResult::Failed(e)) && e@ == "use_auth requires a target URL"@
        } else {
            p matches AuthPlan::UseStoredAuth(u) && u@ == s.url->0@
        }
    } else {
        p matches AuthPlan::Done(AuthHeaderResult::Headers(h)) && match h {
            Some(v) => s.headers matches Some(g) && headers_view(v@) == headers_view(g@),
            None => s.headers is None,
        }
    }
}

fn clone_headers(h: &Option<Vec<(String, String)>>) -> (r: Option<Vec<(String, String)>>)
    ensures
        match r {
            Some(v) => h matches Some(g) && headers_view(v@) == headers_view(g@),
            None => h is None,
        },
{
    match h {
        Some(v) => {
            let mut out: Vec<(String, String)> = Vec::new();
            let mut i: usize = 0;
            while i < v.len()
                invariant
                    i <= v@.len(),
                    headers_view(out@) == headers_view(v@.subrange(0, i as int)),
                decreases v@.len() - i,
            {
                let a = v[i].0.clone();
                let b = v[i].1.clone();
                let ghost before = out@;
                out.push((a, b));
                proof {
                    assert(headers_view(out@) =~= headers_view(before).push((a@, b@)));
                    assert(headers_view(v@.subrange(0, i + 1)) =~= headers_view(v@.subrange(0, i as int)).push(
                        (v@[i as int].0@, v@[i as int].1@),
                    ));
                }
                i = i + 1;
            }
            proof {
                assert(v@.subrange(0, i as int) =~= v@);
            }
            Some(out)
        },
        None => None,
    }
}

/// Decide how to resolve a scenario's auth headers.
pub fn plan_auth_headers(scenario: &ScenarioAuthInput) -> (r: AuthPlan)
    ensures
        plan_matches(*scenario, r),
{
    let mut sources: Vec<String> = Vec::new();
    if scenario.use_auth == Some(true) {
        sources.push(String::from_str("use_auth"));
    }
    if scenario.access_token.is_some() {
        sources.push(String::from_str("access_token"));
    }
    if scenario.access_token_path.is_some() {
        sources.push(String::from_str("access_token_path"));
    }
    if scenario.refresh_token.is_some() {
        sources.push(String::from_str("refresh_token"));
    }
    if scenario.refresh_token_path.is_some() {
        sources.push(String::from_str("refresh_token_path"));
    }
    assert(strings_view(sources@) =~= auth_sources(*scenario));
    if sources.len() > 1 {
        return AuthPlan::Done(AuthHeaderResult::Failed(crate::auth::format_auth_source_error(sources.as_slice())));
    }
    let headers = clone_headers(&scenario.headers);
    match &scenario.access_token {
        Some(token) => {
            if scenario.url.is_none() {
                return err_result("access_token requires a target URL");
            }
            return AuthPlan::Done(attach_token_result(headers, token.as_str()));
        },
        None => {},
    }
    match &scenario.access_token_path {
        Some(path) => {
            if scenario.url.is_none() {
                return err_result("access_token_path requires a target URL");
            }
            return AuthPlan::ReadAccessToken(path.clone());
        },
        None => {},
    }
    if scenario.refresh_token.is_some() || scenario.refresh_token_path.is_some() {
        if scenario.transport == TransportType::Stdio {
            return err_result("refresh_token auth is only supported for HTTP transports.");
        }
        if scenario.url.is_none() {
            return err_result("refresh_token requires a target URL");
        }
        return AuthPlan::Refresh(crate::text::clone_opt_string(&scenario.refresh_token_path));
    }
    if scenario.use_auth == Some(true) {
        match &scenario.url {
            None => {
                return err_result("use_auth requires a target URL");
            },
            Some(u) => {
                return AuthPlan::UseStoredAuth(u.clone());
            },
        }
    }
    AuthPlan::Done(AuthHeaderResult::Headers(headers))
}

/// A scenario setting, else the value from the refresh-token file.
pub open spec fn setting_or_file(s: Option<String>, f: Option<String>) -> Option<Seq<char>> {
    if s is Some {
        opt_view(s)
    } else {
        opt_view(f)
    }
}

/// The refresh request a scenario makes: each setting from the scenario,
/// else from the token file; the refresh token and client id are required.
pub open spec fn refresh_request_matches(
    s: ScenarioAuthInput,
    file: Option<RefreshTokenFile>,
    r: Result<RefreshTokenOptions, String>,
) -> bool {
    let refresh_token = match file {
        Some(f) => setting_or_file(s.refresh_token, Some(f.refresh_token)),
        None => opt_view(s.refresh_token),
    };
    let field = |pick: spec_fn(RefreshTokenFile) -> Option<String>, given: Option<String>|
        match file {
            Some(f) => setting_or_file(given, pick(f)),
            None => opt_view(given),
        };
    let client_id = field(|f: RefreshTokenFile| f.client_id, s.client_id);
    if refresh_token is None {
        r matches Err(e) && e@ == "refresh_token is required."@
    } else if client_id is None {
        r matches Err(e) && e@ == "client_id is required to refresh tokens."@
    } else {
        r matches Ok(o) && Some(o.refresh_token@) == refresh_token && Some(o.client_id@) == client_id
            && opt_view(o.client_secret) == field(|f: RefreshTokenFile| f.client_secret, s.client_secret)
            && opt_view(o.scope) == field(|f: RefreshTokenFile| f.scope, s.scope) && opt_view(o.server_url)
            == field(|f: RefreshTokenFile| f.server_url, s.url) && opt_view(o.token_endpoint) == field(
            |f: RefreshTokenFile| f.token_endpoint,
            s.token_endpoint,
        ) && o.timeout_ms == s.timeout_ms
    }
}

fn pick(given: &Option<String>, from_file: Option<&Option<String>>) -> (r: Option<String>)
    ensures
        opt_view(r) == match from_file {
            Some(f) => setting_or_file(*given, *f),
            None => opt_view(*given),
        },
{
    match given {
        Some(v) => Some(v.clone()),
        None => match from_file {
            Some(f) => crate::text::clone_opt_string(f),
            None => None,
        },
    }
}

/// The refresh request of a scenario, given the token file it names (as
/// read), if any.
pub fn refresh_request(scenario: &ScenarioAuthInput, file: Option<&RefreshTokenFile>) -> (r: Result<
    RefreshTokenOptions,
    String,
>)
    ensures
        refresh_request_matches(
            *scenario,
            match file {
                Some(f) => Some(*f),
                None => None,
            },
            r,
        ),
{
    let refresh_token = match &scenario.refresh_token {
        Some(t) => Some(t.clone()),
        None => match file {
            Some(f) => Some(f.refresh_token.clone()),
            None => None,
        },
    };
    let client_id = pick(&scenario.client_id, match file {
        Some(f) => Some(&f.client_id),
        None => None,
    });
    let client_secret = pick(&scenario.client_secret, match file {
        Some(f) => Some(&f.client_secret),
        None => None,
    });
    let token_endpoint = pick(&scenario.token_endpoint, match file {
        Some(f) => Some(&f.token_endpoint),
        None => None,
    });
    let scope = pick(&scenario.scope, match file {
        Some(f) => Some(&f.scope),
        None => None,
    });
    let server_url = pick(&scenario.url, match file {
        Some(f) => Some(&f.server_url),
        None => None,
    });
    let refresh_token = match refresh_token {
        None => {
            return Err(String::from_str("refresh_token is required."));
        },
        Some(t) => t,
    };
    let client_id = match client_id {
        None => {
            return Err(String::from_str("client_id is required to refresh tokens."));
        },
        Some(c) => c,
    };
    Ok(
        RefreshTokenOptions {
            refresh_token,
            client_id,
            client_secret,
            scope,
            server_url,
            token_endpoint,
            timeout_ms: scenario.timeout_ms,
        },
    )
}

} // verus!
