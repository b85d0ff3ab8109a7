//! Structured diagnostics for the HTTP requests of auth discovery: what
//! went wrong, as a detail line and machine-readable data.

use vstd::prelude::*;
use crate::json::{object_insert, object_insert_exec, view_entries, Json, JsonValue};
use crate::text::{ascii_lower, contains_seq, decimal, ends_with, lowercase, opt_view, trim};
use crate::urls::{parse_url, url_parse, url_rebased, UrlFacts, UrlModel};

verus! {

pub const CODE_HTTP_REQUEST_FAILED: &'static str = "http_request_failed";
pub const CODE_HTTP_STATUS: &'static str = "http_status";
pub const CODE_INVALID_JSON: &'static str = "invalid_json";
pub const CODE_ISSUER_MISMATCH: &'static str = "issuer_mismatch";
pub const CODE_NETWORK_TIMEOUT: &'static str = "network_timeout";
pub const CODE_NETWORK_UNREACHABLE: &'static str = "network_unreachable";
pub const CODE_STATEFUL_SESSION_REQUIRED: &'static str = "stateful_session_required";
pub const CODE_URL_MALFORMED: &'static str = "url_malformed";

/// A member that is a JSON string.
pub open spec fn put(es: Seq<(Seq<char>, Json)>, k: Seq<char>, v: Seq<char>) -> Seq<(Seq<char>, Json)> {
    object_insert(es, k, Json::Str(v))
}

/// The members every diagnostic carries.
pub open spec fn base_members(code: Seq<char>, endpoint: Seq<char>, url: Seq<char>) -> Seq<(Seq<char>, Json)> {
    put(put(put(Seq::empty(), "code"@, code), "endpoint"@, endpoint), "url"@, url)
}

fn put_exec(m: &mut Vec<(String, JsonValue)>, key: &str, value: &str)
    ensures
        view_entries(final(m)@) == put(view_entries(old(m)@), key@, value@),
{
    object_insert_exec(m, String::from_str(key), JsonValue::String(String::from_str(value)));
}

/// The members every diagnostic carries: its code, the endpoint and URL.
pub fn base_data(code: &str, endpoint: &str, url: &str) -> (r: Vec<(String, JsonValue)>)
    ensures
        view_entries(r@) == base_members(code@, endpoint@, url@),
{
    let mut m: Vec<(String, JsonValue)> = Vec::new();
    assert(view_entries(m@) =~= Seq::<(Seq<char>, Json)>::empty());
    put_exec(&mut m, "code", code);
    put_exec(&mut m, "endpoint", endpoint);
    put_exec(&mut m, "url", url);
    m
}

/// The diagnostic of a URL that does not parse.
pub open spec fn malformed_detail(endpoint: Seq<char>, url: Seq<char>, error: Seq<char>) -> (Seq<char>, Json) {
    (
        "Malformed "@ + endpoint + " URL"@,
        Json::Object(put(base_members(CODE_URL_MALFORMED@, endpoint, url), "error"@, error)),
    )
}

/// Build a structured malformed URL diagnostic.
pub fn malformed_url_detail(endpoint: &str, url: &str, error: &str) -> (r: (String, JsonValue))
    ensures
        r.0@ == malformed_detail(endpoint@, url@, error@).0,
        r.1@ == malformed_detail(endpoint@, url@, error@).1,
{
    let mut data = base_data(CODE_URL_MALFORMED, endpoint, url);
    put_exec(&mut data, "error", error);
    let mut detail = String::from_str("Malformed ");
    detail.append(endpoint);
    detail.append(" URL");
    (detail, JsonValue::Object(data))
}

/// Validate a URL: its parts, or the malformed-URL diagnostic.
pub fn validate_url(endpoint: &str, url: &str) -> (r: Result<UrlFacts, (String, JsonValue)>)
    ensures
        match url_parse(url@) {
            Ok(m) => r matches Ok(f) && crate::urls::facts_view(f) == m,
            Err(e) => r matches Err((d, j)) && d@ == malformed_detail(endpoint@, url@, e).0 && j@
                == malformed_detail(endpoint@, url@, e).1,
        },
{
    match parse_url(url) {
        Ok(f) => Ok(f),
        Err(e) => Err(malformed_url_detail(endpoint, url, e.as_str())),
    }
}

/// The diagnostic of a request that failed: a timeout, an unreachable
/// endpoint, a malformed URL (a request error whose text mentions `url`,
/// in any case), or another failure; the data carries the error's text.
pub open spec fn request_failure(
    endpoint: Seq<char>,
    url: Seq<char>,
    timed_out: bool,
    connect_failed: bool,
    request_error: Option<Seq<char>>,
    error: Seq<char>,
) -> (Seq<char>, Json) {
    let (code, detail) = if timed_out {
        (CODE_NETWORK_TIMEOUT@, endpoint + " request timed out"@)
    } else if connect_failed {
        (CODE_NETWORK_UNREACHABLE@, endpoint + " endpoint is unreachable"@)
    } else if request_error matches Some(t) && contains_seq(lowercase(t), "url"@) {
        (CODE_URL_MALFORMED@, "Malformed "@ + endpoint + " URL"@)
    } else {
        (CODE_HTTP_REQUEST_FAILED@, "Failed to request "@ + endpoint + " endpoint"@)
    };
    (detail, Json::Object(put(base_members(code, endpoint, url), "error"@, error)))
}

/// Build a structured request failure diagnostic. `timed_out` says the
/// request ran out of time, `connect_failed` that it could not connect,
/// `request_error` holds the HTTP client's text when building the request
/// failed, and `error` is the error's text.
pub fn classify_request_error(
    endpoint: &str,
    url: &str,
    timed_out: bool,
    connect_failed: bool,
    request_error: Option<&str>,
    error: &str,
) -> (r: (String, JsonValue))
    ensures
        ({
            let d = request_failure(
                endpoint@,
                url@,
                timed_out,
                connect_failed,
                match request_error {
                    Some(t) => Some(t@),
                    None => None,
                },
                error@,
            );
            r.0@ == d.0 && r.1@ == d.1
        }),
{
    let url_like = match request_error {
        Some(t) => {
            let l = crate::text::to_lowercase(t);
            crate::text::str_contains(l.as_str(), "url")
        },
        None => false,
    };
    let (code, detail) = if timed_out {
        (CODE_NETWORK_TIMEOUT, crate::text::concat2(endpoint, " request timed out"))
    } else if connect_failed {
        (CODE_NETWORK_UNREACHABLE, crate::text::concat2(endpoint, " endpoint is unreachable"))
    } else if url_like {
        (CODE_URL_MALFORMED, crate::text::concat3("Malformed ", endpoint, " URL"))
    } else {
        (CODE_HTTP_REQUEST_FAILED, crate::text::concat3("Failed to request ", endpoint, " endpoint"))
    };
    let mut data = base_data(code, endpoint, url);
    put_exec(&mut data, "error", error);
    (detail, JsonValue::Object(data))
}

/// The diagnostic of a response with an unsuccessful HTTP status.
pub open spec fn status_detail(endpoint: Seq<char>, url: Seq<char>, status: u16) -> (Seq<char>, Json) {
    (
        endpoint + " returned HTTP "@ + decimal(status as nat),
        Json::Object(object_insert(base_members(CODE_HTTP_STATUS@, endpoint, url), "status"@, Json::Number(decimal(status as nat)))),
    )
}

/// Build a structured non-success HTTP status diagnostic.
pub fn http_status_detail(endpoint: &str, url: &str, status: u16) -> (r: (String, JsonValue))
    ensures
        r.0@ == status_detail(endpoint@, url@, status).0,
        r.1@ == status_detail(endpoint@, url@, status).1,
{
    let mut data = base_data(CODE_HTTP_STATUS, endpoint, url);
    let n = crate::text::fmt_u64(status as u64);
    object_insert_exec(&mut data, String::from_str("status"), JsonValue::Number(n.clone()));
    let mut detail = String::from_str(endpoint);
    detail.append(" returned HTTP ");
    detail.append(n.as_str());
    (detail, JsonValue::Object(data))
}

/// The first 160 characters of a body, newlines turned into spaces.
pub open spec fn body_preview(text: Seq<char>) -> Seq<char> {
    let head = if text.len() <= 160 { text } else { text.take(160) };
    head.map_values(|c: char| if c == '\n' { ' ' } else { c })
}

fn preview_exec(text: &str) -> (r: String)
    ensures
        r@ == body_preview(text@),
{
    let cs = crate::text::chars_of(text);
    let n: usize = if cs.len() <= 160 {
        cs.len()
    } else {
        160
    };
    let ghost head = if text@.len() <= 160 { text@ } else { text@.take(160) };
    let mut out: Vec<char> = Vec::new();
    let mut i: usize = 0;
    while i < n
        invariant
            i <= n,
            n == head.len(),
            n <= cs@.len(),
            cs@ == text@,
            head == cs@.take(n as int),
            out@ == head.take(i as int).map_values(|c: char| if c == '\n' { ' ' } else { c }),
        decreases n - i,
    {
        let c = cs[i];
        out.push(if c == '\n' { ' ' } else { c });
        proof {
            assert(head.take(i + 1) =~= head.take(i as int).push(c));
            assert(out@ =~= head.take(i + 1).map_values(|c: char| if c == '\n' { ' ' } else { c }));
        }
        i = i + 1;
    }
    proof {
        assert(head.take(i as int) =~= head);
    }
    crate::text::string_of(out.as_slice())
}

/// A trimmed string member of the payload, empty when absent.
pub open spec fn payload_text(payload: Option<Json>, key: Seq<char>) -> Seq<char> {
    match payload {
        Some(p) => match crate::json::json_get_str(p, key) {
            Some(s) => trim(s),
            None => Seq::empty(),
        },
        None => Seq::empty(),
    }
}

fn payload_text_exec(payload: Option<&JsonValue>, key: &str) -> (r: String)
    ensures
        r@ == payload_text(
            match payload {
                Some(p) => Some(p@),
                None => None,
            },
            key@,
        ),
{
    match payload {
        Some(p) => match p.get(key) {
            Some(v) => match v.as_str() {
                Some(s) => crate::text::trim_str(s),
                None => String::new(),
            },
            None => String::new(),
        },
        None => String::new(),
    }
}

/// The lower-cased path of a URL, empty when it does not parse.
pub open spec fn url_path_lower(url: Seq<char>) -> Seq<char> {
    match url_parse(url) {
        Ok(f) => ascii_lower(f.path),
        Err(_) => Seq::empty(),
    }
}

/// A `400` response reads as a stateful MCP endpoint that wants a session:
/// it says the session id is missing, and tells to initialize with POST
/// (or to obtain a session id, or to POST to the endpoint's path).
pub open spec fn session_required(error: Seq<char>, hint: Seq<char>, body: Seq<char>, path: Seq<char>) -> bool {
    let e = ascii_lower(error);
    let h = ascii_lower(hint);
    let b = ascii_lower(body);
    let post_path = "post "@ + path;
    (contains_seq(e, "missing session id"@) || contains_seq(b, "missing session id"@)) && (contains_seq(
        h,
        "initialize with post"@,
    ) || contains_seq(b, "initialize with post"@) || contains_seq(h, "obtain a session id"@) || contains_seq(
        b,
        "obtain a session id"@,
    ) || (path.len() > 0 && path != "/"@ && (contains_seq(h, post_path) || contains_seq(b, post_path))))
}

/// The session-required diagnostic, when the response is one.
pub open spec fn session_detail(
    endpoint: Seq<char>,
    url: Seq<char>,
    status: u16,
    content_type: Option<Seq<char>>,
    body: Seq<u8>,
    payload: Option<Json>,
) -> Option<(Seq<char>, Json)> {
    let preview = body_preview(crate::text::utf8_lossy(body));
    let error = payload_text(payload, "error"@);
    let hint = payload_text(payload, "hint"@);
    let path = url_path_lower(url);
    if status != 400 || !session_required(error, hint, preview, path) {
        None
    } else {
        let m = object_insert(base_members(CODE_STATEFUL_SESSION_REQUIRED@, endpoint, url), "status"@, Json::Number(decimal(400)));
        let m = put(put(put(m, "error"@, error), "hint"@, hint), "classification"@, "stateful_mcp_requires_session"@);
        let m = put(put(m, "path"@, if path.len() == 0 { "/"@ } else { path }), "body_preview"@, trim(preview));
        let m = match content_type {
            Some(c) => put(m, "content_type"@, c),
            None => m,
        };
        Some((endpoint + " requires an initialized session before GET/DELETE requests"@, Json::Object(m)))
    }
}

/// Classify a response as a stateful MCP endpoint that needs an
/// initialized session before GET/DELETE requests. `body` is the response
/// body and `payload` what reading it as JSON gave.
pub fn classify_stateful_session_required_response(
    endpoint: &str,
    url: &str,
    status: u16,
    content_type: Option<&str>,
    body: &[u8],
    payload: Option<&JsonValue>,
) -> (r: Option<(String, JsonValue)>)
    ensures
        match session_detail(
            endpoint@,
            url@,
            status,
            match content_type {
                Some(c) => Some(c@),
                None => None,
            },
            body@,
            match payload {
                Some(p) => Some(p@),
                None => None,
            },
        ) {
            Some((d, j)) => r matches Some((rd, rj)) && rd@ == d && rj@ == j,
            None => r is None,
        },
{
    if status != 400 {
        return None;
    }
    let text = crate::text::decode_utf8_lossy(body);
    let preview = preview_exec(text.as_str());
    let error = payload_text_exec(payload, "error");
    let hint = payload_text_exec(payload, "hint");
    let path = match parse_url(url) {
        Ok(f) => crate::text::ascii_lower_str(f.path.as_str()),
        Err(_) => String::new(),
    };
    let b = crate::text::ascii_lower_str(preview.as_str());
    let e = crate::text::ascii_lower_str(error.as_str());
    let h = crate::text::ascii_lower_str(hint.as_str());
    let post_path = crate::text::concat2("post ", path.as_str());
    let path_nonempty = crate::text::chars_of(path.as_str()).len() > 0;
    let missing = crate::text::str_contains(e.as_str(), "missing session id") || crate::text::str_contains(
        b.as_str(),
        "missing session id",
    );
    let init = crate::text::str_contains(h.as_str(), "initialize with post") || crate::text::str_contains(
        b.as_str(),
        "initialize with post",
    ) || crate::text::str_contains(h.as_str(), "obtain a session id") || crate::text::str_contains(
        b.as_str(),
        "obtain a session id",
    ) || (path_nonempty && !crate::text::str_eq(path.as_str(), "/") && (crate::text::str_contains(
        h.as_str(),
        post_path.as_str(),
    ) || crate::text::str_contains(b.as_str(), post_path.as_str())));
    if !missing || !init {
        return None;
    }
    let mut data = base_data(CODE_STATEFUL_SESSION_REQUIRED, endpoint, url);
    object_insert_exec(&mut data, String::from_str("status"), JsonValue::Number(crate::text::fmt_u64(400)));
    put_exec(&mut data, "error", error.as_str());
    put_exec(&mut data, "hint", hint.as_str());
    put_exec(&mut data, "classification", "stateful_mcp_requires_session");
    if path_nonempty {
        put_exec(&mut data, "path", path.as_str());
    } else {
        put_exec(&mut data, "path", "/");
    }
    let trimmed = crate::text::trim_str(preview.as_str());
    put_exec(&mut data, "body_preview", trimmed.as_str());
    match content_type {
        Some(c) => put_exec(&mut data, "content_type", c),
        None => {},
    }
    Some((crate::text::concat2(endpoint, " requires an initialized session before GET/DELETE requests"), JsonValue::Object(data)))
}

/// The diagnostic of a body that is not valid JSON.
pub open spec fn invalid_json(
    endpoint: Seq<char>,
    url: Seq<char>,
    content_type: Option<Seq<char>>,
    preview: Seq<char>,
    error: Seq<char>,
) -> (Seq<char>, Json) {
    let m = base_members(CODE_INVALID_JSON@, endpoint, url);
    let m = match content_type {
        Some(c) => put(m, "content_type"@, c),
        None => m,
    };
    (endpoint + " did not return valid JSON"@, Json::Object(put(put(m, "body_preview"@, preview), "error"@, error)))
}

/// Build a structured invalid JSON response diagnostic.
pub fn invalid_json_detail(
    endpoint: &str,
    url: &str,
    content_type: Option<&str>,
    body_preview: &str,
    error: &str,
) -> (r: (String, JsonValue))
    ensures
        ({
            let d = invalid_json(
                endpoint@,
                url@,
                match content_type {
                    Some(c) => Some(c@),
                    None => None,
                },
                body_preview@,
                error@,
            );
            r.0@ == d.0 && r.1@ == d.1
        }),
{
    let mut data = base_data(CODE_INVALID_JSON, endpoint, url);
    match content_type {
        Some(c) => put_exec(&mut data, "content_type", c),
        None => {},
    }
    put_exec(&mut data, "body_preview", body_preview);
    put_exec(&mut data, "error", error);
    (crate::text::concat2(endpoint, " did not return valid JSON"), JsonValue::Object(data))
}

/// A URL path ending in `/` (the root when empty).
pub open spec fn dir_path(path: Seq<char>) -> Seq<char> {
    let p = if path.len() == 0 { "/"@ } else { path };
    if ends_with(p, "/"@) {
        p
    } else {
        p + "/"@
    }
}

/// A URL path made to end in `/`.
pub fn normalize_path(path: &str) -> (r: String)
    ensures
        r@ == dir_path(path@),
{
    let empty = crate::text::chars_of(path).len() == 0;
    let p = if empty {
        String::from_str("/")
    } else {
        String::from_str(path)
    };
    if crate::text::str_ends_with(p.as_str(), "/") {
        p
    } else {
        crate::text::concat2(p.as_str(), "/")
    }
}

/// An issuer URL made comparable: without query or fragment, its path
/// ending in `/`.
pub open spec fn issuer_form(url: Seq<char>) -> Option<Seq<char>> {
    match url_parse(url) {
        Ok(f) => url_rebased(url, dir_path(f.path)),
        Err(_) => None,
    }
}

/// Normalize issuer URL values for deterministic comparison.
pub fn normalize_issuer(url: &str) -> (r: Option<String>)
    ensures
        opt_view(r) == issuer_form(url@),
{
    match parse_url(url) {
        Ok(f) => {
            let p = normalize_path(f.path.as_str());
            crate::urls::rebase_url(url, p.as_str())
        },
        Err(_) => None,
    }
}

/// The members of the issuer-mismatch diagnostic.
pub open spec fn mismatch_members(
    target_url: Seq<char>,
    authorization_server: Seq<char>,
    oauth_issuer: Seq<char>,
    expected_issuer: Seq<char>,
    discovered_issuer: Seq<char>,
) -> Seq<(Seq<char>, Json)> {
    let m = base_members(CODE_ISSUER_MISMATCH@, "oauth_metadata"@, oauth_issuer);
    let m = put(put(put(put(put(m, "configured_url"@, target_url), "authorization_server"@, authorization_server),
        "oauth_issuer"@, oauth_issuer), "expected_issuer"@, expected_issuer), "discovered_issuer"@, discovered_issuer);
    let m = match url_parse(target_url) {
        Ok(t) => put(put(m, "configured_origin"@, t.origin), "configured_path"@, t.path),
        Err(_) => m,
    };
    let m = match url_parse(authorization_server) {
        Ok(a) => put(m, "authorization_server_origin"@, a.origin),
        Err(_) => m,
    };
    match url_parse(oauth_issuer) {
        Ok(i) => put(m, "oauth_issuer_origin"@, i.origin),
        Err(_) => m,
    }
}

/// The detail of an issuer mismatch.
pub open spec fn mismatch_detail() -> Seq<char> {
    "OAuth issuer does not match PRM authorization server"@
}

/// Build a structured issuer mismatch diagnostic.
pub fn issuer_mismatch_detail(
    target_url: &str,
    authorization_server: &str,
    oauth_issuer: &str,
    expected_issuer: &str,
    discovered_issuer: &str,
) -> (r: (String, JsonValue))
    ensures
        r.0@ == mismatch_detail(),
        r.1@ == Json::Object(
            mismatch_members(target_url@, authorization_server@, oauth_issuer@, expected_issuer@, discovered_issuer@),
        ),
{
    let mut data = base_data(CODE_ISSUER_MISMATCH, "oauth_metadata", oauth_issuer);
    put_exec(&mut data, "configured_url", target_url);
    put_exec(&mut data, "authorization_server", authorization_server);
    put_exec(&mut data, "oauth_issuer", oauth_issuer);
    put_exec(&mut data, "expected_issuer", expected_issuer);
    put_exec(&mut data, "discovered_issuer", discovered_issuer);
    match parse_url(target_url) {
        Ok(t) => {
            put_exec(&mut data, "configured_origin", t.origin.as_str());
            put_exec(&mut data, "configured_path", t.path.as_str());
        },
        Err(_) => {},
    }
    match parse_url(authorization_server) {
        Ok(a) => put_exec(&mut data, "authorization_server_origin", a.origin.as_str()),
        Err(_) => {},
    }
    match parse_url(oauth_issuer) {
        Ok(i) => put_exec(&mut data, "oauth_issuer_origin", i.origin.as_str()),
        Err(_) => {},
    }
    (String::from_str("OAuth issuer does not match PRM authorization server"), JsonValue::Object(data))
}

/// A fallback diagnostic's data with the prior attempt attached under
/// `prior_attempt` (the data's members kept when it is an object).
pub open spec fn with_prior(data: Json, prior_detail: Seq<char>, prior_data: Json) -> Json {
    let m = match data {
        Json::Object(es) => es,
        _ => Seq::empty(),
    };
    Json::Object(
        object_insert(
            m,
            "prior_attempt"@,
            Json::Object(seq![("data"@, prior_data), ("detail"@, Json::Str(prior_detail))]),
        ),
    )
}

/// Attach a prior attempt diagnostic to a fallback diagnostic.
pub fn attach_prior_attempt(data: JsonValue, prior_detail: String, prior_data: JsonValue) -> (r: JsonValue)
    ensures
        r@ == with_prior(data@, prior_detail@, prior_data@),
{
    let ghost dv = data@;
    let mut m = match data {
        JsonValue::Object(es) => es,
        _ => Vec::new(),
    };
    proof {
        assert(view_entries(m@) =~= match dv {
            Json::Object(es) => es,
            _ => Seq::empty(),
        });
    }
    let ghost pdv = prior_data@;
    let ghost pdt = prior_detail@;
    let mut prior: Vec<(String, JsonValue)> = Vec::new();
    prior.push((String::from_str("data"), prior_data));
    prior.push((String::from_str("detail"), JsonValue::String(prior_detail)));
    proof {
        crate::json::lemma_view_entries(prior@);
        assert(view_entries(prior@) =~= seq![("data"@, pdv), ("detail"@, Json::Str(pdt))]);
    }
    let pj = JsonValue::Object(prior);
    object_insert_exec(&mut m, String::from_str("prior_attempt"), pj);
    JsonValue::Object(m)
}

} // verus!

verus! {

/// The invalid-JSON diagnostic of a fetched body, whose preview is its
/// start (decoded lossily, line feeds as spaces), trimmed.
pub fn invalid_json_from_body(
    endpoint: &str,
    url: &str,
    content_type: Option<&str>,
    body: &[u8],
    error: &str,
) -> (r: (String, JsonValue))
    ensures
        ({
            let d = invalid_json(
                endpoint@,
                url@,
                match content_type {
                    Some(c) => Some(c@),
                    None => None,
                },
                trim(body_preview(crate::text::utf8_lossy(body@))),
                error@,
            );
            r.0@ == d.0 && r.1@ == d.1
        }),
{
    let text = crate::text::decode_utf8_lossy(body);
    let p = preview_exec(text.as_str());
    let t = crate::text::trim_str(p.as_str());
    invalid_json_detail(endpoint, url, content_type, t.as_str(), error)
}

} // verus!
