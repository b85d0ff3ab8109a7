//! OAuth token records and the decisions made around them: which auth
//! source is allowed, when a cached token has expired, how the bearer header
//! is attached, and how `resource_metadata` is read from a challenge.

use vstd::prelude::*;
use crate::text::{
    ascii_lower, ascii_lower_char, chars_of, contains_seq, first_occurrence, find_seq, is_blank,
    is_blank_str, is_ws, is_ws_exec, opt_view, str_eq, string_of, strings_view, trim_start,
    trim_start_index,
};

verus! {

/// Cached OAuth tokens stored on disk.
pub struct CachedTokens {
    pub access_token: String,
    pub refresh_token: Option<String>,
    pub token_type: Option<String>,
    pub scope: Option<String>,
    pub expires_at: Option<i64>,
    pub obtained_at: String,
}

/// Shape for refresh-token JSON files on disk.
pub struct RefreshTokenFile {
    pub refresh_token: String,
    pub client_id: Option<String>,
    pub client_secret: Option<String>,
    pub token_endpoint: Option<String>,
    pub scope: Option<String>,
    pub server_url: Option<String>,
}

/// Token cache entry keyed by server URL.
pub struct TokenCacheEntry {
    pub server_url: String,
    pub tokens: CachedTokens,
    pub client_id: Option<String>,
    pub client_secret: Option<String>,
    pub updated_at: String,
}

/// Token cache file structure: one entry per normalized server key. The
/// entries are a list of pairs with distinct keys rather than a string-keyed
/// map, since vstd's map specifications do not hold for `String` keys.
pub struct TokenCache {
    pub version: u32,
    pub entries: Vec<(String, TokenCacheEntry)>,
}

/// Options for refreshing an access token.
pub struct RefreshTokenOptions {
    pub refresh_token: String,
    pub client_id: String,
    pub client_secret: Option<String>,
    pub scope: Option<String>,
    pub server_url: Option<String>,
    pub token_endpoint: Option<String>,
    pub timeout_ms: Option<u64>,
}

/// Result of refreshing an access token.
pub struct RefreshTokenResult {
    pub access_token: String,
    pub refresh_token: Option<String>,
    pub token_type: Option<String>,
    pub expires_in: Option<i64>,
    pub scope: Option<String>,
}

/// CLI options for OAuth authorization.
pub struct OAuthFlowOptions {
    pub server_url: String,
    pub scope: Option<String>,
    pub client_id: Option<String>,
    pub client_secret: Option<String>,
    pub allow_dcr: bool,
    pub expect_registration_endpoint: bool,
    pub redirect_host: String,
    pub redirect_port: u16,
    pub open_browser: bool,
}

/// The message when OAuth metadata lacks the expected registration endpoint.
pub open spec fn missing_registration_endpoint_message() -> Seq<char> {
    "OAuth metadata is missing registration_endpoint. Enable dynamic client registration on the issuer or omit --expect-registration-endpoint."@
}

/// Fail when a registration endpoint is expected and the metadata has none.
pub fn enforce_registration_endpoint_expectation(
    registration_endpoint: Option<&str>,
    expected: bool,
) -> (r: Result<(), String>)
    ensures
        r is Err <==> (expected && registration_endpoint is None),
        r matches Err(m) ==> m@ == missing_registration_endpoint_message(),
{
    if expected && registration_endpoint.is_none() {
        return Err(
            String::from_str(
                "OAuth metadata is missing registration_endpoint. Enable dynamic client registration on the issuer or omit --expect-registration-endpoint.",
            ),
        );
    }
    Ok(())
}

/// The items joined with `", "` between them.
pub open spec fn join_comma(items: Seq<Seq<char>>) -> Seq<char>
    decreases items.len(),
{
    if items.len() == 0 {
        Seq::empty()
    } else if items.len() == 1 {
        items[0]
    } else {
        join_comma(items.drop_last()) + ", "@ + items.last()
    }
}

/// Join strings with `", "`.
pub fn join_with_comma(items: &[String]) -> (r: String)
    ensures
        r@ == join_comma(strings_view(items@)),
{
    let mut out = String::new();
    let mut i: usize = 0;
    while i < items.len()
        invariant
            i <= items@.len(),
            out@ == join_comma(strings_view(items@.subrange(0, i as int))),
        decreases items@.len() - i,
    {
        proof {
            let pre = strings_view(items@.subrange(0, i as int));
            let post = strings_view(items@.subrange(0, i + 1));
            assert(post =~= pre.push(items@[i as int]@));
            assert(post.drop_last() =~= pre);
            if i == 0 {
                assert(pre.len() == 0);
            }
        }
        if i > 0 {
            out.append(", ");
        }
        out.append(items[i].as_str());
        i = i + 1;
    }
    assert(items@.subrange(0, items@.len() as int) =~= items@);
    out
}

/// The conflict message for several auth sources.
pub open spec fn auth_source_error(sources: Seq<Seq<char>>) -> Seq<char> {
    let base = "Specify only one auth source: "@ + join_comma(sources) + "."@;
    let has_use_auth = sources.contains("use_auth"@);
    let has_refresh = sources.contains("refresh_token"@) || sources.contains(
        "refresh_token_path"@,
    );
    if has_use_auth && has_refresh {
        base
            + " use_auth uses cached tokens; refresh_token* refreshes in-memory. Remove use_auth when using refresh_token*."@
    } else {
        base
            + " Choose one: use_auth (cached), access_token/access_token_path, or refresh_token/refresh_token_path."@
    }
}

fn contains_string(items: &[String], value: &str) -> (r: bool)
    ensures
        r == strings_view(items@).contains(value@),
{
    let mut i: usize = 0;
    while i < items.len()
        invariant
            i <= items@.len(),
            forall|j: int| 0 <= j < i ==> items@[j]@ != value@,
        decreases items@.len() - i,
    {
        if str_eq(items[i].as_str(), value) {
            assert(strings_view(items@)[i as int] == value@);
            return true;
        }
        i = i + 1;
    }
    proof {
        if strings_view(items@).contains(value@) {
            let k = choose|k: int| 0 <= k < strings_view(items@).len() && strings_view(items@)[k]
                == value@;
            assert(items@[k]@ == value@);
        }
    }
    false
}

/// Format an auth-source conflict message.
pub fn format_auth_source_error(auth_sources: &[String]) -> (r: String)
    ensures
        r@ == auth_source_error(strings_view(auth_sources@)),
{
    let joined = join_with_comma(auth_sources);
    let has_use_auth = contains_string(auth_sources, "use_auth");
    let has_refresh = contains_string(auth_sources, "refresh_token") || contains_string(
        auth_sources,
        "refresh_token_path",
    );
    let mut base = String::from_str("Specify only one auth source: ");
    base.append(joined.as_str());
    base.append(".");
    if has_use_auth && has_refresh {
        base.append(
            " use_auth uses cached tokens; refresh_token* refreshes in-memory. Remove use_auth when using refresh_token*.",
        );
    } else {
        base.append(
            " Choose one: use_auth (cached), access_token/access_token_path, or refresh_token/refresh_token_path.",
        );
    }
    base
}

/// A token expires thirty seconds early: it is expired once `now + 30`
/// reaches its expiry time; a token without an expiry never expires.
pub open spec fn token_expired_at(token: CachedTokens, now: int) -> bool {
    match token.expires_at {
        Some(e) => e <= now + 30,
        None => false,
    }
}

/// Whether cached tokens are expired at the Unix time `now` (seconds).
pub fn is_token_expired_at(token: &CachedTokens, now: i64) -> (r: bool)
    ensures
        r == token_expired_at(*token, now as int),
{
    match token.expires_at {
        Some(e) => (e as i128) <= (now as i128) + 30,
        None => false,
    }
}

/// Trusted: the current Unix time in seconds, from
/// `time::OffsetDateTime::now_utc().unix_timestamp()`. Nothing is stated of
/// the value: it is the clock's.
#[verifier::external_body]
fn unix_now() -> i64 {
    time::OffsetDateTime::now_utc().unix_timestamp()
}

/// Return true when cached tokens are expired now.
pub fn is_token_expired(token: &CachedTokens) -> (r: bool)
    ensures
        exists|now: i64| r == token_expired_at(*token, now as int),
{
    let now = unix_now();
    let r = is_token_expired_at(token, now);
    assert(r == token_expired_at(*token, now as int));
    r
}

/// The expiry of freshly obtained tokens: an explicit expiry wins, else
/// `now + expires_in` when a lifetime is given.
pub open spec fn resolved_expiry(expires_in: Option<i64>, expires_at: Option<i64>, now: int) -> Option<
    int,
> {
    match expires_at {
        Some(e) => Some(e as int),
        None => match expires_in {
            Some(v) => Some(now + v),
            None => None,
        },
    }
}

/// Trusted: the current time as RFC 3339 text, from
/// `time::OffsetDateTime::now_utc().format(&Rfc3339)`; `None` when
/// formatting fails. Nothing is stated of the text: it is the clock's.
#[verifier::external_body]
fn now_rfc3339() -> Option<String> {
    time::OffsetDateTime::now_utc().format(&time::format_description::well_known::Rfc3339).ok()
}

/// Normalize freshly obtained tokens into the cache format at the current
/// time: the expiry is the explicit one, else now plus the lifetime, and
/// the record is stamped with the current time (the epoch when it cannot
/// be written). `None` only when now plus the lifetime leaves the range of
/// a timestamp.
pub fn normalize_tokens(
    access_token: String,
    refresh_token: Option<String>,
    token_type: Option<String>,
    scope: Option<String>,
    expires_in: Option<i64>,
    expires_at: Option<i64>,
) -> (r: Option<CachedTokens>)
    ensures
        (expires_at is Some || expires_in is None) ==> r is Some,
        match r {
            Some(t) => {
                &&& t.access_token@ == access_token@
                &&& opt_view(t.refresh_token) == opt_view(refresh_token)
                &&& opt_view(t.token_type) == opt_view(token_type)
                &&& opt_view(t.scope) == opt_view(scope)
                &&& exists|now: i64|
                    match t.expires_at {
                        Some(e) => resolved_expiry(expires_in, expires_at, now as int) == Some(e as int),
                        None => resolved_expiry(expires_in, expires_at, now as int) is None,
                    }
            },
            None => expires_at is None && expires_in is Some,
        },
{
    let now = unix_now();
    if expires_at.is_none() {
        match expires_in {
            Some(v) => {
                if now.checked_add(v).is_none() {
                    return None;
                }
            },
            None => {},
        }
    }
    let obtained_at = match now_rfc3339() {
        Some(t) => t,
        None => String::from_str("1970-01-01T00:00:00Z"),
    };
    let t = normalize_tokens_at(access_token, refresh_token, token_type, scope, expires_in, expires_at, now, obtained_at);
    assert(match t.expires_at {
        Some(e) => resolved_expiry(expires_in, expires_at, now as int) == Some(e as int),
        None => resolved_expiry(expires_in, expires_at, now as int) is None,
    });
    Some(t)
}

/// Normalize token timestamps into the cache format, at Unix time `now`
/// and with `obtained_at` as the record's timestamp.
pub fn normalize_tokens_at(
    access_token: String,
    refresh_token: Option<String>,
    token_type: Option<String>,
    scope: Option<String>,
    expires_in: Option<i64>,
    expires_at: Option<i64>,
    now: i64,
    obtained_at: String,
) -> (r: CachedTokens)
    requires
        expires_at is None && expires_in is Some ==> i64::MIN <= now + expires_in->0 <= i64::MAX,
    ensures
        r.access_token@ == access_token@,
        opt_view(r.refresh_token) == opt_view(refresh_token),
        opt_view(r.token_type) == opt_view(token_type),
        opt_view(r.scope) == opt_view(scope),
        match r.expires_at {
            Some(e) => resolved_expiry(expires_in, expires_at, now as int) == Some(e as int),
            None => resolved_expiry(expires_in, expires_at, now as int) is None,
        },
        r.obtained_at@ == obtained_at@,
{
    let resolved = match expires_at {
        Some(e) => Some(e),
        None => match expires_in {
            Some(v) => Some(now + v),
            None => None,
        },
    };
    CachedTokens {
        access_token,
        refresh_token,
        token_type,
        scope,
        expires_at: resolved,
        obtained_at,
    }
}

/// Headers as ordered name/value pairs.
pub open spec fn headers_view(h: Seq<(String, String)>) -> Seq<(Seq<char>, Seq<char>)> {
    h.map_values(|p: (String, String)| (p.0@, p.1@))
}

/// Some header name equals `name` ignoring ASCII case.
pub open spec fn has_header_ci(h: Seq<(Seq<char>, Seq<char>)>, name: Seq<char>) -> bool {
    exists|i: int| 0 <= i < h.len() && ascii_lower(#[trigger] h[i].0) == ascii_lower(name)
}

/// Exec test of ASCII-case-insensitive equality.
pub fn eq_ignore_ascii_case(a: &str, b: &str) -> (r: bool)
    ensures
        r == (ascii_lower(a@) == ascii_lower(b@)),
{
    let la = crate::text::ascii_lower_str(a);
    let lb = crate::text::ascii_lower_str(b);
    str_eq(la.as_str(), lb.as_str())
}

/// The message when an Authorization header is already present.
pub open spec fn authorization_present_message() -> Seq<char> {
    "Authorization header already provided; remove it or disable auth."@
}

/// Attach a bearer token to headers, failing if Authorization is already
/// present under any capitalization.
#[verifier::loop_isolation(false)]
pub fn attach_access_token(headers: Option<Vec<(String, String)>>, access_token: &str) -> (r: Result<
    Vec<(String, String)>,
    String,
>)
    ensures
        ({
            let h = match headers {
                Some(v) => headers_view(v@),
                None => Seq::empty(),
            };
            match r {
                Err(m) => has_header_ci(h, "authorization"@) && m@
                    == authorization_present_message(),
                Ok(v) => !has_header_ci(h, "authorization"@) && headers_view(v@) == h.push(
                    ("Authorization"@, "Bearer "@ + access_token@),
                ),
            }
        }),
{
    let ghost given = headers;
    let mut headers = match headers {
        Some(v) => v,
        None => Vec::new(),
    };
    let ghost h = headers_view(headers@);
    proof {
        if given is None {
            assert(h =~= Seq::<(Seq<char>, Seq<char>)>::empty());
        }
    }
    let mut i: usize = 0;
    while i < headers.len()
        invariant
            i <= headers@.len(),
            h == headers_view(headers@),
            forall|j: int|
                0 <= j < i ==> ascii_lower(headers@[j].0@) != ascii_lower("authorization"@),
        decreases headers@.len() - i,
    {
        if eq_ignore_ascii_case(headers[i].0.as_str(), "authorization") {
            assert(h[i as int].0 == headers@[i as int].0@);
            return Err(
                String::from_str("Authorization header already provided; remove it or disable auth."),
            );
        }
        i = i + 1;
    }
    proof {
        if has_header_ci(h, "authorization"@) {
            let k = choose|k: int|
                0 <= k < h.len() && ascii_lower(#[trigger] h[k].0) == ascii_lower(
                    "authorization"@,
                );
            assert(h[k].0 == headers@[k].0@);
        }
    }
    let mut value = String::from_str("Bearer ");
    value.append(access_token);
    headers.push((String::from_str("Authorization"), value));
    proof {
        assert(headers_view(headers@) =~= h.push(("Authorization"@, "Bearer "@ + access_token@)));
    }
    Ok(headers)
}


/// Scan a quoted header value from position `i` (after the opening quote):
/// backslash escapes the next character, an unescaped quote closes the
/// value. Gives the unescaped text and the position of the closing quote.
pub open spec fn quoted_scan(s: Seq<char>, i: int, escaped: bool) -> Option<(Seq<char>, int)>
    decreases s.len() - i,
{
    if i < 0 || i >= s.len() {
        None
    } else if escaped {
        match quoted_scan(s, i + 1, false) {
            Some((v, k)) => Some((seq![s[i]] + v, k)),
            None => None,
        }
    } else if s[i] == '\\' {
        quoted_scan(s, i + 1, true)
    } else if s[i] == '"' {
        Some((Seq::empty(), i))
    } else {
        match quoted_scan(s, i + 1, false) {
            Some((v, k)) => Some((seq![s[i]] + v, k)),
            None => None,
        }
    }
}

/// A character that ends an unquoted header value.
pub open spec fn is_value_stop(c: char) -> bool {
    c == ',' || c == ';' || is_ws(c)
}

/// The first position at or after `i` holding a stop character, or the end.
pub open spec fn value_end_from(t: Seq<char>, i: int) -> int
    decreases t.len() - i,
{
    if i < 0 || i >= t.len() {
        t.len() as int
    } else if is_value_stop(t[i]) {
        i
    } else {
        value_end_from(t, i + 1)
    }
}

/// A header parameter value at the start of `fragment`, and how many
/// characters of `fragment` it takes: a quoted string (escapes resolved), or
/// the text up to a comma, semicolon or whitespace.
pub open spec fn header_value(fragment: Seq<char>) -> Option<(Seq<char>, int)> {
    let t = trim_start(fragment);
    let lead = fragment.len() - t.len();
    if t.len() > 0 && t[0] == '"' {
        match quoted_scan(t.drop_first(), 0, false) {
            Some((v, k)) => Some((v, lead + k + 2)),
            None => None,
        }
    } else {
        let end = value_end_from(t, 0);
        Some((t.subrange(0, end), lead + end))
    }
}

proof fn lemma_value_end_bounds(t: Seq<char>, i: int)
    requires
        0 <= i <= t.len(),
    ensures
        i <= value_end_from(t, i) <= t.len(),
    decreases t.len() - i,
{
    if i < t.len() && !is_value_stop(t[i]) {
        lemma_value_end_bounds(t, i + 1);
    }
}

/// A scan result with `p` put in front of its text.
pub open spec fn prepend_scan(p: Seq<char>, o: Option<(Seq<char>, int)>) -> Option<(Seq<char>, int)> {
    match o {
        Some((v, k)) => Some((p + v, k)),
        None => None,
    }
}

/// Parse a header parameter value at the start of `fragment`.
#[verifier::loop_isolation(false)]
pub fn parse_header_value(fragment: &str) -> (r: Option<(String, usize)>)
    ensures
        match r {
            Some((v, n)) => header_value(fragment@) == Some((v@, n as int)),
            None => header_value(fragment@) is None,
        },
{
    let cs = chars_of(fragment);
    let start = trim_start_index(&cs);
    let ghost t = cs@.subrange(start as int, cs@.len() as int);
    if start < cs.len() && cs[start] == '"' {
        let ghost u = t.drop_first();
        proof {
            assert(u =~= cs@.subrange(start + 1, cs@.len() as int));
            assert(prepend_scan(Seq::empty(), quoted_scan(u, 0, false)) == quoted_scan(u, 0, false))
                by {
                match quoted_scan(u, 0, false) {
                    Some((v, k)) => {
                        assert(Seq::<char>::empty() + v =~= v);
                    },
                    None => {},
                }
            }
        }
        let mut result: Vec<char> = Vec::new();
        let mut escaped = false;
        let mut i: usize = start + 1;
        while i < cs.len()
            invariant
                start + 1 <= i <= cs@.len(),
                u == cs@.subrange(start + 1, cs@.len() as int),
                quoted_scan(u, 0, false) == prepend_scan(
                    result@,
                    quoted_scan(u, i - start - 1, escaped),
                ),
            decreases cs@.len() - i,
        {
            let ch = cs[i];
            let ghost j = i - start - 1;
            let ghost pre = result@;
            assert(u[j] == ch);
            if escaped {
                result.push(ch);
                escaped = false;
                proof {
                    match quoted_scan(u, j + 1, false) {
                        Some((v, k)) => {
                            assert(pre.push(ch) + v =~= pre + (seq![ch] + v));
                        },
                        None => {},
                    }
                }
            } else if ch == '\\' {
                escaped = true;
            } else if ch == '"' {
                let n = i + 1;
                proof {
                    assert(pre + Seq::<char>::empty() =~= pre);
                    assert(trim_start(fragment@) == t);
                }
                return Some((string_of(&result), n));
            } else {
                result.push(ch);
                proof {
                    match quoted_scan(u, j + 1, false) {
                        Some((v, k)) => {
                            assert(pre.push(ch) + v =~= pre + (seq![ch] + v));
                        },
                        None => {},
                    }
                }
            }
            i = i + 1;
        }
        None
    } else {
        let mut end: usize = start;
        while end < cs.len() && !(cs[end] == ',' || cs[end] == ';' || is_ws_exec(cs[end]))
            invariant
                start <= end <= cs@.len(),
                t == cs@.subrange(start as int, cs@.len() as int),
                value_end_from(t, 0) == value_end_from(t, end - start),
            decreases cs@.len() - end,
        {
            assert(t[end - start] == cs@[end as int]);
            end = end + 1;
        }
        proof {
            if end < cs@.len() {
                assert(t[end - start] == cs@[end as int]);
            }
            lemma_value_end_bounds(t, 0);
        }
        let v = crate::text::slice_chars(&cs, start, end);
        proof {
            assert(v@ =~= t.subrange(0, end - start));
        }
        Some((string_of(&v), end))
    }
}

/// The `resource_metadata` URL announced in a `WWW-Authenticate` header: the
/// value after the first `resource_metadata=` (matched ignoring ASCII case),
/// when it is not blank.
pub open spec fn resource_metadata_url(header: Seq<char>) -> Option<Seq<char>> {
    match first_occurrence(ascii_lower(header), "resource_metadata="@) {
        None => None,
        Some(i) => match header_value(header.subrange(i + 18, header.len() as int)) {
            None => None,
            Some((v, _)) => if is_blank(v) {
                None
            } else {
                Some(v)
            },
        },
    }
}

/// Extract the resource_metadata URL from a WWW-Authenticate header.
pub fn extract_resource_metadata_url(header: &str) -> (r: Option<String>)
    ensures
        opt_view(r) == resource_metadata_url(header@),
{
    let lower = crate::text::ascii_lower_str(header);
    let lc = chars_of(lower.as_str());
    let needle = chars_of("resource_metadata=");
    proof {
        reveal_strlit("resource_metadata=");
    }
    match find_seq(&lc, &needle) {
        None => {
            proof {
                assert(!contains_seq(ascii_lower(header@), "resource_metadata="@));
            }
            None
        },
        Some(i) => {
            proof {
                crate::text::lemma_first_occurrence_is(lc@, needle@, i as int);
                assert(needle@.len() == 18);
                assert(crate::text::occurs_at(lc@, needle@, i as int));
                assert(i + 18 <= lc@.len());
            }
            let hc = chars_of(header);
            assert(lc@.len() == hc@.len());
            assert(i + 18 <= hc.len());
            let frag = crate::text::slice_chars(&hc, i + 18, hc.len());
            let frag_s = string_of(&frag);
            match parse_header_value(frag_s.as_str()) {
                None => None,
                Some((value, _consumed)) => {
                    if is_blank_str(value.as_str()) {
                        None
                    } else {
                        Some(value)
                    }
                },
            }
        },
    }
}

} // verus!

verus! {

// ---------------------------------------------------------------------------
// Token files, refresh responses and cache keys.
// ---------------------------------------------------------------------------

/// What a token file holds, once trimmed: a JSON record (read by the
/// caller) or the token itself.
pub enum TokenFileBody {
    Json(String),
    Plain(String),
}

/// How a token file's text reads: empty is a failure; text starting with
/// `{` is JSON; anything else is the token.
pub open spec fn token_body(raw: Seq<char>) -> Result<(bool, Seq<char>), Seq<char>> {
    let t = crate::text::trim(raw);
    if t.len() == 0 {
        Err("Token file is empty."@)
    } else if t[0] == '{' {
        Ok((true, t))
    } else {
        Ok((false, t))
    }
}

/// Classify a token file's text.
pub fn token_file_body(raw: &str) -> (r: Result<TokenFileBody, String>)
    ensures
        match token_body(raw@) {
            Err(m) => r matches Err(e) && e@ == m,
            Ok((json, t)) => match r {
                Ok(TokenFileBody::Json(s)) => json && s@ == t,
                Ok(TokenFileBody::Plain(s)) => !json && s@ == t,
                Err(_) => false,
            },
        },
{
    let t = crate::text::trim_str(raw);
    let cs = chars_of(t.as_str());
    if cs.len() == 0 {
        return Err(String::from_str("Token file is empty."));
    }
    if cs[0] == '{' {
        Ok(TokenFileBody::Json(t))
    } else {
        Ok(TokenFileBody::Plain(t))
    }
}

/// A non-blank string member, trimmed.
pub open spec fn nonblank_member(j: crate::json::Json, key: Seq<char>) -> Option<Seq<char>> {
    match crate::json::json_get_str(j, key) {
        Some(s) => if crate::text::trim(s).len() == 0 {
            None
        } else {
            Some(crate::text::trim(s))
        },
        None => None,
    }
}

fn nonblank_member_exec(j: &crate::json::JsonValue, key: &str) -> (r: Option<String>)
    ensures
        opt_view(r) == nonblank_member(j@, key@),
{
    match j.get(key) {
        Some(v) => match v.as_str() {
            Some(s) => {
                let t = crate::text::trim_str(s);
                if chars_of(t.as_str()).len() == 0 {
                    None
                } else {
                    Some(t)
                }
            },
            None => None,
        },
        None => None,
    }
}

fn str_member_exec(j: &crate::json::JsonValue, key: &str) -> (r: Option<String>)
    ensures
        opt_view(r) == crate::json::json_get_str(j@, key@),
{
    match j.get(key) {
        Some(v) => match v.as_str() {
            Some(s) => Some(String::from_str(s)),
            None => None,
        },
        None => None,
    }
}

/// The access token of a JSON token file, given what reading its text as
/// JSON gave.
pub open spec fn access_token_of(parsed: Result<crate::json::Json, Seq<char>>) -> Result<Seq<char>, Seq<char>> {
    match parsed {
        Err(e) => Err("Token file contains invalid JSON: "@ + e),
        Ok(j) => match nonblank_member(j, "access_token"@) {
            Some(t) => Ok(t),
            None => Err("Token JSON must include a non-empty access_token string."@),
        },
    }
}

/// The access token of a JSON token file.
pub fn access_token_from_json(parsed: Result<crate::json::JsonValue, String>) -> (r: Result<String, String>)
    ensures
        match access_token_of(crate::cli::parsed_view(parsed)) {
            Ok(t) => r matches Ok(s) && s@ == t,
            Err(m) => r matches Err(e) && e@ == m,
        },
{
    match parsed {
        Err(e) => Err(crate::text::concat2("Token file contains invalid JSON: ", e.as_str())),
        Ok(j) => match nonblank_member_exec(&j, "access_token") {
            Some(t) => Ok(t),
            None => Err(String::from_str("Token JSON must include a non-empty access_token string.")),
        },
    }
}

/// The refresh-token record of a JSON token file: the refresh token, and
/// the string members that go with it.
pub open spec fn refresh_record_of(parsed: Result<crate::json::Json, Seq<char>>) -> Result<
    (Seq<char>, Seq<Option<Seq<char>>>),
    Seq<char>,
> {
    match parsed {
        Err(e) => Err("Token file contains invalid JSON: "@ + e),
        Ok(j) => match nonblank_member(j, "refresh_token"@) {
            None => Err("Token JSON must include a non-empty refresh_token string."@),
            Some(t) => Ok(
                (
                    t,
                    seq![
                        crate::json::json_get_str(j, "client_id"@),
                        crate::json::json_get_str(j, "client_secret"@),
                        crate::json::json_get_str(j, "token_endpoint"@),
                        crate::json::json_get_str(j, "scope"@),
                        crate::json::json_get_str(j, "server_url"@),
                    ],
                ),
            ),
        },
    }
}

/// The fields of a refresh-token record as plain values.
pub open spec fn refresh_file_view(f: RefreshTokenFile) -> (Seq<char>, Seq<Option<Seq<char>>>) {
    (
        f.refresh_token@,
        seq![
            opt_view(f.client_id),
            opt_view(f.client_secret),
            opt_view(f.token_endpoint),
            opt_view(f.scope),
            opt_view(f.server_url),
        ],
    )
}

/// The refresh-token record of a JSON token file.
pub fn refresh_token_from_json(parsed: Result<crate::json::JsonValue, String>) -> (r: Result<RefreshTokenFile, String>)
    ensures
        match refresh_record_of(crate::cli::parsed_view(parsed)) {
            Ok(v) => r matches Ok(f) && refresh_file_view(f) == v,
            Err(m) => r matches Err(e) && e@ == m,
        },
{
    match parsed {
        Err(e) => Err(crate::text::concat2("Token file contains invalid JSON: ", e.as_str())),
        Ok(j) => match nonblank_member_exec(&j, "refresh_token") {
            None => Err(String::from_str("Token JSON must include a non-empty refresh_token string.")),
            Some(t) => {
                let f = RefreshTokenFile {
                    refresh_token: t,
                    client_id: str_member_exec(&j, "client_id"),
                    client_secret: str_member_exec(&j, "client_secret"),
                    token_endpoint: str_member_exec(&j, "token_endpoint"),
                    scope: str_member_exec(&j, "scope"),
                    server_url: str_member_exec(&j, "server_url"),
                };
                assert(refresh_file_view(f) =~= refresh_record_of(crate::cli::parsed_view(Ok::<crate::json::JsonValue, String>(j)))->Ok_0);
                Ok(f)
            },
        },
    }
}

/// A plain token file's refresh token, with nothing else known.
pub fn refresh_token_from_plain(token: String) -> (r: RefreshTokenFile)
    ensures
        r.refresh_token@ == token@,
        r.client_id is None && r.client_secret is None && r.token_endpoint is None,
        r.scope is None && r.server_url is None,
{
    RefreshTokenFile {
        refresh_token: token,
        client_id: None,
        client_secret: None,
        token_endpoint: None,
        scope: None,
        server_url: None,
    }
}

/// What a token endpoint's reply gives: a failure for an unsuccessful
/// status (with the trimmed body when there is one), for a body that is
/// not a JSON object, or for a missing access token; else the tokens.
/// `parsed` is what reading the body as JSON gave (none when the body is
/// blank, which counts as an empty object).
pub open spec fn refresh_outcome(
    success: bool,
    status: Seq<char>,
    raw: Seq<char>,
    parsed: Option<Result<crate::json::Json, Seq<char>>>,
) -> Result<(Seq<char>, Seq<Option<Seq<char>>>, Option<int>), Seq<char>> {
    let detail = crate::text::trim(raw);
    if !success {
        Err("Token endpoint HTTP "@ + status + "."@ + (if detail.len() == 0 { Seq::empty() } else { " "@ + detail }))
    } else {
        let body = if detail.len() == 0 {
            Ok(crate::json::Json::Object(Seq::empty()))
        } else {
            match parsed {
                Some(p) => p,
                None => Ok(crate::json::Json::Null),
            }
        };
        match body {
            Err(e) => Err("Token endpoint returned invalid JSON: "@ + e),
            Ok(j) => if !(j is Object) {
                Err("Token endpoint response must be a JSON object."@)
            } else {
                match nonblank_member(j, "access_token"@) {
                    None => Err("Token endpoint response missing access_token."@),
                    Some(t) => Ok(
                        (
                            t,
                            seq![
                                crate::json::json_get_str(j, "refresh_token"@),
                                crate::json::json_get_str(j, "token_type"@),
                                crate::json::json_get_str(j, "scope"@),
                            ],
                            match crate::json::json_get(j, "expires_in"@) {
                                Some(crate::json::Json::Number(n)) => crate::replay::signed_value(n),
                                _ => None,
                            },
                        ),
                    ),
                }
            },
        }
    }
}

/// Read a token endpoint's reply. `success` and `status` are the HTTP
/// status's class and text; `parsed` is what reading the body as JSON gave,
/// when the body is not blank.
pub fn refresh_result_from_response(
    success: bool,
    status: &str,
    raw: &str,
    parsed: Option<Result<crate::json::JsonValue, String>>,
) -> (r: Result<RefreshTokenResult, String>)
    requires
        crate::text::trim(raw@).len() > 0 ==> parsed is Some,
    ensures
        match refresh_outcome(
            success,
            status@,
            raw@,
            match parsed {
                Some(p) => Some(crate::cli::parsed_view(p)),
                None => None,
            },
        ) {
            Ok((t, fields, expires)) => r matches Ok(res) && res.access_token@ == t && fields == seq![
                opt_view(res.refresh_token),
                opt_view(res.token_type),
                opt_view(res.scope),
            ] && expires == match res.expires_in {
                Some(n) => Some(n as int),
                None => None,
            },
            Err(m) => r matches Err(e) && e@ == m,
        },
{
    let detail = crate::text::trim_str(raw);
    let blank = chars_of(detail.as_str()).len() == 0;
    if !success {
        let mut m = String::from_str("Token endpoint HTTP ");
        m.append(status);
        m.append(".");
        if !blank {
            m.append(" ");
            m.append(detail.as_str());
        }
        return Err(m);
    }
    let body: Result<crate::json::JsonValue, String> = if blank {
        Ok(crate::json::JsonValue::Object(Vec::new()))
    } else {
        match parsed {
            Some(p) => p,
            None => Ok(crate::json::JsonValue::Null),
        }
    };
    proof {
        if blank {
            assert(crate::json::view_entries(Seq::<(String, crate::json::JsonValue)>::empty()) =~= Seq::<(Seq<char>, crate::json::Json)>::empty());
        }
    }
    let j = match body {
        Err(e) => {
            return Err(crate::text::concat2("Token endpoint returned invalid JSON: ", e.as_str()));
        },
        Ok(j) => j,
    };
    if !j.is_object() {
        return Err(String::from_str("Token endpoint response must be a JSON object."));
    }
    let access_token = match nonblank_member_exec(&j, "access_token") {
        None => {
            return Err(String::from_str("Token endpoint response missing access_token."));
        },
        Some(t) => t,
    };
    let expires_in = match j.get("expires_in") {
        Some(crate::json::JsonValue::Number(n)) => crate::replay::parse_i64(n.as_str()),
        _ => None,
    };
    let res = RefreshTokenResult {
        access_token,
        refresh_token: str_member_exec(&j, "refresh_token"),
        token_type: str_member_exec(&j, "token_type"),
        expires_in,
        scope: str_member_exec(&j, "scope"),
    };
    proof {
        assert(seq![opt_view(res.refresh_token), opt_view(res.token_type), opt_view(res.scope)] =~= seq![
            crate::json::json_get_str(j@, "refresh_token"@),
            crate::json::json_get_str(j@, "token_type"@),
            crate::json::json_get_str(j@, "scope"@),
        ]);
    }
    Ok(res)
}

/// The key a server's tokens are cached under: its origin and its path
/// without trailing slashes (`/` for the root); the parse error's text when
/// the URL does not parse.
pub open spec fn server_key(server_url: Seq<char>) -> Result<Seq<char>, Seq<char>> {
    match crate::urls::url_parse(server_url) {
        Err(e) => Err(e),
        Ok(f) => {
            let p = crate::probe::auth_discovery::strip_trailing(f.path, '/');
            Ok(f.origin + if p.len() == 0 { "/"@ } else { p })
        },
    }
}

/// The cache key of a server URL.
pub fn normalize_server_key(server_url: &str) -> (r: Result<String, String>)
    ensures
        match server_key(server_url@) {
            Ok(k) => r matches Ok(s) && s@ == k,
            Err(m) => r matches Err(e) && e@ == m,
        },
{
    let f = match crate::urls::parse_url(server_url) {
        Err(e) => {
            return Err(e);
        },
        Ok(f) => f,
    };
    let pc = chars_of(f.path.as_str());
    let mut b: usize = pc.len();
    assert(pc@.subrange(0, pc@.len() as int) =~= f.path@);
    while b > 0 && pc[b - 1] == '/'
        invariant
            b <= pc@.len(),
            pc@ == f.path@,
            crate::probe::auth_discovery::strip_trailing(f.path@, '/') == crate::probe::auth_discovery::strip_trailing(
                pc@.subrange(0, b as int),
                '/',
            ),
        decreases b,
    {
        assert(pc@.subrange(0, b - 1) =~= pc@.subrange(0, b as int).drop_last());
        b = b - 1;
    }
    assert(crate::probe::auth_discovery::strip_trailing(pc@.subrange(0, b as int), '/') == pc@.subrange(0, b as int));
    if b == 0 {
        Ok(crate::text::concat2(f.origin.as_str(), "/"))
    } else {
        let p = string_of(crate::text::slice_chars(&pc, 0, b).as_slice());
        Ok(crate::text::concat2(f.origin.as_str(), p.as_str()))
    }
}

} // verus!

verus! {

// ---------------------------------------------------------------------------
// Finding the token endpoint of a refresh, and the refresh request's body.
// ---------------------------------------------------------------------------

/// Where finding a token endpoint starts: an endpoint that was given, or
/// the server whose challenge names its resource metadata.
pub enum EndpointStart {
    Given(String),
    ProbeServer(String),
}

/// The failure of a discovery that found nothing to follow.
pub open spec fn discovery_failed() -> Seq<char> {
    "Failed to discover OAuth token endpoint."@
}

/// The failure of a metadata fetch, with the fetch's error text.
pub open spec fn fetch_failed(error: Option<Seq<char>>) -> Seq<char> {
    "Failed to discover OAuth token endpoint. "@ + match error {
        Some(e) => e,
        None => Seq::empty(),
    }
}

/// The allowlist failure for a URL of the given kind.
pub open spec fn host_refused(label: Seq<char>) -> Seq<char> {
    label + " host is not in the allowlist"@
}

/// A given token endpoint is used when its host is allowed; else the server
/// URL is probed when its host is allowed; with neither, refreshing fails.
pub open spec fn endpoint_start(
    token_endpoint: Option<Seq<char>>,
    server_url: Option<Seq<char>>,
    allowed: Option<Seq<Seq<char>>>,
) -> Result<(bool, Seq<char>), Seq<char>> {
    match token_endpoint {
        Some(e) => if crate::allowlist::host_allowed(e, allowed) {
            Ok((true, e))
        } else {
            Err(host_refused("Token endpoint"@))
        },
        None => match server_url {
            None => Err("token_endpoint or serverUrl is required to refresh tokens."@),
            Some(s) => if crate::allowlist::host_allowed(s, allowed) {
                Ok((false, s))
            } else {
                Err(host_refused("Server"@))
            },
        },
    }
}

/// Decide where finding the token endpoint of a refresh starts.
pub fn token_endpoint_start(options: &RefreshTokenOptions, allowed_hosts: Option<&[String]>) -> (r: Result<
    EndpointStart,
    String,
>)
    ensures
        match endpoint_start(
            opt_view(options.token_endpoint),
            opt_view(options.server_url),
            crate::allowlist::opt_hosts(allowed_hosts),
        ) {
            Ok((given, u)) => match r {
                Ok(EndpointStart::Given(e)) => given && e@ == u,
                Ok(EndpointStart::ProbeServer(s)) => !given && s@ == u,
                Err(_) => false,
            },
            Err(m) => r matches Err(e) && e@ == m,
        },
{
    match &options.token_endpoint {
        Some(e) => {
            match crate::allowlist::ensure_host_allowed(e.as_str(), allowed_hosts, "Token endpoint") {
                Err(m) => Err(m),
                Ok(_) => Ok(EndpointStart::Given(e.clone())),
            }
        },
        None => match &options.server_url {
            None => Err(String::from_str("token_endpoint or serverUrl is required to refresh tokens.")),
            Some(s) => match crate::allowlist::ensure_host_allowed(s.as_str(), allowed_hosts, "Server") {
                Err(m) => Err(m),
                Ok(_) => Ok(EndpointStart::ProbeServer(s.clone())),
            },
        },
    }
}

/// The resource metadata a server's challenge points to: only a 401 or 403
/// reply counts, its `WWW-Authenticate` header must name the metadata, and
/// the metadata's host must be allowed.
pub open spec fn prm_from_challenge(status: u16, www_authenticate: Seq<char>, allowed: Option<Seq<Seq<char>>>) -> Result<
    Seq<char>,
    Seq<char>,
> {
    if status != 401 && status != 403 {
        Err(discovery_failed())
    } else {
        match resource_metadata_url(www_authenticate) {
            None => Err(discovery_failed()),
            Some(u) => if crate::allowlist::host_allowed(u, allowed) {
                Ok(u)
            } else {
                Err(host_refused("PRM"@))
            },
        }
    }
}

/// Read the resource metadata URL from a server's reply.
pub fn prm_url_from_challenge(status: u16, www_authenticate: &str, allowed_hosts: Option<&[String]>) -> (r: Result<
    String,
    String,
>)
    ensures
        match prm_from_challenge(status, www_authenticate@, crate::allowlist::opt_hosts(allowed_hosts)) {
            Ok(u) => r matches Ok(s) && s@ == u,
            Err(m) => r matches Err(e) && e@ == m,
        },
{
    if status != 401 && status != 403 {
        return Err(String::from_str("Failed to discover OAuth token endpoint."));
    }
    match extract_resource_metadata_url(www_authenticate) {
        None => Err(String::from_str("Failed to discover OAuth token endpoint.")),
        Some(u) => match crate::allowlist::ensure_host_allowed(u.as_str(), allowed_hosts, "PRM") {
            Err(m) => Err(m),
            Ok(_) => Ok(u),
        },
    }
}

/// The first authorization server a resource metadata document names.
pub open spec fn first_auth_server(data: Option<crate::json::Json>) -> Option<Seq<char>> {
    let doc = match data {
        Some(j) => j,
        None => crate::json::Json::Null,
    };
    match crate::json::json_get(doc, "authorization_servers"@) {
        Some(crate::json::Json::Array(items)) => if items.len() > 0 {
            crate::json::json_as_str(items[0])
        } else {
            None
        },
        _ => None,
    }
}

/// An issuer URL ends with a slash.
pub open spec fn with_slash(s: Seq<char>) -> Seq<char> {
    if s.len() > 0 && s.last() == '/' {
        s
    } else {
        s.push('/')
    }
}

/// From the resource metadata fetch: its failure, else the first
/// authorization server (whose host must be allowed), and the two metadata
/// URLs under it (OpenID configuration, then OAuth server metadata), each
/// of whose hosts must be allowed.
pub open spec fn metadata_urls(
    ok: bool,
    data: Option<crate::json::Json>,
    error: Option<Seq<char>>,
    allowed: Option<Seq<Seq<char>>>,
) -> Result<(Seq<char>, Seq<char>), Seq<char>> {
    if !ok {
        Err(fetch_failed(error))
    } else {
        match first_auth_server(data) {
            None => Err(discovery_failed()),
            Some(s) => if !crate::allowlist::host_allowed(s, allowed) {
                Err(host_refused("Authorization server"@))
            } else {
                let issuer = with_slash(s);
                match crate::urls::url_joined(issuer, ".well-known/openid-configuration"@) {
                    Err(e) => Err(e),
                    Ok(oidc) => match crate::urls::url_joined(issuer, ".well-known/oauth-authorization-server"@) {
                        Err(e) => Err(e),
                        Ok(oauth) => if !crate::allowlist::host_allowed(oidc, allowed) || !crate::allowlist::host_allowed(
                            oauth,
                            allowed,
                        ) {
                            Err(host_refused("OAuth metadata"@))
                        } else {
                            Ok((oidc, oauth))
                        },
                    },
                }
            },
        }
    }
}

/// The JSON documents' plain values.
pub open spec fn opt_json(o: Option<crate::json::JsonValue>) -> Option<crate::json::Json> {
    match o {
        Some(j) => Some(j@),
        None => None,
    }
}

/// The two authorization-server metadata URLs to try, from the resource
/// metadata fetch (`ok`, the document, the error text).
pub fn metadata_urls_from_prm(
    ok: bool,
    data: Option<crate::json::JsonValue>,
    error: Option<String>,
    allowed_hosts: Option<&[String]>,
) -> (r: Result<(String, String), String>)
    ensures
        match metadata_urls(ok, opt_json(data), opt_view(error), crate::allowlist::opt_hosts(allowed_hosts)) {
            Ok((a, b)) => r matches Ok((x, y)) && x@ == a && y@ == b,
            Err(m) => r matches Err(e) && e@ == m,
        },
{
    if !ok {
        let mut m = String::from_str("Failed to discover OAuth token endpoint. ");
        match &error {
            Some(e) => m.append(e.as_str()),
            None => {},
        }
        return Err(m);
    }
    let server: Option<String> = match &data {
        None => None,
        Some(doc) => match doc.get("authorization_servers") {
            Some(v) => match v.as_array() {
                Some(items) => if items.len() > 0 {
                    proof {
                        crate::json::lemma_view_items(items@);
                        assert(v@ == crate::json::Json::Array(crate::json::view_items(items@)));
                    }
                    match items[0].as_str() {
                        Some(s) => Some(String::from_str(s)),
                        None => None,
                    }
                } else {
                    proof {
                        crate::json::lemma_view_items(items@);
                        assert(v@ == crate::json::Json::Array(crate::json::view_items(items@)));
                    }
                    None
                },
                None => None,
            },
            None => None,
        },
    };
    assert(opt_view(server) == first_auth_server(opt_json(data)));
    let s = match server {
        None => {
            return Err(String::from_str("Failed to discover OAuth token endpoint."));
        },
        Some(s) => s,
    };
    match crate::allowlist::ensure_host_allowed(s.as_str(), allowed_hosts, "Authorization server") {
        Err(m) => {
            return Err(m);
        },
        Ok(_) => {},
    }
    let sc = chars_of(s.as_str());
    let issuer = if sc.len() > 0 && sc[sc.len() - 1] == '/' {
        s
    } else {
        let mut t = s;
        t.append("/");
        proof {
            reveal_strlit("/");
            assert(t@ =~= with_slash(sc@));
        }
        t
    };
    assert(issuer@ == with_slash(sc@));
    let oidc = match crate::urls::join_url(issuer.as_str(), ".well-known/openid-configuration") {
        Err(e) => {
            return Err(e);
        },
        Ok(u) => u,
    };
    let oauth = match crate::urls::join_url(issuer.as_str(), ".well-known/oauth-authorization-server") {
        Err(e) => {
            return Err(e);
        },
        Ok(u) => u,
    };
    match crate::allowlist::ensure_host_allowed(oidc.as_str(), allowed_hosts, "OAuth metadata") {
        Err(m) => {
            return Err(m);
        },
        Ok(_) => {},
    }
    match crate::allowlist::ensure_host_allowed(oauth.as_str(), allowed_hosts, "OAuth metadata") {
        Err(m) => {
            return Err(m);
        },
        Ok(_) => {},
    }
    Ok((oidc, oauth))
}

/// The token endpoint from an authorization-server metadata fetch: the
/// fetch's failure, else its `token_endpoint` string, whose host must be
/// allowed.
pub open spec fn endpoint_from_metadata(
    ok: bool,
    data: Option<crate::json::Json>,
    error: Option<Seq<char>>,
    allowed: Option<Seq<Seq<char>>>,
) -> Result<Seq<char>, Seq<char>> {
    if !ok {
        Err(fetch_failed(error))
    } else {
        match data {
            None => Err(discovery_failed()),
            Some(d) => match crate::json::json_get_str(d, "token_endpoint"@) {
                None => Err(discovery_failed()),
                Some(e) => if crate::allowlist::host_allowed(e, allowed) {
                    Ok(e)
                } else {
                    Err(host_refused("Token endpoint"@))
                },
            },
        }
    }
}

/// Read the token endpoint from the metadata that was fetched: the OpenID
/// configuration when that fetch succeeded (pass it with `ok` set and no
/// error), else the OAuth server metadata.
pub fn token_endpoint_from_metadata(
    ok: bool,
    data: Option<crate::json::JsonValue>,
    error: Option<String>,
    allowed_hosts: Option<&[String]>,
) -> (r: Result<String, String>)
    ensures
        match endpoint_from_metadata(ok, opt_json(data), opt_view(error), crate::allowlist::opt_hosts(allowed_hosts)) {
            Ok(e) => r matches Ok(s) && s@ == e,
            Err(m) => r matches Err(e) && e@ == m,
        },
        r matches Ok(s) ==> crate::allowlist::host_allowed(s@, crate::allowlist::opt_hosts(allowed_hosts)),
{
    if !ok {
        let mut m = String::from_str("Failed to discover OAuth token endpoint. ");
        match &error {
            Some(e) => m.append(e.as_str()),
            None => {},
        }
        return Err(m);
    }
    let endpoint = match &data {
        None => None,
        Some(d) => match d.get("token_endpoint") {
            Some(v) => match v.as_str() {
                Some(s) => Some(String::from_str(s)),
                None => None,
            },
            None => None,
        },
    };
    match endpoint {
        None => Err(String::from_str("Failed to discover OAuth token endpoint.")),
        Some(e) => match crate::allowlist::ensure_host_allowed(e.as_str(), allowed_hosts, "Token endpoint") {
            Err(m) => Err(m),
            Ok(_) => Ok(e),
        },
    }
}

/// The form fields of a refresh request, in order: the grant type, the
/// refresh token, the client id, then the client secret and scope when
/// given.
pub open spec fn refresh_form_pairs(o: RefreshTokenOptions) -> Seq<(Seq<char>, Seq<char>)> {
    seq![
        ("grant_type"@, "refresh_token"@),
        ("refresh_token"@, o.refresh_token@),
        ("client_id"@, o.client_id@),
    ] + match o.client_secret {
        Some(s) => seq![("client_secret"@, s@)],
        None => Seq::empty(),
    } + match o.scope {
        Some(s) => seq![("scope"@, s@)],
        None => Seq::empty(),
    }
}

/// The form-encoded body of a refresh request.
pub fn refresh_form_body(options: &RefreshTokenOptions) -> (r: String)
    ensures
        r@ == crate::urls::form_encoded(refresh_form_pairs(*options)),
{
    let mut pairs: Vec<(String, String)> = Vec::new();
    pairs.push((String::from_str("grant_type"), String::from_str("refresh_token")));
    pairs.push((String::from_str("refresh_token"), options.refresh_token.clone()));
    pairs.push((String::from_str("client_id"), options.client_id.clone()));
    match &options.client_secret {
        Some(s) => pairs.push((String::from_str("client_secret"), s.clone())),
        None => {},
    }
    match &options.scope {
        Some(s) => pairs.push((String::from_str("scope"), s.clone())),
        None => {},
    }
    assert(crate::urls::pairs_view(pairs@) =~= refresh_form_pairs(*options));
    crate::urls::encode_form(pairs.as_slice())
}

} // verus!

verus! {

// ---------------------------------------------------------------------------
// The OAuth redirect: reading the browser's request and answering it.
// ---------------------------------------------------------------------------

/// What the OAuth redirect carried.
pub struct CallbackResult {
    pub code: Option<String>,
    pub state: Option<String>,
    pub error: Option<String>,
    pub error_description: Option<String>,
}

/// The first line of a text, as `str::lines` gives it: up to the first
/// line feed, without a carriage return before it.
pub open spec fn first_line(s: Seq<char>) -> Seq<char> {
    let p = match first_occurrence(s, seq!['\n']) {
        Some(i) => s.subrange(0, i),
        None => s,
    };
    if p.len() > 0 && p.last() == '\r' {
        p.drop_last()
    } else {
        p
    }
}

/// Scanning a text for whitespace-separated words: the words completed so
/// far, and the word being read.
pub open spec fn ws_scan(s: Seq<char>) -> (Seq<Seq<char>>, Seq<char>)
    decreases s.len(),
{
    if s.len() == 0 {
        (Seq::empty(), Seq::empty())
    } else {
        let (done, cur) = ws_scan(s.drop_last());
        let c = s.last();
        if is_ws(c) {
            if cur.len() > 0 {
                (done.push(cur), Seq::empty())
            } else {
                (done, Seq::empty())
            }
        } else {
            (done, cur.push(c))
        }
    }
}

/// The words of a text, as `str::split_whitespace` gives them.
pub open spec fn words(s: Seq<char>) -> Seq<Seq<char>> {
    let (done, cur) = ws_scan(s);
    if cur.len() > 0 {
        done.push(cur)
    } else {
        done
    }
}

/// The words of a text, in order.
pub fn split_words(s: &str) -> (r: Vec<String>)
    ensures
        strings_view(r@) == words(s@),
{
    let cs = chars_of(s);
    let mut done: Vec<String> = Vec::new();
    let mut cur: Vec<char> = Vec::new();
    let mut i: usize = 0;
    while i < cs.len()
        invariant
            i <= cs@.len(),
            cs@ == s@,
            (strings_view(done@), cur@) == ws_scan(cs@.subrange(0, i as int)),
        decreases cs@.len() - i,
    {
        let c = cs[i];
        assert(cs@.subrange(0, i + 1).drop_last() =~= cs@.subrange(0, i as int));
        if is_ws_exec(c) {
            if cur.len() > 0 {
                let w = string_of(cur.as_slice());
                let ghost before = done@;
                done.push(w);
                proof {
                    assert(done@.drop_last() =~= before);
                    assert(strings_view(done@) =~= strings_view(before).push(w@));
                }
                cur = Vec::new();
            }
        } else {
            cur.push(c);
        }
        i = i + 1;
    }
    assert(cs@.subrange(0, cs@.len() as int) =~= s@);
    if cur.len() > 0 {
        let w = string_of(cur.as_slice());
        let ghost before = done@;
        done.push(w);
        proof {
            assert(done@.drop_last() =~= before);
            assert(strings_view(done@) =~= strings_view(before).push(w@));
        }
    }
    done
}

/// The request target of an HTTP request: the second word of its first
/// line, empty when there is none.
pub open spec fn request_target_of(request: Seq<char>) -> Seq<char> {
    let w = words(first_line(request));
    if w.len() > 1 {
        w[1]
    } else {
        Seq::empty()
    }
}

fn line_end(cs: &Vec<char>) -> (r: usize)
    ensures
        r <= cs@.len(),
        match first_occurrence(cs@, seq!['\n']) {
            Some(i) => r == i,
            None => r == cs@.len(),
        },
{
    let nl: Vec<char> = vec!['\n'];
    assert(nl@ =~= seq!['\n']);
    match find_seq(cs.as_slice(), nl.as_slice()) {
        Some(i) => {
            proof {
                crate::text::lemma_first_occurrence_is(cs@, nl@, i as int);
            }
            i
        },
        None => cs.len(),
    }
}

/// The first line of a text.
#[verifier::spinoff_prover]
#[verifier::rlimit(40)]
pub fn first_line_of(text: &str) -> (r: String)
    ensures
        r@ == first_line(text@),
{
    let cs = chars_of(text);
    let end = line_end(&cs);
    let mut stop = end;
    if stop > 0 && cs[stop - 1] == '\r' {
        stop = stop - 1;
    }
    let line = string_of(crate::text::slice_chars(&cs, 0, stop).as_slice());
    proof {
        let p = cs@.subrange(0, end as int);
        assert(match first_occurrence(text@, seq!['\n']) {
            Some(i) => text@.subrange(0, i),
            None => text@,
        } =~= p);
        if end > 0 && cs@[end - 1] == '\r' {
            assert(line@ =~= p.drop_last());
        } else {
            assert(line@ =~= p);
        }
    }
    line
}

/// The request target of an HTTP request.
pub fn request_target(request: &str) -> (r: String)
    ensures
        r@ == request_target_of(request@),
{
    let line = first_line_of(request);
    let ws = split_words(line.as_str());
    if ws.len() > 1 {
        ws[1].clone()
    } else {
        String::new()
    }
}

/// The URL the redirect asked for on the listener at `host` and `port`.
pub open spec fn callback_url_text(host: Seq<char>, port: u16, target: Seq<char>) -> Seq<char> {
    "http://"@ + host + ":"@ + crate::text::decimal(port as nat) + target
}

/// The value of the last pair named `key`, as a loop that overwrites keeps
/// it.
pub open spec fn last_value(pairs: Seq<(Seq<char>, Seq<char>)>, key: Seq<char>) -> Option<Seq<char>>
    decreases pairs.len(),
{
    if pairs.len() == 0 {
        None
    } else if pairs.last().0 == key {
        Some(pairs.last().1)
    } else {
        last_value(pairs.drop_last(), key)
    }
}

/// The decoded query pairs of a URL, in order, or the parse error's text.
pub uninterp spec fn url_query(text: Seq<char>) -> Result<Seq<(Seq<char>, Seq<char>)>, Seq<char>>;

/// Trusted: `url::Url::parse`, then `query_pairs` (the URL's query read as
/// `application/x-www-form-urlencoded`), each pair turned into two strings;
/// the parse error's `Display` text on failure. The outcome depends on the
/// text alone and is named `url_query`; the decoding rules are not
/// restated.
#[verifier::external_body]
fn query_pairs(url: &str) -> (r: Result<Vec<(String, String)>, String>)
    ensures
        match r {
            Ok(p) => url_query(url@) == Ok::<Seq<(Seq<char>, Seq<char>)>, Seq<char>>(crate::urls::pairs_view(p@)),
            Err(e) => url_query(url@) == Err::<Seq<(Seq<char>, Seq<char>)>, Seq<char>>(e@),
        },
{
    match url::Url::parse(url) {
        Ok(u) => Ok(u.query_pairs().map(|(k, v)| (k.to_string(), v.to_string())).collect()),
        Err(e) => Err(e.to_string()),
    }
}

/// The redirect's fields from its query pairs: for each name, the value of
/// its last pair.
pub open spec fn callback_matches(pairs: Seq<(Seq<char>, Seq<char>)>, r: CallbackResult) -> bool {
    &&& opt_view(r.code) == last_value(pairs, "code"@)
    &&& opt_view(r.state) == last_value(pairs, "state"@)
    &&& opt_view(r.error) == last_value(pairs, "error"@)
    &&& opt_view(r.error_description) == last_value(pairs, "error_description"@)
}

/// Read the redirect's fields from its query pairs.
pub fn callback_from_pairs(pairs: &[(String, String)]) -> (r: CallbackResult)
    ensures
        callback_matches(crate::urls::pairs_view(pairs@), r),
{
    let ghost pv = crate::urls::pairs_view(pairs@);
    let mut r = CallbackResult { code: None, state: None, error: None, error_description: None };
    let mut i: usize = 0;
    while i < pairs.len()
        invariant
            i <= pairs@.len(),
            pv == crate::urls::pairs_view(pairs@),
            callback_matches(pv.subrange(0, i as int), r),
        decreases pairs@.len() - i,
    {
        let (k, v) = (&pairs[i].0, &pairs[i].1);
        let ghost pre = pv.subrange(0, i as int);
        let ghost next = pv.subrange(0, i + 1);
        proof {
            reveal_strlit("code");
            reveal_strlit("state");
            reveal_strlit("error");
            reveal_strlit("error_description");
            assert(next.drop_last() =~= pre);
            assert(next.last() == (k@, v@));
            assert("code"@[0] != "state"@[0] && "code"@[0] != "error"@[0] && "code"@[0] != "error_description"@[0]);
            assert("state"@[0] != "error"@[0] && "state"@[0] != "error_description"@[0]);
            assert("error"@.len() != "error_description"@.len());
        }
        if str_eq(k.as_str(), "code") {
            r.code = Some(v.clone());
        } else if str_eq(k.as_str(), "state") {
            r.state = Some(v.clone());
        } else if str_eq(k.as_str(), "error") {
            r.error = Some(v.clone());
        } else if str_eq(k.as_str(), "error_description") {
            r.error_description = Some(v.clone());
        }
        proof {
            assert(last_value(next, "code"@) == if k@ == "code"@ { Some(v@) } else { last_value(pre, "code"@) });
            assert(last_value(next, "state"@) == if k@ == "state"@ { Some(v@) } else { last_value(pre, "state"@) });
            assert(last_value(next, "error"@) == if k@ == "error"@ { Some(v@) } else { last_value(pre, "error"@) });
            assert(last_value(next, "error_description"@) == if k@ == "error_description"@ {
                Some(v@)
            } else {
                last_value(pre, "error_description"@)
            });
        }
        assert(callback_matches(next, r));
        i = i + 1;
    }
    assert(pv.subrange(0, i as int) =~= pv);
    r
}

/// Read the redirect from the browser's request to the listener at `host`
/// and `port`: the request target's query, read as a URL on that listener.
pub fn read_callback(host: &str, port: u16, request: &str) -> (r: Result<CallbackResult, String>)
    ensures
        match url_query(callback_url_text(host@, port, request_target_of(request@))) {
            Ok(p) => r matches Ok(c) && callback_matches(p, c),
            Err(e) => r matches Err(m) && m@ == e,
        },
{
    let target = request_target(request);
    let mut u = String::from_str("http://");
    u.append(host);
    u.append(":");
    let p = crate::text::fmt_u64(port as u64);
    u.append(p.as_str());
    u.append(target.as_str());
    assert(u@ =~= callback_url_text(host@, port, request_target_of(request@)));
    match query_pairs(u.as_str()) {
        Err(e) => Err(e),
        Ok(pairs) => Ok(callback_from_pairs(pairs.as_slice())),
    }
}

/// The body the redirect page shows.
pub open spec fn callback_body(failed: bool) -> Seq<char> {
    if failed {
        "OAuth error received. You may close this window."@
    } else {
        "Authorization complete. You may close this window."@
    }
}

/// The HTTP reply to the redirect: a plain-text page whose length is given.
pub open spec fn callback_reply_text(failed: bool) -> Seq<char> {
    "HTTP/1.1 200 OK\r\nContent-Type: text/plain\r\nContent-Length: "@ + crate::text::decimal(
        callback_body(failed).len(),
    ) + "\r\n\r\n"@ + callback_body(failed)
}

/// The HTTP reply to the redirect: an error page when it carried an error.
pub fn callback_reply(callback: &CallbackResult) -> (r: String)
    ensures
        r@ == callback_reply_text(callback.error is Some),
{
    let body = if callback.error.is_some() {
        "OAuth error received. You may close this window."
    } else {
        "Authorization complete. You may close this window."
    };
    let mut m = String::from_str("HTTP/1.1 200 OK\r\nContent-Type: text/plain\r\nContent-Length: ");
    let n = crate::text::fmt_usize(chars_of(body).len());
    m.append(n.as_str());
    m.append("\r\n\r\n");
    m.append(body);
    m
}

/// What the redirect gives the flow: its error (with the description when
/// there is one), else the code and the state, each of which must be there.
pub open spec fn callback_outcome(c: CallbackResult) -> Result<(Seq<char>, Seq<char>), Seq<char>> {
    match c.error {
        Some(e) => Err(
            "OAuth error: "@ + match c.error_description {
                Some(d) => e@ + ": "@ + d@,
                None => e@,
            },
        ),
        None => match c.code {
            None => Err("No authorization code received."@),
            Some(code) => match c.state {
                None => Err("No state received from callback."@),
                Some(state) => Ok((code@, state@)),
            },
        },
    }
}

/// The authorization code and state of the redirect.
pub fn callback_code(callback: &CallbackResult) -> (r: Result<(String, String), String>)
    ensures
        match callback_outcome(*callback) {
            Ok((c, s)) => r matches Ok((x, y)) && x@ == c && y@ == s,
            Err(m) => r matches Err(e) && e@ == m,
        },
{
    match &callback.error {
        Some(e) => {
            let mut m = String::from_str("OAuth error: ");
            m.append(e.as_str());
            match &callback.error_description {
                Some(d) => {
                    m.append(": ");
                    m.append(d.as_str());
                },
                None => {},
            }
            Err(m)
        },
        None => match &callback.code {
            None => Err(String::from_str("No authorization code received.")),
            Some(code) => match &callback.state {
                None => Err(String::from_str("No state received from callback.")),
                Some(state) => Ok((code.clone(), state.clone())),
            },
        },
    }
}

/// The redirect URL the flow registers.
pub open spec fn redirect_url_text(host: Seq<char>, port: u16) -> Seq<char> {
    "http://"@ + host + ":"@ + crate::text::decimal(port as nat) + "/oauth/callback"@
}

/// The redirect URL the flow registers.
pub fn redirect_url(host: &str, port: u16) -> (r: String)
    ensures
        r@ == redirect_url_text(host@, port),
{
    let mut u = String::from_str("http://");
    u.append(host);
    u.append(":");
    let p = crate::text::fmt_u64(port as u64);
    u.append(p.as_str());
    u.append("/oauth/callback");
    u
}

/// The scopes a flow asks for: the words of its scope setting.
pub fn scope_list(scope: Option<&str>) -> (r: Vec<String>)
    ensures
        strings_view(r@) == match scope {
            Some(s) => words(s@),
            None => Seq::empty(),
        },
{
    match scope {
        Some(s) => split_words(s),
        None => Vec::new(),
    }
}

/// Whether a request read so far holds the blank line that ends its head.
pub fn head_complete(buffer: &[u8]) -> (r: bool)
    ensures
        r == exists|i: int|
            0 <= i && i + 4 <= buffer@.len() && #[trigger] buffer@.subrange(i, i + 4) == seq![13u8, 10u8, 13u8, 10u8],
{
    let mut i: usize = 0;
    while buffer.len() >= 4 && i <= buffer.len() - 4
        invariant
            forall|j: int|
                0 <= j < i && j + 4 <= buffer@.len() ==> #[trigger] buffer@.subrange(j, j + 4) != seq![
                    13u8,
                    10u8,
                    13u8,
                    10u8,
                ],
        decreases buffer@.len() - i,
    {
        if buffer[i] == 13 && buffer[i + 1] == 10 && buffer[i + 2] == 13 && buffer[i + 3] == 10 {
            assert(buffer@.subrange(i as int, i + 4) =~= seq![13u8, 10u8, 13u8, 10u8]);
            return true;
        }
        assert(buffer@.subrange(i as int, i + 4) != seq![13u8, 10u8, 13u8, 10u8]) by {
            if buffer@.subrange(i as int, i + 4) == seq![13u8, 10u8, 13u8, 10u8] {
                assert(buffer@.subrange(i as int, i + 4)[0] == buffer@[i as int]);
            }
        }
        i = i + 1;
    }
    false
}

} // verus!

verus! {

// ---------------------------------------------------------------------------
// The token cache: one entry per normalized server key.
// ---------------------------------------------------------------------------

/// The position of the entry stored under `key`, scanning from `i`.
pub open spec fn cache_index_from(entries: Seq<(String, TokenCacheEntry)>, key: Seq<char>, i: int) -> Option<int>
    decreases entries.len() - i,
{
    if i < 0 || i >= entries.len() {
        None
    } else if entries[i].0@ == key {
        Some(i)
    } else {
        cache_index_from(entries, key, i + 1)
    }
}

/// The entry stored under `key`, if any.
pub open spec fn cache_get(entries: Seq<(String, TokenCacheEntry)>, key: Seq<char>) -> Option<TokenCacheEntry> {
    match cache_index_from(entries, key, 0) {
        Some(i) => Some(entries[i].1),
        None => None,
    }
}

proof fn lemma_index_from_found(entries: Seq<(String, TokenCacheEntry)>, key: Seq<char>, i: int)
    requires
        0 <= i,
    ensures
        match cache_index_from(entries, key, i) {
            Some(j) => i <= j < entries.len() && entries[j].0@ == key && forall|k: int|
                i <= k < j ==> entries[k].0@ != key,
            None => forall|k: int| i <= k < entries.len() ==> entries[k].0@ != key,
        },
    decreases entries.len() - i,
{
    if i < entries.len() && entries[i].0@ != key {
        lemma_index_from_found(entries, key, i + 1);
    }
}

proof fn lemma_index_from_is(entries: Seq<(String, TokenCacheEntry)>, key: Seq<char>, i: int, j: int)
    requires
        0 <= i <= j < entries.len(),
        entries[j].0@ == key,
        forall|k: int| i <= k < j ==> entries[k].0@ != key,
    ensures
        cache_index_from(entries, key, i) == Some(j),
    decreases j - i,
{
    if i < j {
        lemma_index_from_is(entries, key, i + 1, j);
    }
}

proof fn lemma_index_from_none(entries: Seq<(String, TokenCacheEntry)>, key: Seq<char>, i: int)
    requires
        0 <= i,
        forall|k: int| i <= k < entries.len() ==> entries[k].0@ != key,
    ensures
        cache_index_from(entries, key, i) is None,
    decreases entries.len() - i,
{
    if i < entries.len() {
        lemma_index_from_none(entries, key, i + 1);
    }
}

/// The entry stored under a key.
pub fn cache_lookup<'a>(cache: &'a TokenCache, key: &str) -> (r: Option<&'a TokenCacheEntry>)
    ensures
        match r {
            Some(e) => cache_get(cache.entries@, key@) == Some(*e),
            None => cache_get(cache.entries@, key@) is None,
        },
{
    let mut i: usize = 0;
    while i < cache.entries.len()
        invariant
            i <= cache.entries@.len(),
            forall|k: int| 0 <= k < i ==> cache.entries@[k].0@ != key@,
        decreases cache.entries@.len() - i,
    {
        if str_eq(cache.entries[i].0.as_str(), key) {
            proof {
                lemma_index_from_is(cache.entries@, key@, 0, i as int);
            }
            return Some(&cache.entries[i].1);
        }
        i = i + 1;
    }
    proof {
        lemma_index_from_none(cache.entries@, key@, 0);
    }
    None
}

/// Store an entry under a key: it replaces the entry already stored there,
/// else it is added at the end.
pub fn cache_store(cache: &mut TokenCache, key: String, entry: TokenCacheEntry)
    ensures
        final(cache).version == old(cache).version,
        cache_get(final(cache).entries@, key@) == Some(entry),
        forall|k: Seq<char>| k != key@ ==> cache_get(final(cache).entries@, k) == cache_get(old(cache).entries@, k),
{
    let ghost before = cache.entries@;
    let mut i: usize = 0;
    while i < cache.entries.len()
        invariant
            i <= cache.entries@.len(),
            cache.entries@ == before,
            cache.version == old(cache).version,
            before == old(cache).entries@,
            forall|k: int| 0 <= k < i ==> cache.entries@[k].0@ != key@,
        decreases cache.entries@.len() - i,
    {
        if str_eq(cache.entries[i].0.as_str(), key.as_str()) {
            let ghost kv = key@;
            cache.entries.set(i, (key, entry));
            proof {
                let after = cache.entries@;
                assert(after == before.update(i as int, after[i as int]));
                lemma_index_from_is(after, kv, 0, i as int);
                assert forall|k: Seq<char>| k != kv implies cache_get(after, k) == cache_get(before, k) by {
                    lemma_index_from_found(before, k, 0);
                    match cache_index_from(before, k, 0) {
                        Some(j) => {
                            assert(j != i);
                            assert forall|m: int| 0 <= m < j implies after[m].0@ != k by {
                                if m == i {
                                } else {
                                    assert(after[m] == before[m]);
                                }
                            }
                            lemma_index_from_is(after, k, 0, j);
                        },
                        None => {
                            assert forall|m: int| 0 <= m < after.len() implies after[m].0@ != k by {
                                if m != i {
                                    assert(after[m] == before[m]);
                                }
                            }
                            lemma_index_from_none(after, k, 0);
                        },
                    }
                }
            }
            return;
        }
        i = i + 1;
    }
    let ghost kv = key@;
    cache.entries.push((key, entry));
    proof {
        let after = cache.entries@;
        assert(after.drop_last() == before);
        lemma_index_from_is(after, kv, 0, before.len() as int);
        assert forall|k: Seq<char>| k != kv implies cache_get(after, k) == cache_get(before, k) by {
            lemma_index_from_found(before, k, 0);
            match cache_index_from(before, k, 0) {
                Some(j) => {
                    assert forall|m: int| 0 <= m < j implies after[m].0@ != k by {
                        assert(after[m] == before[m]);
                    }
                    lemma_index_from_is(after, k, 0, j);
                },
                None => {
                    assert forall|m: int| 0 <= m < after.len() implies after[m].0@ != k by {
                        if m < before.len() {
                            assert(after[m] == before[m]);
                        }
                    }
                    lemma_index_from_none(after, k, 0);
                },
            }
        }
    }
}

/// The guidance when no tokens are cached for a server.
pub open spec fn no_cached_tokens_message() -> Seq<char> {
    "No cached tokens found for this server URL. Run `mcp-probe auth` first, or pass access_token_path/refresh_token_path (token files must live under MCP_PROBE_TOKEN_DIR)."@
}

/// The guidance when the cached access token has expired.
pub open spec fn expired_tokens_message() -> Seq<char> {
    "Cached access token has expired. Run `mcp-probe auth` again, or pass access_token_path/refresh_token_path (token files must live under MCP_PROBE_TOKEN_DIR)."@
}

/// The cached access token of a server at time `now`: none cached and an
/// expired token are failures with guidance.
pub fn cached_access_token(entry: Option<&TokenCacheEntry>, now: i64) -> (r: Result<String, String>)
    ensures
        match entry {
            None => r matches Err(m) && m@ == no_cached_tokens_message(),
            Some(e) => if token_expired_at(e.tokens, now as int) {
                r matches Err(m) && m@ == expired_tokens_message()
            } else {
                r matches Ok(t) && t@ == e.tokens.access_token@
            },
        },
{
    match entry {
        None => Err(String::from_str(
            "No cached tokens found for this server URL. Run `mcp-probe auth` first, or pass access_token_path/refresh_token_path (token files must live under MCP_PROBE_TOKEN_DIR).",
        )),
        Some(e) => if is_token_expired_at(&e.tokens, now) {
            Err(String::from_str(
                "Cached access token has expired. Run `mcp-probe auth` again, or pass access_token_path/refresh_token_path (token files must live under MCP_PROBE_TOKEN_DIR).",
            ))
        } else {
            Ok(e.tokens.access_token.clone())
        },
    }
}

} // verus!
