//! Pieces of auth discovery that decide: where protected-resource metadata
//! may live, what registration endpoint metadata advertises, and whether
//! the OAuth issuer matches the authorization server.

use vstd::prelude::*;
use crate::json::{json_get_str, Json, JsonValue};
use crate::probe::auth_diagnostics::{issuer_form, malformed_detail, mismatch_detail, mismatch_members};
use crate::report::{ProbeStep, ProbeStepStatus};
use crate::text::{opt_view, strings_view, trim};
use crate::urls::{url_parse, url_rebased};

verus! {

/// The registration endpoint OAuth metadata advertises: its
/// `registration_endpoint`, trimmed, when that is a non-blank string.
pub open spec fn advertised_registration(metadata: Option<Json>) -> Option<Seq<char>> {
    match metadata {
        Some(m) => match json_get_str(m, "registration_endpoint"@) {
            Some(s) => if trim(s).len() == 0 {
                None
            } else {
                Some(trim(s))
            },
            None => None,
        },
        None => None,
    }
}

/// The registration endpoint OAuth metadata advertises.
pub fn registration_endpoint_from_metadata(metadata: Option<&JsonValue>) -> (r: Option<String>)
    ensures
        opt_view(r) == advertised_registration(
            match metadata {
                Some(m) => Some(m@),
                None => None,
            },
        ),
{
    match metadata {
        Some(m) => match m.get("registration_endpoint") {
            Some(v) => match v.as_str() {
                Some(s) => {
                    let t = crate::text::trim_str(s);
                    if crate::text::chars_of(t.as_str()).len() == 0 {
                        None
                    } else {
                        Some(t)
                    }
                },
                None => None,
            },
            None => None,
        },
        None => None,
    }
}

/// Record a failed discovery step with its diagnostic.
pub fn push_error_step(steps: &mut Vec<ProbeStep>, name: &str, detail: String, data: JsonValue)
    ensures
        final(steps)@ == old(steps)@.push(
            ProbeStep { name: final(steps)@.last().name, status: ProbeStepStatus::Error, detail: Some(detail), data: Some(data) },
        ),
        final(steps)@.last().name@ == name@,
{
    steps.push(ProbeStep { name: String::from_str(name), status: ProbeStepStatus::Error, detail: Some(detail), data: Some(data) });
}

/// `s` without its leading `c`s.
pub open spec fn strip_leading(s: Seq<char>, c: char) -> Seq<char>
    decreases s.len(),
{
    if s.len() > 0 && s[0] == c {
        strip_leading(s.drop_first(), c)
    } else {
        s
    }
}

/// `s` without its trailing `c`s.
pub open spec fn strip_trailing(s: Seq<char>, c: char) -> Seq<char>
    decreases s.len(),
{
    if s.len() > 0 && s.last() == c {
        strip_trailing(s.drop_last(), c)
    } else {
        s
    }
}

fn strip_slashes(s: &str) -> (r: String)
    ensures
        r@ == strip_trailing(strip_leading(s@, '/'), '/'),
{
    let cs = crate::text::chars_of(s);
    let mut a: usize = 0;
    assert(cs@.subrange(0, cs@.len() as int) =~= s@);
    while a < cs.len() && cs[a] == '/'
        invariant
            a <= cs@.len(),
            strip_leading(s@, '/') == strip_leading(cs@.subrange(a as int, cs@.len() as int), '/'),
            cs@ == s@,
        decreases cs@.len() - a,
    {
        assert(cs@.subrange(a + 1, cs@.len() as int) =~= cs@.subrange(a as int, cs@.len() as int).drop_first());
        a = a + 1;
    }
    let ghost lead = cs@.subrange(a as int, cs@.len() as int);
    assert(strip_leading(s@, '/') == lead);
    let mut b: usize = cs.len();
    while b > a && cs[b - 1] == '/'
        invariant
            a <= b <= cs@.len(),
            strip_trailing(lead, '/') == strip_trailing(cs@.subrange(a as int, b as int), '/'),
            lead == cs@.subrange(a as int, cs@.len() as int),
        decreases b - a,
    {
        assert(cs@.subrange(a as int, b - 1) =~= cs@.subrange(a as int, b as int).drop_last());
        b = b - 1;
    }
    let out = crate::text::slice_chars(&cs, a, b);
    crate::text::string_of(&out)
}

/// The canonical protected-resource metadata path.
pub open spec fn canonical_prm() -> Seq<char> {
    "/.well-known/oauth-protected-resource"@
}

/// The paths where protected-resource metadata for a resource path may
/// live: the canonical path with the resource appended, the resource path
/// with the well-known suffix, then the canonical path (only the canonical
/// path for the root).
pub open spec fn prm_alias_paths(resource_path: Seq<char>) -> Seq<Seq<char>> {
    let t = strip_trailing(strip_leading(trim(resource_path), '/'), '/');
    if t.len() == 0 {
        seq![canonical_prm()]
    } else {
        seq![canonical_prm() + "/"@ + t, "/"@ + t + canonical_prm(), canonical_prm()]
    }
}

/// The paths where protected-resource metadata may live.
pub fn prm_alias_paths_for_resource(resource_path: &str) -> (r: Vec<String>)
    ensures
        strings_view(r@) == prm_alias_paths(resource_path@),
{
    let t0 = crate::text::trim_str(resource_path);
    let t = strip_slashes(t0.as_str());
    let mut v: Vec<String> = Vec::new();
    if crate::text::chars_of(t.as_str()).len() == 0 {
        v.push(String::from_str("/.well-known/oauth-protected-resource"));
        assert(strings_view(v@) =~= prm_alias_paths(resource_path@));
        return v;
    }
    v.push(crate::text::concat3("/.well-known/oauth-protected-resource", "/", t.as_str()));
    v.push(crate::text::concat3("/", t.as_str(), "/.well-known/oauth-protected-resource"));
    v.push(String::from_str("/.well-known/oauth-protected-resource"));
    assert(strings_view(v@) =~= prm_alias_paths(resource_path@));
    v
}

/// The metadata URLs to try for a target: each alias path on the target's
/// origin (the URL with path `/`, no query or fragment, trailing `/`
/// removed). None when the target does not parse.
pub open spec fn prm_alias_urls(target: Seq<char>) -> Option<Seq<Seq<char>>> {
    match url_parse(target) {
        Err(_) => None,
        Ok(f) => match url_rebased(target, "/"@) {
            None => None,
            Some(o) => {
                let origin = strip_trailing(o, '/');
                Some(prm_alias_paths(f.path).map_values(|p: Seq<char>| origin + p))
            },
        },
    }
}

/// The metadata URLs to try for a target.
pub fn prm_alias_urls_for_target(target_url: &str) -> (r: Option<Vec<String>>)
    ensures
        match r {
            Some(v) => prm_alias_urls(target_url@) == Some(strings_view(v@)),
            None => prm_alias_urls(target_url@) is None,
        },
{
    let f = match crate::urls::parse_url(target_url) {
        Err(_) => {
            return None;
        },
        Ok(f) => f,
    };
    let o = match crate::urls::rebase_url(target_url, "/") {
        None => {
            return None;
        },
        Some(o) => o,
    };
    let oc = crate::text::chars_of(o.as_str());
    let mut b: usize = oc.len();
    assert(oc@.subrange(0, oc@.len() as int) =~= o@);
    while b > 0 && oc[b - 1] == '/'
        invariant
            b <= oc@.len(),
            oc@ == o@,
            strip_trailing(o@, '/') == strip_trailing(oc@.subrange(0, b as int), '/'),
        decreases b,
    {
        assert(oc@.subrange(0, b - 1) =~= oc@.subrange(0, b as int).drop_last());
        b = b - 1;
    }
    assert(strip_trailing(oc@.subrange(0, b as int), '/') == oc@.subrange(0, b as int));
    let origin = crate::text::string_of(crate::text::slice_chars(&oc, 0, b).as_slice());
    assert(origin@ == strip_trailing(o@, '/'));
    let paths = prm_alias_paths_for_resource(f.path.as_str());
    let ghost pv = strings_view(paths@);
    let mut out: Vec<String> = Vec::new();
    let mut i: usize = 0;
    while i < paths.len()
        invariant
            i <= paths@.len(),
            pv == strings_view(paths@),
            strings_view(out@) == pv.take(i as int).map_values(|p: Seq<char>| origin@ + p),
        decreases paths@.len() - i,
    {
        let ghost before = strings_view(out@);
        let item = crate::text::concat2(origin.as_str(), paths[i].as_str());
        out.push(item);
        proof {
            assert(strings_view(out@) =~= before.push(item@));
            assert(pv.take(i + 1) =~= pv.take(i as int).push(paths@[i as int]@));
            assert(strings_view(out@) =~= pv.take(i + 1).map_values(|p: Seq<char>| origin@ + p));
        }
        i = i + 1;
    }
    proof {
        assert(pv.take(i as int) =~= pv);
    }
    Some(out)
}

/// The issuer OAuth metadata names: its `issuer`, trimmed, when that is a
/// non-blank string.
pub open spec fn metadata_issuer(metadata: Option<Json>) -> Option<Seq<char>> {
    match metadata {
        Some(m) => match json_get_str(m, "issuer"@) {
            Some(s) => if trim(s).len() == 0 {
                None
            } else {
                Some(trim(s))
            },
            None => None,
        },
        None => None,
    }
}

/// The issuer check: none when the metadata names no issuer; otherwise
/// the `auth.oauth.issuer` step's outcome, detail and data.
pub open spec fn issuer_check(target: Seq<char>, authorization_server: Seq<char>, metadata: Option<Json>) -> Option<
    (bool, Seq<char>, Json),
> {
    match metadata_issuer(metadata) {
        None => None,
        Some(raw) => match issuer_form(authorization_server) {
            None => {
                let d = malformed_detail(
                    "authorization_server"@,
                    authorization_server,
                    "authorization server is not a valid issuer URL"@,
                );
                Some((false, d.0, d.1))
            },
            Some(expected) => match issuer_form(raw) {
                None => {
                    let d = malformed_detail("oauth_issuer"@, raw, "OAuth metadata issuer is malformed"@);
                    Some((false, d.0, d.1))
                },
                Some(discovered) => if expected != discovered {
                    Some(
                        (
                            false,
                            mismatch_detail(),
                            Json::Object(mismatch_members(target, authorization_server, raw, expected, discovered)),
                        ),
                    )
                } else {
                    Some(
                        (
                            true,
                            "OAuth issuer matches PRM authorization_server"@,
                            Json::Object(seq![
                                ("code"@, Json::Str("issuer_validated"@)),
                                ("discovered_issuer"@, Json::Str(discovered)),
                                ("expected_issuer"@, Json::Str(expected)),
                                ("matched"@, Json::Bool(true)),
                            ]),
                        ),
                    )
                },
            },
        },
    }
}

/// Check that the OAuth metadata's issuer matches the authorization server
/// the protected-resource metadata named, recording an `auth.oauth.issuer`
/// step when the metadata names an issuer.
pub fn validate_issuer_alignment(
    target_url: &str,
    authorization_server: &str,
    oauth_metadata: Option<&JsonValue>,
    steps: &mut Vec<ProbeStep>,
)
    ensures
        match issuer_check(
            target_url@,
            authorization_server@,
            match oauth_metadata {
                Some(m) => Some(m@),
                None => None,
            },
        ) {
            None => final(steps)@ == old(steps)@,
            Some((ok, detail, data)) => {
                let s = final(steps)@.last();
                &&& final(steps)@.len() == old(steps)@.len() + 1
                &&& final(steps)@.drop_last() == old(steps)@
                &&& s.name@ == "auth.oauth.issuer"@
                &&& s.status == (if ok {
                    ProbeStepStatus::Passed
                } else {
                    ProbeStepStatus::Error
                })
                &&& opt_view(s.detail) == Some(detail)
                &&& s.data matches Some(j) && j@ == data
            },
        },
{
    let raw = match oauth_metadata {
        Some(m) => match m.get("issuer") {
            Some(v) => match v.as_str() {
                Some(s) => {
                    let t = crate::text::trim_str(s);
                    if crate::text::chars_of(t.as_str()).len() == 0 {
                        return;
                    }
                    t
                },
                None => {
                    return;
                },
            },
            None => {
                return;
            },
        },
        None => {
            return;
        },
    };
    let ghost before = steps@;
    let expected = match crate::probe::auth_diagnostics::normalize_issuer(authorization_server) {
        None => {
            let (detail, data) = crate::probe::auth_diagnostics::malformed_url_detail(
                "authorization_server",
                authorization_server,
                "authorization server is not a valid issuer URL",
            );
            push_error_step(steps, "auth.oauth.issuer", detail, data);
            assert(steps@.drop_last() =~= before);
            return;
        },
        Some(e) => e,
    };
    let discovered = match crate::probe::auth_diagnostics::normalize_issuer(raw.as_str()) {
        None => {
            let (detail, data) = crate::probe::auth_diagnostics::malformed_url_detail(
                "oauth_issuer",
                raw.as_str(),
                "OAuth metadata issuer is malformed",
            );
            push_error_step(steps, "auth.oauth.issuer", detail, data);
            assert(steps@.drop_last() =~= before);
            return;
        },
        Some(d) => d,
    };
    if !crate::text::str_eq(expected.as_str(), discovered.as_str()) {
        let (detail, data) = crate::probe::auth_diagnostics::issuer_mismatch_detail(
            target_url,
            authorization_server,
            raw.as_str(),
            expected.as_str(),
            discovered.as_str(),
        );
        push_error_step(steps, "auth.oauth.issuer", detail, data);
        assert(steps@.drop_last() =~= before);
        return;
    }
    let mut m: Vec<(String, JsonValue)> = Vec::new();
    m.push((String::from_str("code"), JsonValue::String(String::from_str("issuer_validated"))));
    m.push((String::from_str("discovered_issuer"), JsonValue::String(discovered.clone())));
    m.push((String::from_str("expected_issuer"), JsonValue::String(expected.clone())));
    m.push((String::from_str("matched"), JsonValue::Bool(true)));
    proof {
        crate::json::lemma_view_entries(m@);
        assert(crate::json::view_entries(m@) =~= seq![
            ("code"@, Json::Str("issuer_validated"@)),
            ("discovered_issuer"@, Json::Str(discovered@)),
            ("expected_issuer"@, Json::Str(expected@)),
            ("matched"@, Json::Bool(true)),
        ]);
    }
    steps.push(
        ProbeStep {
            name: String::from_str("auth.oauth.issuer"),
            status: ProbeStepStatus::Passed,
            detail: Some(String::from_str("OAuth issuer matches PRM authorization_server")),
            data: Some(JsonValue::Object(m)),
        },
    );
    assert(steps@.drop_last() =~= before);
}

} // verus!

verus! {

/// A metadata fetch that failed with HTTP 404.
pub open spec fn is_not_found(data: Json) -> bool {
    json_get_str(data, "code"@) == Some("http_status"@) && crate::json::json_get(data, "status"@) == Some(
        Json::Number("404"@),
    )
}

/// Whether a metadata fetch failed with HTTP 404.
pub fn fetch_not_found(data: &JsonValue) -> (r: bool)
    ensures
        r == is_not_found(data@),
{
    let code_ok = match data.get("code") {
        Some(c) => match c.as_str() {
            Some(s) => crate::text::str_eq(s, "http_status"),
            None => false,
        },
        None => false,
    };
    let status_ok = match data.get("status") {
        Some(JsonValue::Number(n)) => crate::text::str_eq(n.as_str(), "404"),
        _ => false,
    };
    code_ok && status_ok
}

/// The result of probing one PRM alias URL: its status and whether it was
/// a success, or the request's error.
pub open spec fn alias_entry(url: Seq<char>, outcome: Result<u16, Seq<char>>) -> Json {
    match outcome {
        Ok(status) => Json::Object(
            seq![
                ("ok"@, Json::Bool(200 <= status < 300)),
                ("status"@, crate::catalog_contract::num(status as nat)),
                ("url"@, Json::Str(url)),
            ],
        ),
        Err(e) => Json::Object(
            seq![("error"@, Json::Str(e)), ("ok"@, Json::Bool(false)), ("url"@, Json::Str(url))],
        ),
    }
}

/// The result of probing one PRM alias URL.
pub fn alias_probe_entry(url: &str, outcome: Result<u16, &str>) -> (r: JsonValue)
    ensures
        r@ == alias_entry(
            url@,
            match outcome {
                Ok(s) => Ok(s),
                Err(e) => Err(e@),
            },
        ),
{
    let mut e: Vec<(String, JsonValue)> = Vec::new();
    match outcome {
        Ok(status) => {
            crate::catalog_contract::push_entry(&mut e, "ok", Some(JsonValue::Bool(200 <= status && status < 300)));
            crate::catalog_contract::push_entry(&mut e, "status", Some(crate::catalog_contract::num_json(status as usize)));
            crate::catalog_contract::push_entry(&mut e, "url", Some(JsonValue::String(String::from_str(url))));
        },
        Err(err) => {
            crate::catalog_contract::push_entry(&mut e, "error", Some(JsonValue::String(String::from_str(err))));
            crate::catalog_contract::push_entry(&mut e, "ok", Some(JsonValue::Bool(false)));
            crate::catalog_contract::push_entry(&mut e, "url", Some(JsonValue::String(String::from_str(url))));
        },
    }
    proof {
        assert(crate::json::view_entries(e@) =~= match alias_entry(
            url@,
            match outcome {
                Ok(s) => Ok(s),
                Err(x) => Err(x@),
            },
        ) {
            Json::Object(es) => es,
            _ => Seq::empty(),
        });
    }
    JsonValue::Object(e)
}

/// Some alias answered with success.
pub open spec fn any_alias_reachable(results: Seq<Json>) -> bool {
    exists|i: int| 0 <= i < results.len() && crate::json::json_get(results[i], "ok"@) == Some(Json::Bool(true))
}

/// The diagnosis of a challenged PRM URL that answered 404, given the
/// probes of its aliases: the data records the challenged URL, the alias
/// URLs, their results and a classification; the detail adds a note when
/// another alias is reachable.
pub open spec fn prm_not_found(
    detail: Seq<char>,
    data: Seq<(Seq<char>, Json)>,
    prm_url: Seq<char>,
    aliases: Seq<Seq<char>>,
    results: Seq<Json>,
) -> (Seq<char>, Seq<(Seq<char>, Json)>) {
    let reachable = any_alias_reachable(results);
    let classification = if reachable {
        "challenged_prm_url_unreachable_but_alias_reachable"@
    } else {
        "all_prm_aliases_unreachable"@
    };
    let d1 = crate::json::object_insert(data, "challenged_resource_metadata_url"@, Json::Str(prm_url));
    let d2 = crate::json::object_insert(d1, "expected_prm_alias_urls"@, crate::catalog_contract::str_array(aliases));
    let d3 = crate::json::object_insert(d2, "alias_probe_results"@, Json::Array(results));
    let d4 = crate::json::object_insert(d3, "classification"@, Json::Str(classification));
    (
        if reachable {
            detail + " (challenged URL appears wrong: another PRM alias is reachable)"@
        } else {
            detail
        },
        d4,
    )
}

/// Annotate a PRM fetch that answered 404 with what its aliases answered;
/// data that is not an object is left as it is.
pub fn annotate_prm_not_found(
    detail: String,
    data: JsonValue,
    prm_url: &str,
    aliases: &[String],
    results: Vec<JsonValue>,
) -> (r: (String, JsonValue))
    ensures
        match data@ {
            Json::Object(es) => {
                let (d, m) = prm_not_found(detail@, es, prm_url@, strings_view(aliases@), crate::json::view_items(results@));
                r.0@ == d && r.1@ == Json::Object(m)
            },
            _ => r.0@ == (if any_alias_reachable(crate::json::view_items(results@)) {
                detail@ + " (challenged URL appears wrong: another PRM alias is reachable)"@
            } else {
                detail@
            }) && r.1@ == data@,
        },
{
    let ghost rv = crate::json::view_items(results@);
    proof {
        crate::json::lemma_view_items(results@);
    }
    let mut reachable = false;
    let mut i: usize = 0;
    while i < results.len()
        invariant
            i <= results@.len(),
            rv == crate::json::view_items(results@),
            rv.len() == results@.len(),
            forall|k: int| 0 <= k < results@.len() ==> #[trigger] rv[k] == results@[k]@,
            reachable == exists|k: int|
                0 <= k < i && crate::json::json_get(rv[k], "ok"@) == Some(Json::Bool(true)),
        decreases results@.len() - i,
    {
        let hit = match results[i].get("ok") {
            Some(JsonValue::Bool(b)) => *b,
            _ => false,
        };
        assert(rv[i as int] == results@[i as int]@);
        if hit {
            reachable = true;
        }
        i = i + 1;
    }
    let mut detail = detail;
    if reachable {
        detail.append(" (challenged URL appears wrong: another PRM alias is reachable)");
    }
    match data {
        JsonValue::Object(es) => {
            let mut m = es;
            crate::json::object_insert_exec(&mut m, String::from_str("challenged_resource_metadata_url"), JsonValue::String(String::from_str(prm_url)));
            crate::json::object_insert_exec(&mut m, String::from_str("expected_prm_alias_urls"), crate::catalog_contract::str_array_json(aliases));
            crate::json::object_insert_exec(&mut m, String::from_str("alias_probe_results"), JsonValue::Array(results));
            let classification = if reachable {
                "challenged_prm_url_unreachable_but_alias_reachable"
            } else {
                "all_prm_aliases_unreachable"
            };
            crate::json::object_insert_exec(&mut m, String::from_str("classification"), JsonValue::String(String::from_str(classification)));
            (detail, JsonValue::Object(m))
        },
        other => (detail, other),
    }
}

} // verus!
