use mcp_probe::auth::{
    access_token_from_json, normalize_server_key, refresh_result_from_response,
    refresh_token_from_json, refresh_token_from_plain, token_file_body, TokenFileBody,
};
use mcp_probe::json::JsonValue;

fn object(members: Vec<(&str, JsonValue)>) -> JsonValue {
    JsonValue::Object(members.into_iter().map(|(k, v)| (k.to_string(), v)).collect())
}

fn text(s: &str) -> JsonValue {
    JsonValue::String(s.to_string())
}

#[test]
fn token_file_body_classifies_text() {
    assert_eq!(token_file_body("  \n").err().unwrap(), "Token file is empty.");
    match token_file_body("  abc \n").unwrap() {
        TokenFileBody::Plain(t) => assert_eq!(t, "abc"),
        _ => panic!("expected plain"),
    }
    match token_file_body(" {\"access_token\":\"x\"} ").unwrap() {
        TokenFileBody::Json(t) => assert_eq!(t, "{\"access_token\":\"x\"}"),
        _ => panic!("expected json"),
    }
}

#[test]
fn access_token_from_json_reads_member() {
    let ok = access_token_from_json(Ok(object(vec![("access_token", text("  tok "))])));
    assert_eq!(ok.unwrap(), "tok");
    let blank = access_token_from_json(Ok(object(vec![("access_token", text("   "))])));
    assert_eq!(
        blank.err().unwrap(),
        "Token JSON must include a non-empty access_token string."
    );
    let bad = access_token_from_json(Err("expected value".to_string()));
    assert_eq!(bad.err().unwrap(), "Token file contains invalid JSON: expected value");
}

#[test]
fn refresh_token_from_json_reads_record() {
    let record = refresh_token_from_json(Ok(object(vec![
        ("refresh_token", text(" r1 ")),
        ("client_id", text("cid")),
        ("scope", text("read")),
    ])))
    .unwrap();
    assert_eq!(record.refresh_token, "r1");
    assert_eq!(record.client_id.as_deref(), Some("cid"));
    assert_eq!(record.scope.as_deref(), Some("read"));
    assert_eq!(record.client_secret, None);
    let missing = refresh_token_from_json(Ok(object(vec![("client_id", text("cid"))])));
    assert_eq!(
        missing.err().unwrap(),
        "Token JSON must include a non-empty refresh_token string."
    );
    let plain = refresh_token_from_plain("r2".to_string());
    assert_eq!(plain.refresh_token, "r2");
    assert_eq!(plain.server_url, None);
}

#[test]
fn refresh_result_reads_reply() {
    let err = refresh_result_from_response(false, "400 Bad Request", " nope ", None);
    assert_eq!(err.err().unwrap(), "Token endpoint HTTP 400 Bad Request. nope");
    let err = refresh_result_from_response(false, "500", "  ", None);
    assert_eq!(err.err().unwrap(), "Token endpoint HTTP 500.");
    let empty = refresh_result_from_response(true, "200", "", None);
    assert_eq!(empty.err().unwrap(), "Token endpoint response missing access_token.");
    let not_object = refresh_result_from_response(true, "200", "[1]", Some(Ok(JsonValue::Array(vec![]))));
    assert_eq!(not_object.err().unwrap(), "Token endpoint response must be a JSON object.");
    let body = object(vec![
        ("access_token", text("new")),
        ("refresh_token", text("next")),
        ("expires_in", JsonValue::Number("3600".to_string())),
    ]);
    let ok = refresh_result_from_response(true, "200", "{...}", Some(Ok(body))).unwrap();
    assert_eq!(ok.access_token, "new");
    assert_eq!(ok.refresh_token.as_deref(), Some("next"));
    assert_eq!(ok.expires_in, Some(3600));
    assert_eq!(ok.token_type, None);
}

#[test]
fn normalize_server_key_strips_query_and_slashes() {
    assert_eq!(
        normalize_server_key("https://Example.com/mcp//?x=1#f").unwrap(),
        "https://example.com/mcp"
    );
    assert_eq!(normalize_server_key("https://example.com").unwrap(), "https://example.com/");
    assert!(normalize_server_key("not a url").is_err());
}
