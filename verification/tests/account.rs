use vibedev::account::{
    authed_get, authed_post_json, callback_body, callback_email_from, fetch_account,
    is_success, local_auth_json_raw, local_gateway_credentials, login_url_from,
    models_or_cached, read_cached_available_model_ids, refreshed_count_from,
    clear_stale_handshake, relay_login_callback, sidecar_url, sign_out_from, start_login,
    Endpoint, Method, ReplyError,
};

fn endpoint() -> Endpoint {
    Endpoint { port: 52001, token: "t0k".to_string() }
}

#[test]
fn addresses_are_on_the_loopback() {
    assert_eq!(sidecar_url(&endpoint(), "/vibedev/account"), "http://127.0.0.1:52001/vibedev/account");
    assert!(is_success(204));
    assert!(!is_success(302) && !is_success(199));
}

#[test]
fn requests_carry_the_token() {
    let get = authed_get(&endpoint(), "/x");
    assert_eq!(get.method, Method::Get);
    assert_eq!(get.url, "http://127.0.0.1:52001/x");
    assert!(get.headers.iter().any(|(_, v)| v.contains("t0k")));
    assert_eq!(get.body, "");
    let post = authed_post_json(&endpoint(), "/y", "{}".to_string());
    assert_eq!(post.method, Method::Post);
    assert_eq!(post.body, "{}");
    assert!(post.headers.iter().any(|(k, v)| k == "Content-Type" && v == "application/json"));
    assert_eq!(fetch_account(&endpoint()).method, Method::Get);
    assert_eq!(start_login(&endpoint()).method, Method::Post);
}

#[test]
fn the_payload_is_quoted() {
    assert_eq!(callback_body("a\"b"), "{\"payload\":\"a\\\"b\"}");
    assert_eq!(callback_body("a\\\n"), "{\"payload\":\"a\\\\\\n\"}");
    assert_eq!(callback_body("aé/\u{7f}"), "{\"payload\":\"aé/\u{7f}\"}");
    assert_eq!(relay_login_callback(&endpoint(), "p").body, "{\"payload\":\"p\"}");
}

#[test]
fn replies_are_read() {
    assert_eq!(
        login_url_from(r#"{ "login_url": "https://x" }"#),
        Ok("https://x".to_string())
    );
    assert_eq!(login_url_from("{}"), Err(ReplyError::MissingLoginUrl));
    assert_eq!(login_url_from(r#"{ "login_url": "" }"#), Err(ReplyError::MissingLoginUrl));
    let complaint = || ReplyError::NotJson("expected ident at line 1 column 2".to_string());
    assert_eq!(login_url_from("no"), Err(complaint()));
    assert_eq!(callback_email_from("no"), Err(complaint()));
    assert_eq!(sign_out_from("no"), Err(complaint()));
    assert_eq!(refreshed_count_from("no"), Err(complaint()));
    assert_eq!(
        callback_email_from(r#"{ "ok": true, "email": "me@x" }"#),
        Ok(Some("me@x".to_string()))
    );
    assert_eq!(callback_email_from(r#"{ "ok": true }"#), Ok(None));
    assert_eq!(callback_email_from(r#"{ "ok": false }"#), Err(ReplyError::Rejected));
    assert_eq!(sign_out_from(r#"{ "ok": true }"#), Ok(()));
    assert_eq!(sign_out_from(r#"{}"#), Err(ReplyError::Rejected));
    assert_eq!(refreshed_count_from(r#"{ "ok": true, "model_count": 12 }"#), Ok(12));
    assert_eq!(refreshed_count_from(r#"{ "ok": true }"#), Ok(0));
    assert_eq!(refreshed_count_from(r#"{ "ok": false }"#), Err(ReplyError::Rejected));
}

#[test]
fn signed_in_state_is_read() {
    let raw = r#"{
        "api_key": "k",
        "proxy_url": "https://g",
        "available_models": ["a", { "id": "b" }, 3, "", { "id": "" }]
    }"#;
    assert_eq!(read_cached_available_model_ids(raw), vec!["a".to_string(), "b".to_string()]);
    assert_eq!(local_auth_json_raw(raw), Some(raw.to_string()));
    assert_eq!(local_auth_json_raw(" \n"), None);
    assert_eq!(local_gateway_credentials(raw), Some(("k".to_string(), "https://g".to_string())));
    assert_eq!(local_gateway_credentials(r#"{ "api_key": "", "proxy_url": "x" }"#), None);
    assert_eq!(local_gateway_credentials("{"), None);
    assert!(read_cached_available_model_ids("{}").is_empty());
}

#[test]
fn reported_models_come_before_cached_ones() {
    let a = vec!["a".to_string()];
    let b = vec!["b".to_string()];
    assert_eq!(models_or_cached(a.clone(), b.clone()), a);
    assert_eq!(models_or_cached(vec![], b.clone()), b);
}

#[test]
fn a_dead_handshake_is_cleared() {
    assert_eq!(
        clear_stale_handshake(true, false),
        vec!["endpoint.json", "sidecar.lock", "refs"]
    );
    assert!(clear_stale_handshake(true, true).is_empty());
    assert!(clear_stale_handshake(false, false).is_empty());
}
