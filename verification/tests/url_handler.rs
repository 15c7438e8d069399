use vibedev::url_handler::{
    callback_query, decode_payload, next_revision, parse_callback_url, payload_in, CallbackError,
    VibedevAccountUpdated,
};

#[test]
fn parses_payload_from_well_formed_url() {
    let payload = parse_callback_url("vibedev://auth-callback?payload=eyJrIjoidiJ9").unwrap();
    assert_eq!(payload, "eyJrIjoidiJ9");
}

#[test]
fn tolerates_trailing_slash_before_query() {
    let payload = parse_callback_url("vibedev://auth-callback/?payload=eyJrIjoidiJ9").unwrap();
    assert_eq!(payload, "eyJrIjoidiJ9");
}

#[test]
fn url_decodes_payload_value() {
    // base64 commonly contains `+` and `=` which the browser percent-encodes.
    let payload = parse_callback_url("vibedev://auth-callback?payload=a%2Bb%3D%3D").unwrap();
    assert_eq!(payload, "a+b==");
}

#[test]
fn rejects_unknown_route() {
    let err = parse_callback_url("vibedev://something-else?payload=x").unwrap_err();
    assert!(err.message().contains("unexpected vibedev:// route"));
}

#[test]
fn rejects_missing_payload() {
    let err = parse_callback_url("vibedev://auth-callback?state=x").unwrap_err();
    assert!(err.message().contains("missing `payload`"));
}

#[test]
fn rejects_empty_payload() {
    let err = parse_callback_url("vibedev://auth-callback?payload=").unwrap_err();
    assert!(err.message().contains("missing `payload`"));
}

#[test]
fn rejects_non_vibedev_scheme() {
    let err = parse_callback_url("https://example.com/?payload=x").unwrap_err();
    assert!(err.message().contains("not a vibedev:// URL"));
}

#[test]
fn decode_payload_passes_plain_base64_through() {
    assert_eq!(decode_payload("eyJrIjoidiJ9").unwrap(), "eyJrIjoidiJ9");
}

#[test]
fn decode_payload_unescapes_percent_encoded() {
    assert_eq!(decode_payload("a%2Bb%3D%3D").unwrap(), "a+b==");
}

#[test]
fn a_payload_that_is_no_text_does_not_decode() {
    assert_eq!(decode_payload("%ff"), None);
}

#[test]
fn rejects_url_without_query() {
    assert_eq!(parse_callback_url("vibedev://auth-callback"), Err(CallbackError::MissingQuery));
    assert_eq!(callback_query("vibedev://auth-callback?x=1"), Ok("x=1".to_string()));
    assert_eq!(
        callback_query("vibedev://other?x=1"),
        Err(CallbackError::UnexpectedRoute("other".to_string()))
    );
}

#[test]
fn first_payload_counts() {
    let pairs = vec![
        ("state".to_string(), "s".to_string()),
        ("payload".to_string(), "one".to_string()),
        ("payload".to_string(), "two".to_string()),
    ];
    assert_eq!(payload_in(&pairs), Some("one".to_string()));
    assert_eq!(payload_in(&vec![]), None);
}

#[test]
fn every_callback_has_a_new_revision() {
    let first = next_revision(None);
    let second = next_revision(Some(first));
    assert_ne!(first, second);
    assert_eq!(next_revision(Some(VibedevAccountUpdated { revision: 7 })).revision, 8);
}
