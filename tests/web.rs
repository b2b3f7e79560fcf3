use tracking_params::rules::default_rules;
use tracking_params::web::{redirect_response, REDIRECT_HTML};
use tracking_params::{hash, HttpError, PrivacyFriendlyRootSpanBuilder, Redirect, RequestDetails};

#[test]
fn http_error_status_codes() {
    assert_eq!(HttpError::Forbidden.status_code(), 403);
    assert_eq!(HttpError::InternalServerError(anyhow::Error::msg("boom")).status_code(), 500);
}

#[test]
fn metrics_are_forbidden_through_the_proxy() {
    let proxied = RequestDetails::from_header(Some("1.2.3.4"));
    assert_eq!(proxied.ip_address.as_deref(), Some("1.2.3.4"));
    assert!(proxied.forbids("/metrics"));
    assert!(!proxied.forbids("/metrics/x"));
    assert!(!proxied.forbids("/"));
    let direct = RequestDetails::from_header(None);
    assert!(direct.ip_address.is_none());
    assert!(!direct.forbids("/metrics"));
}

#[test]
fn hash_is_blake3_hex() {
    assert_eq!(hash(""), "af1349b9f5f9a1a6a0404dea36dcc9499bcb25c9adc112b7cc9a93cae41f3262");
    assert_eq!(hash("/?https://example.com").len(), 64);
    assert_ne!(hash("a"), hash("b"));
}

#[test]
fn span_target_is_hashed() {
    assert_eq!(PrivacyFriendlyRootSpanBuilder::target(None), hash(""));
    assert_eq!(PrivacyFriendlyRootSpanBuilder::target(Some("/?x=1")), hash("/?x=1"));
}

#[test]
fn redirect_answers_json_when_asked() {
    match redirect_response(
        &default_rules(),
        "https%3A%2F%2Fexample.com%2Fp%3Futm_source%3Da%26id%3D5",
        Some(b"application/json; charset=utf-8"),
    ) {
        Redirect::Json { cleaned, original, handlers_used, removed_trackers } => {
            assert_eq!(cleaned, "https://example.com/p?id=5");
            assert_eq!(original, "https://example.com/p?utm_source=a&id=5");
            assert_eq!(handlers_used, 0);
            assert!(removed_trackers);
        }
        other => panic!("unexpected answer {:?}", other),
    }
}

#[test]
fn redirect_answers_a_page() {
    match redirect_response(&default_rules(), "https://example.com/p?id=5", None) {
        Redirect::Page { html, handlers_used, removed_trackers } => {
            let expected = REDIRECT_HTML
                .replace("$$URL$$", "https://example.com/p?id=5")
                .replace("$$HOSTNAME$$", "example.com")
                .replace("$$URL_ESCAPED$$", "https:\\/\\/example.com\\/p?id=5");
            assert_eq!(html, expected);
            assert!(html.contains("<title>example.com...</title>"));
            assert!(html.contains("url=https://example.com/p?id=5"));
            assert_eq!(handlers_used, 0);
            assert!(!removed_trackers);
        }
        other => panic!("unexpected answer {:?}", other),
    }
}

#[test]
fn redirect_counts_handlers() {
    match redirect_response(&default_rules(), "https://www.google.com/url?q=https%3A%2F%2Fexample.org%2Fx", Some(b"application/json")) {
        Redirect::Json { cleaned, handlers_used, .. } => {
            assert_eq!(cleaned, "https://example.org/x");
            assert_eq!(handlers_used, 1);
        }
        other => panic!("unexpected answer {:?}", other),
    }
}

#[test]
fn redirect_sends_bad_input_to_the_app() {
    assert!(matches!(redirect_response(&default_rules(), "", None), Redirect::ToApp));
    assert!(matches!(redirect_response(&default_rules(), "not%20a%20url", None), Redirect::ToApp));
}
