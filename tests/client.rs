use duo_client::client::{DuoClient, SignedRequest};
use duo_client::response::Error;
use duo_client::signing::HttpMethod;

const DATE: &str = "Tue, 21 Aug 2012 17:29:18 -0000";

fn client() -> DuoClient {
    DuoClient::new(
        "https://api-XXXXXXXX.duosecurity.com".to_string(),
        "DIWJ8X6AEYOR5OMC6TQ1".to_string(),
        "Zh5eGmUq9zpfQnyUIu5OL9iWoMMv5ZNmk3zLJ4Ep".to_string(),
    )
    .unwrap()
}

fn text(b: &[u8]) -> String {
    String::from_utf8(b.to_vec()).unwrap()
}

fn body(r: &SignedRequest) -> Option<String> {
    r.body.as_ref().map(|b| text(b))
}

#[test]
fn client_without_host_is_refused() {
    let r = DuoClient::new("/just/a/path".to_string(), "i".to_string(), "s".to_string());
    assert!(matches!(r, Err(Error::Configuration)));
    let r = DuoClient::new("mailto:someone@example.com".to_string(), "i".to_string(), "s".to_string());
    assert!(matches!(r, Err(Error::Configuration)));
    let r = DuoClient::new("not a url".to_string(), "i".to_string(), "s".to_string());
    assert!(matches!(r, Err(Error::Configuration)));
}

#[test]
fn check_request_is_a_signed_get() {
    let r = client().check_request(DATE);
    assert_eq!(r.method, HttpMethod::Get);
    assert_eq!(text(&r.url), "https://api-xxxxxxxx.duosecurity.com/auth/v2/check");
    assert_eq!(body(&r), None);
    assert_eq!(r.date, DATE);
    assert_eq!(r.username, "DIWJ8X6AEYOR5OMC6TQ1");
    assert_eq!(r.signature.len(), 40);
}

#[test]
fn port_stays_in_the_url() {
    let c = DuoClient::new("http://localhost:8443/".to_string(), "i".to_string(), "s".to_string()).unwrap();
    let r = c.auth_status_request("tx-1", DATE);
    assert_eq!(text(&r.url), "http://localhost:8443/auth/v2/auth_status?txid=tx-1");
    assert_eq!(body(&r), None);
}

#[test]
fn preauth_request_sends_user_in_body() {
    let r = client().preauth_request("alice smith", DATE);
    assert_eq!(r.method, HttpMethod::Post);
    assert_eq!(text(&r.url), "https://api-xxxxxxxx.duosecurity.com/auth/v2/preauth");
    assert_eq!(body(&r), Some("user_id=alice%20smith".to_string()));
}

#[test]
fn auth_request_parameters() {
    let r = client().auth_request("alice", 3, DATE);
    assert_eq!(r.method, HttpMethod::Post);
    assert_eq!(text(&r.url), "https://api-xxxxxxxx.duosecurity.com/auth/v2/auth");
    assert_eq!(
        body(&r),
        Some("async=1&device=auto&display_username=Share%203&factor=auto&type=Authorize%20share&user_id=alice".to_string())
    );
}

#[test]
fn auth_status_request_puts_txid_in_query() {
    let r = client().auth_status_request("abc/def", DATE);
    assert_eq!(text(&r.url), "https://api-xxxxxxxx.duosecurity.com/auth/v2/auth_status?txid=abc%2Fdef");
}

#[test]
fn signature_changes_with_date_and_params() {
    let c = client();
    let a = c.auth_status_request("abc", DATE);
    let b = c.auth_status_request("abc", DATE);
    assert_eq!(a.signature, b.signature);
    assert_ne!(a.signature, c.auth_status_request("abd", DATE).signature);
    assert_ne!(a.signature, c.auth_status_request("abc", "another date").signature);
}
