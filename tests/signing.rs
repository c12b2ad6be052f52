use duo_client::encoding::{percent_encoded, push_decimal, to_ascii_lower, to_hex_lower};
use duo_client::params::Parameters;
use duo_client::signing::{canonical_query_string, canonical_string, sign, HttpMethod};

fn text(b: Vec<u8>) -> String {
    String::from_utf8(b).unwrap()
}

#[test]
fn percent_encoding_keeps_unreserved_and_escapes_the_rest() {
    assert_eq!(text(percent_encoded(b"a b&c~-_.Z9")), "a%20b%26c~-_.Z9");
    assert_eq!(text(percent_encoded("é/".as_bytes())), "%C3%A9%2F");
    assert_eq!(text(percent_encoded(b"")), "");
}

#[test]
fn hex_is_lower_case_two_digits_per_byte() {
    assert_eq!(text(to_hex_lower(&[0x0f, 0xa0, 0x00, 0xff])), "0fa000ff");
}

#[test]
fn decimal_digits() {
    let mut out = b"x".to_vec();
    push_decimal(&mut out, 0);
    push_decimal(&mut out, 8443);
    assert_eq!(text(out), "x08443");
}

#[test]
fn ascii_lowercase_leaves_other_bytes() {
    assert_eq!(text(to_ascii_lower(b"API-Host.COM")), "api-host.com");
}

#[test]
fn parameters_overwrite_in_place() {
    let mut p = Parameters::new();
    p.set("b", "1");
    p.set("a", "2");
    p.set("b", "3");
    assert_eq!(p.len(), 2);
    let e = p.entries();
    assert_eq!(e[0], ("b".to_string(), "3".to_string()));
    assert_eq!(e[1], ("a".to_string(), "2".to_string()));
}

#[test]
fn canonical_query_is_sorted_and_encoded() {
    let mut p = Parameters::default();
    p.set("username", "root");
    p.set("realname", "First Last");
    assert_eq!(text(canonical_query_string(&p)), "realname=First%20Last&username=root");
    assert_eq!(text(canonical_query_string(&Parameters::new())), "");
}

#[test]
fn canonical_query_ignores_insertion_order() {
    let mut p = Parameters::new();
    p.set("user_id", "alice");
    p.set("factor", "auto");
    p.set("async", "1");
    let mut q = Parameters::new();
    q.set("async", "1");
    q.set("user_id", "alice");
    q.set("factor", "auto");
    assert_eq!(canonical_query_string(&p), canonical_query_string(&q));
    assert_eq!(text(canonical_query_string(&p)), "async=1&factor=auto&user_id=alice");
}

#[test]
fn canonical_query_sorts_by_encoded_name() {
    let mut p = Parameters::new();
    p.set("a-x", "1");
    p.set("a", "2");
    p.set("a b", "3");
    assert_eq!(text(canonical_query_string(&p)), "a=2&a%20b=3&a-x=1");
}

fn sample_params() -> Parameters {
    let mut p = Parameters::new();
    p.set("realname", "First Last");
    p.set("username", "root");
    p
}

#[test]
fn canonical_string_layout() {
    let c = canonical_string(
        "Tue, 21 Aug 2012 17:29:18 -0000",
        HttpMethod::Post,
        "api-XXXXXXXX.duosecurity.com",
        "/accounts/v1/account/list",
        &sample_params(),
    );
    assert_eq!(
        text(c),
        "Tue, 21 Aug 2012 17:29:18 -0000\nPOST\napi-xxxxxxxx.duosecurity.com\n/accounts/v1/account/list\nrealname=First%20Last&username=root"
    );
}

#[test]
fn signature_of_known_request() {
    let c = canonical_string(
        "Tue, 21 Aug 2012 17:29:18 -0000",
        HttpMethod::Post,
        "api-xxxxxxxx.duosecurity.com",
        "/accounts/v1/account/list",
        &sample_params(),
    );
    let s = sign("Zh5eGmUq9zpfQnyUIu5OL9iWoMMv5ZNmk3zLJ4Ep", &c);
    assert_eq!(text(s), "2d97d6166319781b5a3a07af39d366f491234edc");
}

#[test]
fn signing_is_deterministic_and_keyed() {
    let c = canonical_string("d", HttpMethod::Get, "h", "/p", &sample_params());
    let a = sign("key", &c);
    let b = sign("key", &c);
    assert_eq!(a, b);
    assert_eq!(a.len(), 40);
    assert_ne!(a, sign("other", &c));
    assert_ne!(a, to_hex_lower(&c));
}
