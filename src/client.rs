//! The API client: its configuration and the signed request of each endpoint.
use vstd::prelude::*;
use vstd::utf8::encode_utf8;
use vstd::string::StringExecFns;
use crate::encoding::{decimal, push_decimal, utf8_bytes};
use crate::params::{Parameters, with_entry};
use crate::response::Error;
use crate::signing::{canonical_query, canonical_query_string, canonical_string, canonical_text, sign, signature_of, HttpMethod};

verus! {

/// What `url::Url::parse` makes of a string: `None` where it refuses it,
/// else the scheme, the host if any, and the port if it is not the
/// scheme's default.
pub uninterp spec fn url_parts_of(s: Seq<char>) -> Option<(Seq<char>, Option<Seq<char>>, Option<u16>)>;

struct UrlParts {
    scheme: String,
    host: Option<String>,
    port: Option<u16>,
}

spec fn opt_text(o: Option<String>) -> Option<Seq<char>> {
    match o {
        Some(s) => Some(s@),
        None => None,
    }
}

/// Relies on `reqwest::Url::parse` (the `url` crate's parser), and on the
/// parsed URL's `scheme`, `host_str` and `port` to read it out.
#[verifier::external_body]
fn parse_url(s: &str) -> (r: Option<UrlParts>)
    ensures
        match url_parts_of(s@) {
            None => r is None,
            Some((scheme, host, port)) => r is Some && r->Some_0.scheme@ == scheme && opt_text(
                r->Some_0.host,
            ) == host && r->Some_0.port == port,
        },
{
    match reqwest::Url::parse(s) {
        Ok(u) => Some(UrlParts {
            scheme: u.scheme().to_string(),
            host: u.host_str().map(String::from),
            port: u.port(),
        }),
        Err(_) => None,
    }
}

/// The configuration of a client, as plain values.
pub struct ClientView {
    pub scheme: Seq<char>,
    pub host: Seq<char>,
    pub port: Option<u16>,
    pub ikey: Seq<char>,
    pub skey: Seq<char>,
}

/// A client of the API: where it is and the credentials it signs with.
/// Never changed after construction.
pub struct DuoClient {
    scheme: String,
    host: String,
    port: Option<u16>,
    ikey: String,
    skey: String,
}

impl View for DuoClient {
    type V = ClientView;

    closed spec fn view(&self) -> ClientView {
        ClientView {
            scheme: self.scheme@,
            host: self.host@,
            port: self.port,
            ikey: self.ikey@,
            skey: self.skey@,
        }
    }
}

/// The client that `new` makes of a base URL and credentials, or `None`
/// where the URL does not parse or has no (or an empty) host.
pub open spec fn client_of(api_domain: Seq<char>, ikey: Seq<char>, skey: Seq<char>) -> Option<ClientView> {
    match url_parts_of(api_domain) {
        Some((scheme, Some(host), port)) => if host.len() > 0 {
            Some(ClientView { scheme, host, port, ikey, skey })
        } else {
            None
        },
        _ => None,
    }
}

/// A request ready to send: method, full URL, form body for POST, the date
/// it was signed for, and the Basic credentials (integration key, signature).
pub struct SignedRequest {
    pub method: HttpMethod,
    pub url: Vec<u8>,
    pub body: Option<Vec<u8>>,
    pub date: String,
    pub username: String,
    pub signature: Vec<u8>,
}

/// A signed request as plain values.
pub struct RequestView {
    pub method: HttpMethod,
    pub url: Seq<u8>,
    pub body: Option<Seq<u8>>,
    pub date: Seq<char>,
    pub username: Seq<char>,
    pub signature: Seq<u8>,
}

impl View for SignedRequest {
    type V = RequestView;

    open spec fn view(&self) -> RequestView {
        RequestView {
            method: self.method,
            url: self.url@,
            body: match self.body {
                Some(b) => Some(b@),
                None => None,
            },
            date: self.date@,
            username: self.username@,
            signature: self.signature@,
        }
    }
}

/// `scheme://host[:port]`.
pub open spec fn origin_text(c: ClientView) -> Seq<u8> {
    encode_utf8(c.scheme) + seq![58u8, 47u8, 47u8] + encode_utf8(c.host) + match c.port {
        Some(p) => seq![58u8] + decimal(p as nat),
        None => Seq::empty(),
    }
}

/// The request for `method` on `path` with parameters `p`, signed for `date`:
/// for GET the canonical query goes after `?` (when not empty), for POST it
/// is the body.
pub open spec fn request_of(
    c: ClientView,
    method: HttpMethod,
    path: Seq<char>,
    p: Seq<(Seq<char>, Seq<char>)>,
    date: Seq<char>,
) -> RequestView {
    let q = canonical_query(p);
    RequestView {
        method,
        url: origin_text(c) + encode_utf8(path) + if method == HttpMethod::Get && q.len() > 0 {
            seq![63u8] + q
        } else {
            Seq::empty()
        },
        body: if method == HttpMethod::Post {
            Some(q)
        } else {
            None
        },
        date,
        username: c.ikey,
        signature: signature_of(c.skey, canonical_text(date, method, c.host, path, p)),
    }
}

/// No parameters.
pub open spec fn empty_params() -> Seq<(Seq<char>, Seq<char>)> {
    Seq::empty()
}

/// Parameters of the preauth call.
pub open spec fn preauth_params(user_id: Seq<char>) -> Seq<(Seq<char>, Seq<char>)> {
    with_entry(empty_params(), "user_id"@, user_id)
}

/// `Share <n>`, the name shown on the user's device.
pub open spec fn share_label(share_n: nat) -> Seq<char> {
    "Share "@ + decimal(share_n).map_values(|b: u8| b as char)
}

/// Parameters of the call that starts an authentication.
pub open spec fn auth_params(user_id: Seq<char>, share_n: nat) -> Seq<(Seq<char>, Seq<char>)> {
    with_entry(
        with_entry(
            with_entry(
                with_entry(
                    with_entry(
                        with_entry(empty_params(), "user_id"@, user_id),
                        "factor"@,
                        "auto"@,
                    ),
                    "async"@,
                    "1"@,
                ),
                "type"@,
                "Authorize share"@,
            ),
            "device"@,
            "auto"@,
        ),
        "display_username"@,
        share_label(share_n),
    )
}

/// Parameters of a status poll.
pub open spec fn auth_status_params(txid: Seq<char>) -> Seq<(Seq<char>, Seq<char>)> {
    with_entry(empty_params(), "txid"@, txid)
}

/// Relies on `usize`'s `ToString` (through its `Display`): the decimal
/// digits of `n`, without sign or leading zeros.
#[verifier::external_body]
fn decimal_string(n: usize) -> (r: String)
    ensures
        r@ == decimal(n as nat).map_values(|b: u8| b as char),
{
    n.to_string()
}

/// `Share <n>`.
fn share_label_string(share_n: usize) -> (r: String)
    ensures
        r@ == share_label(share_n as nat),
{
    let mut label = "Share ".to_owned();
    let digits = decimal_string(share_n);
    label.append(digits.as_str());
    label
}

impl DuoClient {
    /// A client for the API at `api_domain`; fails with a configuration
    /// error where the URL does not parse or names no host.
    pub fn new(api_domain: String, ikey: String, skey: String) -> (r: Result<DuoClient, Error>)
        ensures
            match client_of(api_domain@, ikey@, skey@) {
                Some(c) => r is Ok && r->Ok_0@ == c,
                None => r == Err::<DuoClient, Error>(Error::Configuration),
            },
    {
        match parse_url(api_domain.as_str()) {
            None => Err(Error::Configuration),
            Some(parts) => match parts.host {
                None => Err(Error::Configuration),
                Some(host) => {
                    if host.as_str().is_empty() {
                        Err(Error::Configuration)
                    } else {
                        Ok(DuoClient { scheme: parts.scheme, host, port: parts.port, ikey, skey })
                    }
                },
            },
        }
    }

    /// The request for `method` on `path` with `params`, signed for `date`.
    pub fn signed_request(&self, method: HttpMethod, path: &str, params: &Parameters, date: &str) -> (r: SignedRequest)
        ensures
            r@ == request_of(self@, method, path@, params@, date@),
    {
        let mut url = utf8_bytes(self.scheme.as_str());
        url.push(58u8);
        url.push(47u8);
        url.push(47u8);
        let mut host = utf8_bytes(self.host.as_str());
        url.append(&mut host);
        match self.port {
            Some(p) => {
                url.push(58u8);
                push_decimal(&mut url, p as u64);
            },
            None => {},
        }
        let mut path_bytes = utf8_bytes(path);
        url.append(&mut path_bytes);
        let mut query = canonical_query_string(params);
        let body = match method {
            HttpMethod::Get => {
                if query.len() > 0 {
                    url.push(63u8);
                    url.append(&mut query);
                }
                None
            },
            HttpMethod::Post => Some(query),
        };
        let canon = canonical_string(date, method, self.host.as_str(), path, params);
        let signature = sign(self.skey.as_str(), canon.as_slice());
        let r = SignedRequest {
            method,
            url,
            body,
            date: date.to_owned(),
            username: self.ikey.clone(),
            signature,
        };
        assert(r@.url =~= request_of(self@, method, path@, params@, date@).url);
        r
    }

    /// The health check request.
    pub fn check_request(&self, date: &str) -> (r: SignedRequest)
        ensures
            r@ == request_of(self@, HttpMethod::Get, "/auth/v2/check"@, empty_params(), date@),
    {
        let params = Parameters::new();
        self.signed_request(HttpMethod::Get, "/auth/v2/check", &params, date)
    }

    /// The preauth request for `user_id`.
    pub fn preauth_request(&self, user_id: &str, date: &str) -> (r: SignedRequest)
        ensures
            r@ == request_of(self@, HttpMethod::Post, "/auth/v2/preauth"@, preauth_params(user_id@), date@),
    {
        let mut params = Parameters::new();
        params.set("user_id", user_id);
        self.signed_request(HttpMethod::Post, "/auth/v2/preauth", &params, date)
    }

    /// The request that starts an asynchronous authentication of `user_id`
    /// with the automatic factor and device, labelled `Share <share_n>`.
    pub fn auth_request(&self, user_id: &str, share_n: usize, date: &str) -> (r: SignedRequest)
        ensures
            r@ == request_of(self@, HttpMethod::Post, "/auth/v2/auth"@, auth_params(user_id@, share_n as nat), date@),
    {
        let mut params = Parameters::new();
        params.set("user_id", user_id);
        params.set("factor", "auto");
        params.set("async", "1");
        params.set("type", "Authorize share");
        params.set("device", "auto");
        let label = share_label_string(share_n);
        params.set("display_username", label.as_str());
        self.signed_request(HttpMethod::Post, "/auth/v2/auth", &params, date)
    }

    /// The status poll request for transaction `txid`.
    pub fn auth_status_request(&self, txid: &str, date: &str) -> (r: SignedRequest)
        ensures
            r@ == request_of(self@, HttpMethod::Get, "/auth/v2/auth_status"@, auth_status_params(txid@), date@),
    {
        let mut params = Parameters::new();
        params.set("txid", txid);
        self.signed_request(HttpMethod::Get, "/auth/v2/auth_status", &params, date)
    }
}

} // verus!
