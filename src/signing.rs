//! The request-signing scheme: the canonical text of a request and its
//! keyed-hash signature.
use vstd::prelude::*;
use vstd::utf8::encode_utf8;
use crate::encoding::{ascii_lower, hex_lower, percent_encode, percent_encoded, to_ascii_lower, to_hex_lower, utf8_bytes};
use crate::order::{pair_order, pairs_view, sort_pairs};
use crate::params::{Parameters, string_pairs_view};

verus! {

broadcast use vstd::seq_lib::group_to_multiset_ensures;

/// The HTTP methods the API is called with.
#[derive(Clone, Copy, Debug, PartialEq, Eq, Structural)]
pub enum HttpMethod {
    Get,
    Post,
}

/// Upper-case name of a method, as it enters the canonical text.
pub open spec fn method_text(m: HttpMethod) -> Seq<u8> {
    match m {
        HttpMethod::Get => seq![71u8, 69u8, 84u8],
        HttpMethod::Post => seq![80u8, 79u8, 83u8, 84u8],
    }
}

/// Each entry with its name and value percent-encoded (over their UTF-8 bytes).
pub open spec fn encoded_pairs(p: Seq<(Seq<char>, Seq<char>)>) -> Seq<(Seq<u8>, Seq<u8>)> {
    p.map_values(
        |e: (Seq<char>, Seq<char>)|
            (percent_encode(encode_utf8(e.0)), percent_encode(encode_utf8(e.1))),
    )
}

/// `name=value`.
pub open spec fn pair_text(e: (Seq<u8>, Seq<u8>)) -> Seq<u8> {
    e.0 + seq![61u8] + e.1
}

/// Pairs joined by `&`.
pub open spec fn join_query(s: Seq<(Seq<u8>, Seq<u8>)>) -> Seq<u8>
    decreases s.len(),
{
    if s.len() == 0 {
        Seq::empty()
    } else if s.len() == 1 {
        pair_text(s[0])
    } else {
        join_query(s.drop_last()) + seq![38u8] + pair_text(s.last())
    }
}

/// The query string that is signed and sent: the encoded pairs sorted by
/// encoded name (then value), joined by `&`.
pub open spec fn canonical_query(p: Seq<(Seq<char>, Seq<char>)>) -> Seq<u8> {
    join_query(encoded_pairs(p).sort_by(pair_order()))
}

/// The canonical text: date, method, lower-cased host, path and query, each
/// on a line of its own.
pub open spec fn canonical_text(
    date: Seq<char>,
    method: HttpMethod,
    host: Seq<char>,
    path: Seq<char>,
    p: Seq<(Seq<char>, Seq<char>)>,
) -> Seq<u8> {
    encode_utf8(date) + seq![10u8] + method_text(method) + seq![10u8] + ascii_lower(
        encode_utf8(host),
    ) + seq![10u8] + encode_utf8(path) + seq![10u8] + canonical_query(p)
}

/// The HMAC-SHA1 tag of `msg` under `key`.
pub uninterp spec fn hmac_sha1_of(key: Seq<u8>, msg: Seq<u8>) -> Seq<u8>;

/// The signature of a canonical text: lower-case hex of its HMAC-SHA1 tag
/// under the secret key.
pub open spec fn signature_of(skey: Seq<char>, canon: Seq<u8>) -> Seq<u8> {
    hex_lower(hmac_sha1_of(encode_utf8(skey), canon))
}

/// Relies on `hmac::Hmac<sha1::Sha1>` (`Mac::new_from_slice`, `update`,
/// `finalize`): the HMAC-SHA1 tag of `msg` under `key`. HMAC takes a key of
/// any length: `new_from_slice` always returns `Ok` for it.
#[verifier::external_body]
fn hmac_sha1(key: &[u8], msg: &[u8]) -> (r: Vec<u8>)
    ensures
        r@ == hmac_sha1_of(key@, msg@),
{
    match <hmac::Hmac<sha1::Sha1> as hmac::Mac>::new_from_slice(key) {
        Ok(mut mac) => {
            hmac::Mac::update(&mut mac, msg);
            hmac::Mac::finalize(mac).into_bytes().to_vec()
        },
        Err(_) => Vec::new(),
    }
}

/// The encoded (name, value) pairs of `params`, in insertion order.
fn encode_entries(params: &Parameters) -> (r: Vec<(Vec<u8>, Vec<u8>)>)
    ensures
        pairs_view(r@) == encoded_pairs(params@),
{
    let entries = params.entries();
    let mut out: Vec<(Vec<u8>, Vec<u8>)> = Vec::new();
    let mut i: usize = 0;
    while i < entries.len()
        invariant
            i <= entries@.len(),
            string_pairs_view(entries@) == params@,
            pairs_view(out@) =~= encoded_pairs(params@).subrange(0, i as int),
        decreases entries@.len() - i,
    {
        assert(params@[i as int] == (entries@[i as int].0@, entries@[i as int].1@));
        let name = percent_encoded(entries[i].0.as_str().as_bytes());
        let value = percent_encoded(entries[i].1.as_str().as_bytes());
        assert(encoded_pairs(params@)[i as int] == (name@, value@));
        let ghost prev = pairs_view(out@);
        let ghost e = (name@, value@);
        out.push((name, value));
        assert(pairs_view(out@) =~= prev.push(e));
        i = i + 1;
        assert(pairs_view(out@) =~= encoded_pairs(params@).subrange(0, i as int));
    }
    out
}

/// Joins pairs as `name=value` with `&` between them.
fn join_pairs(pairs: Vec<(Vec<u8>, Vec<u8>)>) -> (r: Vec<u8>)
    ensures
        r@ == join_query(pairs_view(pairs@)),
{
    let ghost all = pairs_view(pairs@);
    let n = pairs.len();
    let mut rest = pairs;
    let mut out: Vec<u8> = Vec::new();
    let mut i: usize = 0;
    assert(all.len() == n);
    while rest.len() > 0
        invariant
            i <= all.len(),
            all.len() <= usize::MAX,
            pairs_view(rest@) == all.subrange(i as int, all.len() as int),
            out@ == join_query(all.subrange(0, i as int)),
        decreases rest@.len(),
    {
        let ghost before = pairs_view(rest@);
        assert(before.len() == rest@.len());
        assert(before[0] == all[i as int]);
        let (mut name, mut value) = rest.remove(0);
        assert(before[0] == (name@, value@));
        assert(pairs_view(rest@) =~= before.subrange(1, before.len() as int));
        let ghost prefix = all.subrange(0, i + 1);
        assert(prefix.drop_last() =~= all.subrange(0, i as int));
        if i > 0 {
            out.push(38u8);
        }
        out.append(&mut name);
        out.push(61u8);
        out.append(&mut value);
        i = i + 1;
        assert(out@ =~= join_query(prefix));
        assert(pairs_view(rest@) =~= all.subrange(i as int, all.len() as int));
    }
    assert(all.subrange(0, i as int) =~= all);
    out
}

/// The canonical query string of `params`.
pub fn canonical_query_string(params: &Parameters) -> (r: Vec<u8>)
    ensures
        r@ == canonical_query(params@),
{
    let encoded = encode_entries(params);
    let sorted = sort_pairs(encoded);
    join_pairs(sorted)
}

/// The canonical text of a request.
pub fn canonical_string(
    date: &str,
    method: HttpMethod,
    host: &str,
    path: &str,
    params: &Parameters,
) -> (r: Vec<u8>)
    ensures
        r@ == canonical_text(date@, method, host@, path@, params@),
{
    let mut out = utf8_bytes(date);
    out.push(10u8);
    match method {
        HttpMethod::Get => {
            out.push(71u8);
            out.push(69u8);
            out.push(84u8);
        },
        HttpMethod::Post => {
            out.push(80u8);
            out.push(79u8);
            out.push(83u8);
            out.push(84u8);
        },
    }
    out.push(10u8);
    let host_bytes = utf8_bytes(host);
    let mut lower = to_ascii_lower(host_bytes.as_slice());
    out.append(&mut lower);
    out.push(10u8);
    let mut path_bytes = utf8_bytes(path);
    out.append(&mut path_bytes);
    out.push(10u8);
    let mut query = canonical_query_string(params);
    out.append(&mut query);
    assert(out@ =~= canonical_text(date@, method, host@, path@, params@));
    out
}

/// The signature of `canon` under the secret key `skey`.
pub fn sign(skey: &str, canon: &[u8]) -> (r: Vec<u8>)
    ensures
        r@ == signature_of(skey@, canon@),
{
    let key = utf8_bytes(skey);
    let tag = hmac_sha1(key.as_slice(), canon);
    to_hex_lower(tag.as_slice())
}

proof fn lemma_map_values_permutation<A, B>(a: Seq<A>, b: Seq<A>, f: spec_fn(A) -> B)
    requires
        a.to_multiset() == b.to_multiset(),
    ensures
        a.map_values(f).to_multiset() == b.map_values(f).to_multiset(),
    decreases a.len(),
{
    if a.len() == 0 {
        assert(b.to_multiset().len() == 0);
        assert(b.map_values(f) =~= Seq::<B>::empty());
        assert(a.map_values(f) =~= Seq::<B>::empty());
    } else {
        let x = a.last();
        assert(a.to_multiset().count(x) > 0);
        let i = b.index_of(x);
        let rest_b = b.remove(i);
        vstd::seq_lib::to_multiset_remove(b, i);
        assert(a.drop_last().push(x) =~= a);
        vstd::seq_lib::to_multiset_build(a.drop_last(), x);
        assert(a.drop_last().to_multiset() =~= rest_b.to_multiset());
        lemma_map_values_permutation(a.drop_last(), rest_b, f);
        assert(a.map_values(f) =~= a.drop_last().map_values(f).push(f(x)));
        assert(b.map_values(f) =~= rest_b.map_values(f).insert(i, f(x)));
        vstd::seq_lib::to_multiset_build(a.drop_last().map_values(f), f(x));
        vstd::seq_lib::to_multiset_insert(rest_b.map_values(f), i, f(x));
    }
}

/// The canonical query depends only on which pairs the parameters hold, not
/// on the order in which they were inserted.
pub proof fn lemma_query_order_independent(p: Seq<(Seq<char>, Seq<char>)>, q: Seq<(Seq<char>, Seq<char>)>)
    requires
        p.to_multiset() == q.to_multiset(),
    ensures
        canonical_query(p) == canonical_query(q),
{
    let f = |e: (Seq<char>, Seq<char>)|
        (percent_encode(encode_utf8(e.0)), percent_encode(encode_utf8(e.1)));
    lemma_map_values_permutation(p, q, f);
    assert(encoded_pairs(p) == p.map_values(f));
    assert(encoded_pairs(q) == q.map_values(f));
    crate::order::lemma_pair_order_total();
    encoded_pairs(p).lemma_sort_by_ensures(pair_order());
    encoded_pairs(q).lemma_sort_by_ensures(pair_order());
    vstd::seq_lib::lemma_sorted_unique(
        encoded_pairs(p).sort_by(pair_order()),
        encoded_pairs(q).sort_by(pair_order()),
        pair_order(),
    );
}

/// Two parameter sets that hold the same pairs, inserted in different
/// orders, give the same canonical text and so the same signature.
pub proof fn lemma_signature_order_independent(
    skey: Seq<char>,
    date: Seq<char>,
    method: HttpMethod,
    host: Seq<char>,
    path: Seq<char>,
    p: Seq<(Seq<char>, Seq<char>)>,
    q: Seq<(Seq<char>, Seq<char>)>,
)
    requires
        p.to_multiset() == q.to_multiset(),
    ensures
        canonical_text(date, method, host, path, p) == canonical_text(date, method, host, path, q),
        signature_of(skey, canonical_text(date, method, host, path, p)) == signature_of(
            skey,
            canonical_text(date, method, host, path, q),
        ),
{
    lemma_query_order_independent(p, q);
}

/// Signing is a function of its inputs: the same secret key, date, method,
/// host, path and parameters always give the same canonical text and the
/// same signature.
pub proof fn lemma_signing_deterministic(
    skey: Seq<char>,
    date: Seq<char>,
    method: HttpMethod,
    host: Seq<char>,
    path: Seq<char>,
    p: Seq<(Seq<char>, Seq<char>)>,
    skey2: Seq<char>,
    date2: Seq<char>,
    method2: HttpMethod,
    host2: Seq<char>,
    path2: Seq<char>,
    p2: Seq<(Seq<char>, Seq<char>)>,
)
    requires
        skey == skey2,
        date == date2,
        method == method2,
        host == host2,
        path == path2,
        p == p2,
    ensures
        canonical_text(date, method, host, path, p) == canonical_text(date2, method2, host2, path2, p2),
        signature_of(skey, canonical_text(date, method, host, path, p)) == signature_of(
            skey2,
            canonical_text(date2, method2, host2, path2, p2),
        ),
{
}

} // verus!
