use vstd::prelude::*;
use vstd::utf8::is_ascii_chars;

use crate::client::{
    bearer, header_view, lemma_request_single_authorization, ClientError, GCalClient, Method,
    OutgoingRequest, AUTHORIZATION,
};
use crate::sendable::RequestDescriptor;
use crate::text::{lemma_lower_name_same, lower_name, same_name};
use crate::sendable::{parse_url, url_parse_of};

verus! {

#[verifier::external_type_specification]
#[verifier::external_body]
pub struct ExRequest(http_client::http_types::Request);

/// The verb of a request.
pub uninterp spec fn wire_method(r: http_client::Request) -> Method;

/// The serialization of a request's URL.
pub uninterp spec fn wire_url(r: http_client::Request) -> Seq<char>;

/// The headers of a request: the first value of each, under its
/// lower-case name.
pub uninterp spec fn wire_headers(r: http_client::Request) -> Map<Seq<char>, Seq<char>>;

/// The bytes of a request's body.
pub uninterp spec fn wire_body(r: http_client::Request) -> Seq<u8>;

/// The header map that results from setting each entry of `h` in turn.
pub open spec fn header_map(h: Seq<(Seq<char>, Seq<char>)>) -> Map<Seq<char>, Seq<char>>
    decreases h.len(),
{
    if h.len() == 0 {
        Map::empty()
    } else {
        header_map(h.drop_last()).insert(lower_name(h.last().0), h.last().1)
    }
}

/// The header map once a body is set: a body brings its content type
/// along when none was set.
pub open spec fn with_body_type(h: Map<Seq<char>, Seq<char>>) -> Map<Seq<char>, Seq<char>> {
    if h.contains_key("content-type"@) {
        h
    } else {
        h.insert("content-type"@, "application/octet-stream"@)
    }
}

/// What a decided request puts on the wire, as `r` holds it.
pub open spec fn carries(r: http_client::Request, q: OutgoingRequest) -> bool {
    &&& wire_method(r) == q.method
    &&& Some(wire_url(r)) == url_parse_of(q.url@)
    &&& match q.body {
        Some(b) => wire_body(r) == b@ && wire_headers(r) == with_body_type(
            header_map(header_view(q.headers@)),
        ),
        None => wire_body(r) == Seq::<u8>::empty() && wire_headers(r) == header_map(
            header_view(q.headers@),
        ),
    }
}

proof fn lemma_header_map_last(h: Seq<(Seq<char>, Seq<char>)>, key: Seq<char>, j: int)
    requires
        0 <= j < h.len(),
        lower_name(h[j].0) == key,
        forall|k: int| j < k < h.len() ==> lower_name(#[trigger] h[k].0) != key,
    ensures
        header_map(h).contains_key(key),
        header_map(h)[key] == h[j].1,
    decreases h.len(),
{
    if j < h.len() - 1 {
        let d = h.drop_last();
        assert forall|k: int| j < k < d.len() implies lower_name(#[trigger] d[k].0) != key by {
            assert(d[k] == h[k]);
        }
        lemma_header_map_last(d, key, j);
        assert(lower_name(h.last().0) != key);
    }
}

/// On the wire, whatever the verb, the request's credentials header holds
/// the client's bearer token, whatever the extra headers held under that
/// name.
pub proof fn lemma_wire_authorization<C>(
    client: &GCalClient<C>,
    m: Method,
    url: Seq<char>,
    target: &RequestDescriptor,
    q: OutgoingRequest,
    r: http_client::Request,
)
    requires
        client.decided(m, url, target, q),
        carries(r, q),
    ensures
        wire_headers(r).contains_key("authorization"@),
        wire_headers(r)["authorization"@] == bearer(client@.token),
{
    let hv = header_view(q.headers@);
    lemma_request_single_authorization(client, m, url, target, q);
    let i = choose|i: int|
        0 <= i < q.headers@.len() && #[trigger] header_view(q.headers@)[i] == (
            AUTHORIZATION@,
            bearer(client@.token),
        ) && forall|k: int|
            0 <= k < q.headers@.len() && k != i ==> !same_name(
                #[trigger] header_view(q.headers@)[k].0,
                AUTHORIZATION@,
            );
    reveal_strlit("Authorization");
    reveal_strlit("authorization");
    reveal_strlit("content-type");
    assert(lower_name(AUTHORIZATION@) =~= "authorization"@);
    assert forall|k: int| i < k < hv.len() implies lower_name(#[trigger] hv[k].0) != lower_name(
        AUTHORIZATION@,
    ) by {
        if lower_name(hv[k].0) == lower_name(AUTHORIZATION@) {
            lemma_lower_name_same(hv[k].0, AUTHORIZATION@);
        }
    }
    lemma_header_map_last(hv, lower_name(AUTHORIZATION@), i);
    assert("content-type"@ != "authorization"@);
}

/// Every name and value of a header list is ASCII, as the HTTP layer
/// demands of them.
pub open spec fn headers_ascii(h: Seq<(Seq<char>, Seq<char>)>) -> bool {
    forall|i: int| 0 <= i < h.len() ==> is_ascii_chars(#[trigger] h[i].0) && is_ascii_chars(h[i].1)
}

/// Whether a decided request can be put on the wire: its URL parses and
/// its headers are ASCII.
pub open spec fn sendable(q: OutgoingRequest) -> bool {
    url_parse_of(q.url@) is Some && headers_ascii(header_view(q.headers@))
}

/// Relies on http_types::Request::new, which parses the URL text (and
/// panics when it does not parse), with no headers and an empty body.
#[verifier::external_body]
fn new_request(m: Method, url: &str) -> (r: http_client::Request)
    requires
        url_parse_of(url@) is Some,
    ensures
        wire_method(r) == m,
        Some(wire_url(r)) == url_parse_of(url@),
        wire_headers(r).dom().is_empty(),
        wire_body(r) == Seq::<u8>::empty(),
{
    let method = match m {
        Method::Get => http_client::http_types::Method::Get,
        Method::Post => http_client::http_types::Method::Post,
        Method::Put => http_client::http_types::Method::Put,
        Method::Patch => http_client::http_types::Method::Patch,
        Method::Delete => http_client::http_types::Method::Delete,
    };
    http_client::Request::new(method, url)
}

/// Relies on http_types::Request::insert_header, which replaces the values
/// of the lower-cased name by the one value, and panics on a name or value
/// that is not ASCII.
#[verifier::external_body]
fn set_header(req: &mut http_client::Request, name: &str, value: &str)
    requires
        is_ascii_chars(name@),
        is_ascii_chars(value@),
    ensures
        wire_headers(*final(req)) == wire_headers(*old(req)).insert(lower_name(name@), value@),
        wire_method(*final(req)) == wire_method(*old(req)),
        wire_url(*final(req)) == wire_url(*old(req)),
        wire_body(*final(req)) == wire_body(*old(req)),
{
    req.insert_header(name, value);
}

/// Relies on http_types::Request::set_body: the bytes become the body,
/// whose type (a byte stream) becomes the content type if none is set.
#[verifier::external_body]
fn set_body(req: &mut http_client::Request, body: Vec<u8>)
    ensures
        wire_body(*final(req)) == body@,
        wire_headers(*final(req)) == with_body_type(wire_headers(*old(req))),
        wire_method(*final(req)) == wire_method(*old(req)),
        wire_url(*final(req)) == wire_url(*old(req)),
{
    req.set_body(body);
}

/// The HTTP request for a decided request: the verb, the URL, every header
/// and the payload if there is one. Fails with `UnknownError` when the URL
/// does not parse or a header is not ASCII.
pub fn to_request(q: OutgoingRequest) -> (r: Result<http_client::Request, ClientError>)
    ensures
        r is Ok <==> sendable(q),
        r is Ok ==> carries(r->Ok_0, q),
        r is Err ==> r->Err_0 is UnknownError,
{
    let ghost hv = header_view(q.headers@);
    let n = q.headers.len();
    let mut i: usize = 0;
    while i < n
        invariant
            n == q.headers@.len(),
            hv == header_view(q.headers@),
            i <= n,
            forall|k: int| 0 <= k < i ==> is_ascii_chars(#[trigger] hv[k].0) && is_ascii_chars(hv[k].1),
        decreases n - i,
    {
        let name_ok = q.headers[i].0.as_str().is_ascii();
        let value_ok = q.headers[i].1.as_str().is_ascii();
        assert(hv[i as int] == (q.headers@[i as int].0@, q.headers@[i as int].1@));
        assert(name_ok == is_ascii_chars(hv[i as int].0));
        assert(value_ok == is_ascii_chars(hv[i as int].1));
        if !name_ok || !value_ok {
            assert(!headers_ascii(hv));
            return Err(ClientError::UnknownError("header is not ASCII".to_owned()));
        }
        assert forall|k: int| 0 <= k < i + 1 implies is_ascii_chars(#[trigger] hv[k].0)
            && is_ascii_chars(hv[k].1) by {
            if k == i {
                assert(is_ascii_chars(hv[i as int].0) && is_ascii_chars(hv[i as int].1));
            }
        }
        i = i + 1;
    }
    assert(headers_ascii(hv));
    if parse_url(q.url.as_str()).is_err() {
        return Err(ClientError::UnknownError("request URL does not parse".to_owned()));
    }
    let mut req = new_request(q.method, q.url.as_str());
    assert(wire_headers(req) =~= header_map(hv.subrange(0, 0)));
    let mut j: usize = 0;
    while j < n
        invariant
            n == q.headers@.len(),
            hv == header_view(q.headers@),
            j <= n,
            hv.len() == n,
            headers_ascii(hv),
            wire_method(req) == q.method,
            Some(wire_url(req)) == url_parse_of(q.url@),
            wire_body(req) == Seq::<u8>::empty(),
            wire_headers(req) == header_map(hv.subrange(0, j as int)),
        decreases n - j,
    {
        assert(hv[j as int] == (q.headers@[j as int].0@, q.headers@[j as int].1@));
        assert(is_ascii_chars(hv[j as int].0));
        assert(is_ascii_chars(hv[j as int].1));
        set_header(&mut req, q.headers[j].0.as_str(), q.headers[j].1.as_str());
        proof {
            let s = hv.subrange(0, j + 1);
            assert(s.drop_last() =~= hv.subrange(0, j as int));
            assert(s.last() == hv[j as int]);
        }
        j = j + 1;
    }
    assert(hv.subrange(0, n as int) =~= hv);
    match q.body {
        Some(b) => set_body(&mut req, b),
        None => {},
    }
    Ok(req)
}

} // verus!
