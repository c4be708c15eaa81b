use std::sync::Arc;

use vstd::prelude::*;
use vstd::string::*;
use vstd::utf8::{decode_utf8, is_ascii_chars, valid_utf8};

use crate::sendable::{url_parse_of, RequestDescriptor};
use crate::text::{
    lemma_same_name_symmetric, lemma_same_name_transitive, lower_name, names_match, same_name,
    starts_with, utf8_text,
};

verus! {

#[verifier::external_type_specification]
#[verifier::external_body]
pub struct ExHttpError(http_client::http_types::Error);

#[verifier::external_type_specification]
#[verifier::external_body]
pub struct ExResponse(http_client::http_types::Response);

/// The status code of an answer.
pub uninterp spec fn response_status(r: http_client::Response) -> u16;

/// The headers of an answer: the first value of each, under its
/// lower-case name.
pub uninterp spec fn response_headers(r: http_client::Response) -> Map<Seq<char>, Seq<char>>;

/// The value of header `name` in a header map keyed by lower-case names.
pub open spec fn header_in(h: Map<Seq<char>, Seq<char>>, name: Seq<char>) -> Option<Seq<char>> {
    if h.contains_key(lower_name(name)) {
        Some(h[lower_name(name)])
    } else {
        None
    }
}

/// Why a call failed.
#[derive(Debug)]
pub enum ClientError {
    /// The service no longer accepts the access token.
    InvalidToken,
    /// The transport failed to deliver the request or read the answer.
    HttpError(http_client::Error),
    /// Building the request failed; the text says why.
    UnknownError(String),
}

impl From<http_client::Error> for ClientError {
    fn from(value: http_client::Error) -> (r: Self) {
        ClientError::HttpError(value)
    }
}

impl vstd::std_specs::convert::FromSpecImpl<http_client::Error> for ClientError {
    open spec fn obeys_from_spec() -> bool {
        true
    }

    open spec fn from_spec(v: http_client::Error) -> ClientError {
        ClientError::HttpError(v)
    }
}

/// The header that carries the credentials of every request.
pub const AUTHORIZATION: &'static str = "Authorization";

/// The response header that carries an authentication challenge.
pub const WWW_AUTHENTICATE: &'static str = "WWW-Authenticate";

/// How a challenge begins when the service rejects the token.
pub const INVALID_TOKEN_CHALLENGE: &'static str = "Bearer error=\"invalid_token\"";

/// The verbs of the service's API.
#[derive(Debug, Clone, Copy, PartialEq, Eq, Structural)]
pub enum Method {
    Get,
    Post,
    Put,
    Patch,
    Delete,
}

impl Method {
    pub open spec fn spec_name(self) -> Seq<char> {
        match self {
            Method::Get => "GET"@,
            Method::Post => "POST"@,
            Method::Put => "PUT"@,
            Method::Patch => "PATCH"@,
            Method::Delete => "DELETE"@,
        }
    }

    /// Write verbs send the descriptor's payload; reads and deletes send none.
    pub open spec fn carries_body(self) -> bool {
        match self {
            Method::Post | Method::Put | Method::Patch => true,
            _ => false,
        }
    }

    /// The verb as it is written on the wire.
    pub fn as_str(&self) -> (r: &'static str)
        ensures
            r@ == self.spec_name(),
    {
        match self {
            Method::Get => "GET",
            Method::Post => "POST",
            Method::Put => "PUT",
            Method::Patch => "PATCH",
            Method::Delete => "DELETE",
        }
    }
}

/// A header list seen as pairs of texts.
pub open spec fn header_view(h: Seq<(String, String)>) -> Seq<(Seq<char>, Seq<char>)> {
    h.map_values(|p: (String, String)| (p.0@, p.1@))
}

/// No two entries of a header list share a name.
pub open spec fn names_distinct(h: Seq<(Seq<char>, Seq<char>)>) -> bool {
    forall|i: int, j: int|
        0 <= i < h.len() && 0 <= j < h.len() && i != j ==> !same_name(
            #[trigger] h[i].0,
            #[trigger] h[j].0,
        )
}

/// Setting a header: the entry of that name takes the new name and value,
/// or, when there is none, the pair is added at the end.
pub open spec fn insert_entry(h: Seq<(Seq<char>, Seq<char>)>, n: Seq<char>, v: Seq<char>) -> Seq<
    (Seq<char>, Seq<char>),
> {
    if exists|j: int| 0 <= j < h.len() && same_name(#[trigger] h[j].0, n) {
        let j = choose|j: int| 0 <= j < h.len() && same_name(#[trigger] h[j].0, n);
        h.update(j, (n, v))
    } else {
        h.push((n, v))
    }
}

/// The headers that result from setting each of `extra` in turn.
pub open spec fn merged(extra: Seq<(Seq<char>, Seq<char>)>) -> Seq<(Seq<char>, Seq<char>)>
    decreases extra.len(),
{
    if extra.len() == 0 {
        Seq::empty()
    } else {
        insert_entry(merged(extra.drop_last()), extra.last().0, extra.last().1)
    }
}

/// The credentials of a request made with `token`.
pub open spec fn bearer(token: Seq<char>) -> Seq<char> {
    "Bearer "@ + token
}

/// The headers of every outgoing request: the extra headers, then the
/// bearer header over any entry of the same name.
pub open spec fn planned_headers(extra: Seq<(Seq<char>, Seq<char>)>, token: Seq<char>) -> Seq<
    (Seq<char>, Seq<char>),
> {
    insert_entry(merged(extra), AUTHORIZATION@, bearer(token))
}

/// How a payload is shown in a trace line: its text, or nothing when it is
/// not valid UTF-8.
pub open spec fn shown_body(b: Seq<u8>) -> Seq<char> {
    if valid_utf8(b) {
        decode_utf8(b)
    } else {
        Seq::empty()
    }
}

/// The diagnostic line of a call: `[METHOD] url | body`.
pub open spec fn trace_text(m: Method, url: Seq<char>, body: Seq<u8>) -> Seq<char> {
    "["@ + m.spec_name() + "] "@ + url + " | "@ + shown_body(body)
}

/// Whether an answer says that the token is no longer accepted: a status
/// other than 200 together with a challenge that begins with the
/// invalid-token prefix.
pub open spec fn token_expired(status: u16, challenge: Option<Seq<char>>) -> bool {
    status != 200 && match challenge {
        Some(c) => INVALID_TOKEN_CHALLENGE@.is_prefix_of(c),
        None => false,
    }
}

pub open spec fn opt_view(o: Option<String>) -> Option<Seq<char>> {
    match o {
        Some(s) => Some(s@),
        None => None,
    }
}

/// A payload that is not valid UTF-8 shows as nothing in the trace line,
/// which is still written.
pub proof fn lemma_trace_hides_invalid_body(m: Method, url: Seq<char>, body: Seq<u8>)
    requires
        !valid_utf8(body),
    ensures
        trace_text(m, url, body) == "["@ + m.spec_name() + "] "@ + url + " | "@,
{
    assert(trace_text(m, url, body) =~= "["@ + m.spec_name() + "] "@ + url + " | "@);
}

proof fn lemma_insert_entry_distinct(h: Seq<(Seq<char>, Seq<char>)>, n: Seq<char>, v: Seq<char>)
    requires
        names_distinct(h),
    ensures
        names_distinct(insert_entry(h, n, v)),
        exists|i: int|
            0 <= i < insert_entry(h, n, v).len() && #[trigger] insert_entry(h, n, v)[i] == (n, v)
                && forall|k: int|
                0 <= k < insert_entry(h, n, v).len() && k != i ==> !same_name(
                    #[trigger] insert_entry(h, n, v)[k].0,
                    n,
                ),
{
    let r = insert_entry(h, n, v);
    if exists|j: int| 0 <= j < h.len() && same_name(#[trigger] h[j].0, n) {
        let j = choose|j: int| 0 <= j < h.len() && same_name(#[trigger] h[j].0, n);
        assert forall|k: int| 0 <= k < r.len() && k != j implies !same_name(#[trigger] r[k].0, n) by {
            if same_name(r[k].0, n) {
                lemma_same_name_symmetric(h[j].0, n);
                lemma_same_name_transitive(h[k].0, n, h[j].0);
            }
        }
        assert forall|a: int, b: int|
            0 <= a < r.len() && 0 <= b < r.len() && a != b implies !same_name(
            #[trigger] r[a].0,
            #[trigger] r[b].0,
        ) by {
            if a == j {
                lemma_same_name_symmetric(r[b].0, n);
            } else if b == j {
            } else {
                assert(!same_name(h[a].0, h[b].0));
            }
        }
        assert(r[j] == (n, v));
    } else {
        let i = h.len() as int;
        assert forall|k: int| 0 <= k < r.len() && k != i implies !same_name(#[trigger] r[k].0, n) by {
            assert(r[k] == h[k]);
        }
        assert forall|a: int, b: int|
            0 <= a < r.len() && 0 <= b < r.len() && a != b implies !same_name(
            #[trigger] r[a].0,
            #[trigger] r[b].0,
        ) by {
            if a == i {
                lemma_same_name_symmetric(r[b].0, n);
            } else if b == i {
            } else {
                assert(!same_name(h[a].0, h[b].0));
            }
        }
        assert(r[i] == (n, v));
    }
}

proof fn lemma_merged_distinct(extra: Seq<(Seq<char>, Seq<char>)>)
    ensures
        names_distinct(merged(extra)),
    decreases extra.len(),
{
    if extra.len() > 0 {
        lemma_merged_distinct(extra.drop_last());
        lemma_insert_entry_distinct(merged(extra.drop_last()), extra.last().0, extra.last().1);
    }
}

/// Every request carries exactly one credentials header, and it holds the
/// bearer token, whatever the extra headers hold under that name.
pub proof fn lemma_single_authorization(extra: Seq<(Seq<char>, Seq<char>)>, token: Seq<char>)
    ensures
        exists|i: int|
            0 <= i < planned_headers(extra, token).len() && #[trigger] planned_headers(
                extra,
                token,
            )[i] == (AUTHORIZATION@, bearer(token)) && forall|k: int|
                0 <= k < planned_headers(extra, token).len() && k != i ==> !same_name(
                    #[trigger] planned_headers(extra, token)[k].0,
                    AUTHORIZATION@,
                ),
{
    let h = merged(extra);
    let r = planned_headers(extra, token);
    lemma_merged_distinct(extra);
    lemma_insert_entry_distinct(h, AUTHORIZATION@, bearer(token));
    let i = choose|i: int|
        0 <= i < insert_entry(h, AUTHORIZATION@, bearer(token)).len() && #[trigger] insert_entry(
            h,
            AUTHORIZATION@,
            bearer(token),
        )[i] == (AUTHORIZATION@, bearer(token)) && forall|k: int|
            0 <= k < insert_entry(h, AUTHORIZATION@, bearer(token)).len() && k != i ==> !same_name(
                #[trigger] insert_entry(h, AUTHORIZATION@, bearer(token))[k].0,
                AUTHORIZATION@,
            );
    assert(r[i] == (AUTHORIZATION@, bearer(token)));
}

/// Sets header `name` in `h`, over an entry of the same name if there is one.
fn insert_header(h: &mut Vec<(String, String)>, name: String, value: String)
    requires
        names_distinct(header_view(old(h)@)),
    ensures
        header_view(final(h)@) == insert_entry(header_view(old(h)@), name@, value@),
        names_distinct(header_view(final(h)@)),
{
    let ghost hv = header_view(h@);
    proof {
        lemma_insert_entry_distinct(hv, name@, value@);
    }
    let n = h.len();
    let mut j: usize = 0;
    while j < n
        invariant
            n == h@.len(),
            hv == header_view(h@),
            hv == header_view(old(h)@),
            names_distinct(hv),
            names_distinct(insert_entry(hv, name@, value@)),
            j <= n,
            forall|k: int| 0 <= k < j ==> !same_name(#[trigger] hv[k].0, name@),
        decreases n - j,
    {
        if names_match(h[j].0.as_str(), name.as_str()) {
            proof {
                assert(hv[j as int].0 == h@[j as int].0@);
                let c = choose|c: int| 0 <= c < hv.len() && same_name(#[trigger] hv[c].0, name@);
                if c != j {
                    lemma_same_name_symmetric(hv[c].0, name@);
                    lemma_same_name_transitive(hv[j as int].0, name@, hv[c].0);
                }
                assert(c == j);
                assert(insert_entry(hv, name@, value@) == hv.update(j as int, (name@, value@)));
            }
            h.set(j, (name, value));
            assert(header_view(h@) =~= hv.update(j as int, (name@, value@)));
            return;
        }
        assert(hv[j as int].0 == h@[j as int].0@);
        j = j + 1;
    }
    h.push((name, value));
    assert(header_view(h@) =~= hv.push((name@, value@)));
}

/// What a client holds, seen mathematically.
pub struct ClientState {
    pub token: Seq<char>,
    pub extra: Seq<(Seq<char>, Seq<char>)>,
    pub debug: bool,
}

/// A request as the client decided it, ready to hand to a transport.
pub struct OutgoingRequest {
    pub method: Method,
    pub url: String,
    pub headers: Vec<(String, String)>,
    pub body: Option<Vec<u8>>,
    /// The diagnostic line to emit before sending, when debugging is on.
    pub trace: Option<String>,
}

/// A client of the calendar service: a shared transport, the access token,
/// optional extra headers, and a debug switch.
#[derive(Debug)]
pub struct GCalClient<C> {
    client: Arc<C>,
    access_key: String,
    headers: Option<Vec<(String, String)>>,
    debug: bool,
}

impl<C> View for GCalClient<C> {
    type V = ClientState;

    closed spec fn view(&self) -> ClientState {
        ClientState {
            token: self.access_key@,
            extra: match self.headers {
                Some(h) => header_view(h@),
                None => Seq::empty(),
            },
            debug: self.debug,
        }
    }
}

/// Whatever the verb, a decided request carries exactly one credentials
/// header, and it holds the client's bearer token.
pub proof fn lemma_request_single_authorization<C>(
    client: &GCalClient<C>,
    m: Method,
    url: Seq<char>,
    target: &RequestDescriptor,
    q: OutgoingRequest,
)
    requires
        client.decided(m, url, target, q),
    ensures
        exists|i: int|
            0 <= i < q.headers@.len() && #[trigger] header_view(q.headers@)[i] == (
                AUTHORIZATION@,
                bearer(client@.token),
            ) && forall|k: int|
                0 <= k < q.headers@.len() && k != i ==> !same_name(
                    #[trigger] header_view(q.headers@)[k].0,
                    AUTHORIZATION@,
                ),
{
    lemma_single_authorization(client@.extra, client@.token);
}

/// Whatever the verb, with debugging on, a payload that is not valid UTF-8
/// leaves the body segment of the trace line empty.
pub proof fn lemma_request_trace_hides_invalid_body<C>(
    client: &GCalClient<C>,
    m: Method,
    url: Seq<char>,
    target: &RequestDescriptor,
    q: OutgoingRequest,
)
    requires
        client.decided(m, url, target, q),
        client@.debug,
        !valid_utf8(target.body@),
    ensures
        q.trace is Some,
        q.trace->Some_0@ == "["@ + m.spec_name() + "] "@ + url + " | "@,
{
    lemma_trace_hides_invalid_body(m, url, target.body@);
}

/// A copy of a header list.
fn copy_headers(h: &Vec<(String, String)>) -> (r: Vec<(String, String)>)
    ensures
        header_view(r@) == header_view(h@),
{
    let mut r: Vec<(String, String)> = Vec::new();
    let n = h.len();
    let mut i: usize = 0;
    while i < n
        invariant
            n == h@.len(),
            i <= n,
            header_view(r@) == header_view(h@).subrange(0, i as int),
        decreases n - i,
    {
        let name = h[i].0.clone();
        let value = h[i].1.clone();
        let ghost before = r@;
        r.push((name, value));
        proof {
            assert(header_view(r@) =~= header_view(before).push((name@, value@)));
            assert(header_view(h@)[i as int] == (name@, value@));
            assert(header_view(r@) =~= header_view(h@).subrange(0, i + 1));
        }
        i = i + 1;
    }
    assert(header_view(h@).subrange(0, n as int) =~= header_view(h@));
    r
}

impl<C> Clone for GCalClient<C> {
    /// Another handle on the same transport, with the same token, headers
    /// and debug switch.
    fn clone(&self) -> (r: Self)
        ensures
            r@ == self@,
            r.transport_of() == self.transport_of(),
    {
        let headers = match &self.headers {
            Some(h) => Some(copy_headers(h)),
            None => None,
        };
        GCalClient {
            client: self.client.clone(),
            access_key: self.access_key.clone(),
            headers,
            debug: self.debug,
        }
    }
}

impl<C> GCalClient<C> {
    /// The transport that the client sends through.
    pub closed spec fn transport_of(&self) -> C {
        *self.client
    }

    /// The request that `m` makes of `target`, when its URL is `url`.
    pub open spec fn decided(
        &self,
        m: Method,
        url: Seq<char>,
        target: &RequestDescriptor,
        q: OutgoingRequest,
    ) -> bool {
        &&& q.method == m
        &&& q.url@ == url
        &&& header_view(q.headers@) == planned_headers(self@.extra, self@.token)
        &&& if m.carries_body() {
            q.body is Some && q.body->Some_0@ == target.body@
        } else {
            q.body is None
        }
        &&& if self@.debug {
            q.trace is Some && q.trace->Some_0@ == trace_text(m, url, target.body@)
        } else {
            q.trace is None
        }
    }

    /// The outcome of `m` on `target`: the decided request when the URL
    /// parses, else an `UnknownError`.
    pub open spec fn outcome(
        &self,
        m: Method,
        action: Option<String>,
        target: &RequestDescriptor,
        r: Result<OutgoingRequest, ClientError>,
    ) -> bool {
        match url_parse_of(target.url_text(action)) {
            Some(u) => r is Ok && self.decided(m, u, target, r->Ok_0),
            None => r is Err && r->Err_0 is UnknownError,
        }
    }

    /// A client over `client` that authenticates with `access_key`, with no
    /// extra headers and debugging off.
    pub fn new(client: C, access_key: String) -> (r: Result<Self, ClientError>)
        ensures
            r is Ok,
            r->Ok_0@ == (ClientState { token: access_key@, extra: Seq::empty(), debug: false }),
            r->Ok_0.transport_of() == client,
    {
        Ok(GCalClient { client: Arc::new(client), access_key, headers: None, debug: false })
    }

    /// The same client with `headers` sent on every request (the bearer
    /// header still wins over any entry of its name).
    pub fn with_headers(self, headers: Vec<(String, String)>) -> (r: Self)
        ensures
            r@ == (ClientState { extra: header_view(headers@), ..self@ }),
            r.transport_of() == self.transport_of(),
    {
        GCalClient { headers: Some(headers), ..self }
    }

    /// Turns on the trace line for every later call.
    pub fn set_debug(&mut self)
        ensures
            final(self)@ == (ClientState { debug: true, ..old(self)@ }),
            final(self).transport_of() == old(self).transport_of(),
    {
        self.debug = true
    }

    /// The transport that the client sends through.
    pub fn transport(&self) -> (r: &C)
        ensures
            *r == self.transport_of(),
    {
        &self.client
    }

    /// The headers of every request: extra headers first, then the bearer
    /// header over any entry of the same name.
    fn request_headers(&self) -> (r: Vec<(String, String)>)
        ensures
            header_view(r@) == planned_headers(self@.extra, self@.token),
    {
        let mut r: Vec<(String, String)> = Vec::new();
        assert(header_view(r@) =~= Seq::empty());
        match &self.headers {
            Some(extra) => {
                let n = extra.len();
                let mut i: usize = 0;
                while i < n
                    invariant
                        n == extra@.len(),
                        i <= n,
                        self@.extra == header_view(extra@),
                        header_view(r@) == merged(header_view(extra@).subrange(0, i as int)),
                        names_distinct(header_view(r@)),
                    decreases n - i,
                {
                    let name = extra[i].0.clone();
                    let value = extra[i].1.clone();
                    insert_header(&mut r, name, value);
                    proof {
                        let s = header_view(extra@).subrange(0, i + 1);
                        assert(s.drop_last() =~= header_view(extra@).subrange(0, i as int));
                    }
                    i = i + 1;
                }
                assert(header_view(extra@).subrange(0, n as int) =~= header_view(extra@));
            },
            None => {},
        }
        let mut value = "Bearer ".to_owned();
        value.append(self.access_key.as_str());
        insert_header(&mut r, AUTHORIZATION.to_owned(), value);
        r
    }

    /// Decides the request that `m` makes of `target`.
    fn outgoing(&self, m: Method, action: Option<String>, target: &RequestDescriptor) -> (r: Result<
        OutgoingRequest,
        ClientError,
    >)
        ensures
            self.outcome(m, action, target, r),
    {
        let url = match target.resolve_url(action) {
            Ok(u) => u,
            Err(e) => {
                return Err(e);
            },
        };
        let trace = if self.debug {
            let shown = match utf8_text(target.body_bytes()) {
                Some(s) => s,
                None => String::new(),
            };
            let mut line = "[".to_owned();
            line.append(m.as_str());
            line.append("] ");
            line.append(url.as_str());
            line.append(" | ");
            line.append(shown.as_str());
            assert(line@ =~= trace_text(m, url@, target.body@));
            Some(line)
        } else {
            None
        };
        let body = match m {
            Method::Post | Method::Put | Method::Patch => Some(target.body_bytes()),
            _ => None,
        };
        let headers = self.request_headers();
        Ok(OutgoingRequest { method: m, url, headers, body, trace })
    }

    /// Decides a GET of `target`.
    pub fn get(&self, action: Option<String>, target: RequestDescriptor) -> (r: Result<
        OutgoingRequest,
        ClientError,
    >)
        ensures
            self.outcome(Method::Get, action, &target, r),
    {
        self.outgoing(Method::Get, action, &target)
    }

    /// Decides a POST of `target`, carrying its payload.
    pub fn post(&self, action: Option<String>, target: RequestDescriptor) -> (r: Result<
        OutgoingRequest,
        ClientError,
    >)
        ensures
            self.outcome(Method::Post, action, &target, r),
    {
        self.outgoing(Method::Post, action, &target)
    }

    /// Decides a PUT of `target`, carrying its payload.
    pub fn put(&self, action: Option<String>, target: RequestDescriptor) -> (r: Result<
        OutgoingRequest,
        ClientError,
    >)
        ensures
            self.outcome(Method::Put, action, &target, r),
    {
        self.outgoing(Method::Put, action, &target)
    }

    /// Decides a PATCH of `target`, carrying its payload.
    pub fn patch(&self, action: Option<String>, target: RequestDescriptor) -> (r: Result<
        OutgoingRequest,
        ClientError,
    >)
        ensures
            self.outcome(Method::Patch, action, &target, r),
    {
        self.outgoing(Method::Patch, action, &target)
    }

    /// Decides a DELETE of `target`.
    pub fn delete(&self, action: Option<String>, target: RequestDescriptor) -> (r: Result<
        OutgoingRequest,
        ClientError,
    >)
        ensures
            self.outcome(Method::Delete, action, &target, r),
    {
        self.outgoing(Method::Delete, action, &target)
    }

    /// What the client makes of the transport's answer: a transport
    /// failure becomes `HttpError`; a response is classified by its status
    /// and its authentication challenge.
    pub fn finish(&self, sent: Result<http_client::Response, http_client::Error>) -> (r: Result<
        http_client::Response,
        ClientError,
    >)
        ensures
            match sent {
                Ok(resp) => if token_expired(
                    response_status(resp),
                    header_in(response_headers(resp), WWW_AUTHENTICATE@),
                ) {
                    r is Err && r->Err_0 is InvalidToken
                } else {
                    r == Ok::<http_client::Response, ClientError>(resp)
                },
                Err(e) => r == Err::<http_client::Response, ClientError>(ClientError::HttpError(e)),
            },
    {
        match sent {
            Ok(resp) => {
                let status = status_code(&resp);
                proof {
                    reveal_strlit("WWW-Authenticate");
                }
                let challenge = header_value(&resp, WWW_AUTHENTICATE);
                classify(resp, status, challenge)
            },
            Err(e) => Err(ClientError::from(e)),
        }
    }
}

/// Relies on http_types::Response::status: the numeric status of the answer.
#[verifier::external_body]
fn status_code(resp: &http_client::Response) -> (r: u16)
    ensures
        r == response_status(*resp),
{
    u16::from(resp.status())
}

/// Relies on http_types::Response::header, which panics on a name that is
/// not ASCII: the (first) value of the named header, if the answer has it.
#[verifier::external_body]
fn header_value(resp: &http_client::Response, name: &str) -> (r: Option<String>)
    requires
        is_ascii_chars(name@),
    ensures
        opt_view(r) == header_in(response_headers(*resp), name@),
{
    match resp.header(name) {
        Some(v) => Some(v.as_str().to_owned()),
        None => None,
    }
}

/// Classifies an answer with status `status` and challenge `challenge`:
/// an expired token is an error; any other answer, 200 or not, is handed
/// back as it is.
pub fn classify<R>(resp: R, status: u16, challenge: Option<String>) -> (r: Result<R, ClientError>)
    ensures
        token_expired(status, opt_view(challenge)) ==> r is Err && r->Err_0 is InvalidToken,
        !token_expired(status, opt_view(challenge)) ==> r == Ok::<R, ClientError>(resp),
{
    if status != 200 {
        match &challenge {
            Some(c) => {
                if starts_with(c.as_str(), INVALID_TOKEN_CHALLENGE) {
                    return Err(ClientError::InvalidToken);
                }
            },
            None => {},
        }
    }
    Ok(resp)
}

} // verus!
