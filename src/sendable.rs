use vstd::prelude::*;
use vstd::string::*;
use vstd::utf8::encode_utf8;

use crate::client::ClientError;

verus! {

/// The root that every resource path of the service hangs from.
pub const API_ROOT: &'static str = "https://www.googleapis.com/calendar/v3";

/// Bytes that the form-urlencoded serializer writes as they are.
pub open spec fn unchanged_byte(b: u8) -> bool {
    b == 42 || b == 45 || b == 46 || (48 <= b && b <= 57) || (65 <= b && b <= 90) || b == 95 || (97
        <= b && b <= 122)
}

/// An upper-case hexadecimal digit.
pub open spec fn hex_upper(n: u8) -> char {
    if n < 10 {
        (48 + n) as char
    } else {
        (55 + n) as char
    }
}

/// How the form-urlencoded serializer writes one byte: as itself, a space
/// as `+`, anything else as `%XX`.
pub open spec fn form_byte(b: u8) -> Seq<char> {
    if unchanged_byte(b) {
        seq![b as char]
    } else if b == 32 {
        seq!['+']
    } else {
        seq!['%', hex_upper(b / 16), hex_upper(b % 16)]
    }
}

/// The form-urlencoded serialization of a byte string.
pub open spec fn form_encoded(bytes: Seq<u8>) -> Seq<char>
    decreases bytes.len(),
{
    if bytes.len() == 0 {
        Seq::empty()
    } else {
        form_encoded(bytes.drop_last()) + form_byte(bytes.last())
    }
}

/// What the URL parser makes of a string: the serialization of the parsed
/// URL, or nothing when the string is not an absolute URL.
pub uninterp spec fn url_parse_of(s: Seq<char>) -> Option<Seq<char>>;

/// Relies on url::form_urlencoded::byte_serialize, which writes each byte
/// of the UTF-8 encoding as `form_byte` says.
#[verifier::external_body]
fn form_encode(s: &str) -> (r: String)
    ensures
        r@ == form_encoded(encode_utf8(s@)),
{
    url::form_urlencoded::byte_serialize(s.as_bytes()).collect()
}

/// Relies on url::Url::parse: an absolute URL parses to its serialization,
/// anything else is refused with a message.
#[verifier::external_body]
pub(crate) fn parse_url(s: &str) -> (r: Result<String, String>)
    ensures
        r is Ok <==> url_parse_of(s@) is Some,
        r is Ok ==> url_parse_of(s@) == Some(r->Ok_0@),
{
    match url::Url::parse(s) {
        Ok(u) => Ok(String::from(u)),
        Err(e) => Err(e.to_string()),
    }
}

/// One `key=value` pair of a query string, both sides form-encoded.
pub open spec fn pair_text(p: (String, String)) -> Seq<char> {
    form_encoded(encode_utf8(p.0@)) + "="@ + form_encoded(encode_utf8(p.1@))
}

/// The query string of a list of parameters: the pairs in order, joined by `&`.
pub open spec fn query_text(q: Seq<(String, String)>) -> Seq<char>
    decreases q.len(),
{
    if q.len() == 0 {
        Seq::empty()
    } else if q.len() == 1 {
        pair_text(q[0])
    } else {
        query_text(q.drop_last()) + "&"@ + pair_text(q.last())
    }
}

/// One logical call of the service: a resource path below the API root,
/// query parameters, and the encoded payload (empty for reads).
pub struct RequestDescriptor {
    pub path: String,
    pub query: Vec<(String, String)>,
    pub body: Vec<u8>,
}

impl RequestDescriptor {
    /// The text of the target URL before parsing: root, path, optional
    /// action segment, and the query string when there are parameters.
    pub open spec fn url_text(&self, action: Option<String>) -> Seq<char> {
        API_ROOT@ + "/"@ + self.path@ + match action {
            Some(a) => "/"@ + a@,
            None => Seq::empty(),
        } + if self.query@.len() == 0 {
            Seq::empty()
        } else {
            "?"@ + query_text(self.query@)
        }
    }

    /// What resolving the URL of this descriptor with `action` gives: the
    /// parsed URL, or an `UnknownError` when the text does not parse.
    pub open spec fn resolution(&self, action: Option<String>, r: Result<String, ClientError>) -> bool {
        match url_parse_of(self.url_text(action)) {
            Some(u) => r is Ok && r->Ok_0@ == u,
            None => r is Err && r->Err_0 is UnknownError,
        }
    }

    /// A descriptor for `path` with the given parameters and payload.
    pub fn new(path: String, query: Vec<(String, String)>, body: Vec<u8>) -> (r: Self)
        ensures
            r.path == path,
            r.query == query,
            r.body == body,
    {
        RequestDescriptor { path, query, body }
    }

    /// The query string of this descriptor's parameters.
    fn query_string(&self) -> (r: String)
        ensures
            r@ == query_text(self.query@),
    {
        let mut s = String::new();
        let n = self.query.len();
        let mut i: usize = 0;
        while i < n
            invariant
                n == self.query@.len(),
                i <= n,
                s@ == query_text(self.query@.subrange(0, i as int)),
            decreases n - i,
        {
            if i > 0 {
                s.append("&");
            }
            let k = form_encode(self.query[i].0.as_str());
            let v = form_encode(self.query[i].1.as_str());
            s.append(k.as_str());
            s.append("=");
            s.append(v.as_str());
            proof {
                let next = self.query@.subrange(0, i + 1);
                assert(next.drop_last() =~= self.query@.subrange(0, i as int));
                assert(next.last() == self.query@[i as int]);
                if i == 0 {
                    assert(s@ =~= pair_text(next[0]));
                } else {
                    assert(s@ =~= query_text(next));
                }
            }
            i = i + 1;
        }
        assert(self.query@.subrange(0, n as int) =~= self.query@);
        s
    }

    /// The target URL of this call, with `action` as an extra path segment.
    /// Fails with `UnknownError` when the text is not a valid URL.
    pub fn resolve_url(&self, action: Option<String>) -> (r: Result<String, ClientError>)
        ensures
            self.resolution(action, r),
    {
        let mut text = API_ROOT.to_owned();
        text.append("/");
        text.append(self.path.as_str());
        match &action {
            Some(a) => {
                text.append("/");
                text.append(a.as_str());
            },
            None => {},
        }
        if self.query.len() > 0 {
            let q = self.query_string();
            text.append("?");
            text.append(q.as_str());
        }
        assert(text@ =~= self.url_text(action));
        match parse_url(text.as_str()) {
            Ok(u) => Ok(u),
            Err(e) => Err(ClientError::UnknownError(e)),
        }
    }

    /// The payload of this call: the encoded resource for writes, empty for reads.
    pub fn body_bytes(&self) -> (r: Vec<u8>)
        ensures
            r@ == self.body@,
    {
        let mut out: Vec<u8> = Vec::new();
        let n = self.body.len();
        let mut i: usize = 0;
        while i < n
            invariant
                n == self.body@.len(),
                i <= n,
                out@ == self.body@.subrange(0, i as int),
            decreases n - i,
        {
            out.push(self.body[i]);
            proof {
                assert(out@ =~= self.body@.subrange(0, i + 1));
            }
            i = i + 1;
        }
        assert(self.body@.subrange(0, n as int) =~= self.body@);
        out
    }
}

/// Resolving a URL and reading the payload are pure: two resolutions of
/// one descriptor with one action agree on success and on the URL, and two
/// reads of its payload give the same bytes.
pub proof fn lemma_descriptor_pure(
    d: RequestDescriptor,
    action: Option<String>,
    r1: Result<String, ClientError>,
    r2: Result<String, ClientError>,
    b1: Seq<u8>,
    b2: Seq<u8>,
)
    requires
        d.resolution(action, r1),
        d.resolution(action, r2),
        b1 == d.body@,
        b2 == d.body@,
    ensures
        r1 is Ok <==> r2 is Ok,
        r1 is Ok ==> r1->Ok_0@ == r2->Ok_0@,
        r1 is Err ==> r1->Err_0 is UnknownError && r2->Err_0 is UnknownError,
        b1 == b2,
{
}

} // verus!
