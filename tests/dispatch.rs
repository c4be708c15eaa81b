use gcal::{
    classify, to_request, ClientError, GCalClient, Method, OutgoingRequest, RequestDescriptor,
};
use http_client::{Error, Response};

#[derive(Debug)]
struct Stub;

fn client() -> GCalClient<Stub> {
    GCalClient::new(Stub, "tok123".to_string()).unwrap()
}

fn events(body: Vec<u8>) -> RequestDescriptor {
    RequestDescriptor::new("calendars/primary/events".to_string(), Vec::new(), body)
}

fn all_verbs(c: &GCalClient<Stub>, body: Vec<u8>) -> Vec<OutgoingRequest> {
    vec![
        c.get(None, events(body.clone())).unwrap(),
        c.post(None, events(body.clone())).unwrap(),
        c.put(None, events(body.clone())).unwrap(),
        c.patch(None, events(body.clone())).unwrap(),
        c.delete(None, events(body)).unwrap(),
    ]
}

fn named<'a>(req: &'a OutgoingRequest, name: &str) -> Vec<&'a (String, String)> {
    req.headers
        .iter()
        .filter(|(n, _)| n.eq_ignore_ascii_case(name))
        .collect()
}

fn expired_answer() -> Response {
    let mut r = Response::new(401);
    r.insert_header(
        "WWW-Authenticate",
        "Bearer error=\"invalid_token\", error_description=\"expired\"",
    );
    r
}

#[test]
fn new_client_sends_only_bearer_header() {
    let req = client().get(None, events(Vec::new())).unwrap();
    assert_eq!(req.headers.len(), 1);
    assert_eq!(req.headers[0].0, "Authorization");
    assert_eq!(req.headers[0].1, "Bearer tok123");
}

#[test]
fn bearer_header_overrides_caller_headers() {
    let c = client().with_headers(vec![
        ("AUTHORIZATION".to_string(), "Basic abc".to_string()),
        ("X-Trace".to_string(), "1".to_string()),
        ("x-trace".to_string(), "2".to_string()),
        ("authorization".to_string(), "Basic def".to_string()),
    ]);
    for req in all_verbs(&c, Vec::new()) {
        let auth = named(&req, "Authorization");
        assert_eq!(auth.len(), 1);
        assert_eq!(auth[0].1, "Bearer tok123");
        let trace = named(&req, "X-Trace");
        assert_eq!(trace.len(), 1);
        assert_eq!(trace[0].1, "2");
        assert_eq!(req.headers.len(), 2);
    }
}

#[test]
fn extra_headers_keep_their_order() {
    let c = client().with_headers(vec![
        ("Accept".to_string(), "application/json".to_string()),
        ("X-Client".to_string(), "gcal".to_string()),
    ]);
    let req = c.get(None, events(Vec::new())).unwrap();
    assert_eq!(req.headers[0], ("Accept".to_string(), "application/json".to_string()));
    assert_eq!(req.headers[1], ("X-Client".to_string(), "gcal".to_string()));
    assert_eq!(req.headers[2], ("Authorization".to_string(), "Bearer tok123".to_string()));
}

#[test]
fn write_verbs_attach_body_reads_do_not() {
    let body = b"{\"summary\":\"lunch\"}".to_vec();
    let reqs = all_verbs(&client(), body.clone());
    assert_eq!(reqs[0].method, Method::Get);
    assert_eq!(reqs[0].body, None);
    assert_eq!(reqs[1].method, Method::Post);
    assert_eq!(reqs[1].body, Some(body.clone()));
    assert_eq!(reqs[2].method, Method::Put);
    assert_eq!(reqs[2].body, Some(body.clone()));
    assert_eq!(reqs[3].method, Method::Patch);
    assert_eq!(reqs[3].body, Some(body));
    assert_eq!(reqs[4].method, Method::Delete);
    assert_eq!(reqs[4].body, None);
}

#[test]
fn request_url_is_resolved() {
    let req = client().get(Some("abc".to_string()), events(Vec::new())).unwrap();
    assert_eq!(
        req.url,
        "https://www.googleapis.com/calendar/v3/calendars/primary/events/abc"
    );
}

#[test]
fn no_trace_without_debug() {
    for req in all_verbs(&client(), b"x".to_vec()) {
        assert_eq!(req.trace, None);
    }
}

#[test]
fn debug_trace_line_format() {
    let mut c = client();
    c.set_debug();
    let req = c.post(None, events(b"{\"a\":1}".to_vec())).unwrap();
    assert_eq!(
        req.trace,
        Some(
            "[POST] https://www.googleapis.com/calendar/v3/calendars/primary/events | {\"a\":1}"
                .to_string()
        )
    );
    let req = c.delete(None, events(Vec::new())).unwrap();
    assert_eq!(
        req.trace,
        Some("[DELETE] https://www.googleapis.com/calendar/v3/calendars/primary/events | ".to_string())
    );
}

#[test]
fn debug_trace_shows_invalid_utf8_as_empty() {
    let mut c = client();
    c.set_debug();
    let req = c.put(None, events(vec![0xff, 0xfe, 0x41])).unwrap();
    assert_eq!(
        req.trace,
        Some("[PUT] https://www.googleapis.com/calendar/v3/calendars/primary/events | ".to_string())
    );
    assert_eq!(req.body, Some(vec![0xff, 0xfe, 0x41]));
}

#[test]
fn method_names() {
    assert_eq!(Method::Get.as_str(), "GET");
    assert_eq!(Method::Post.as_str(), "POST");
    assert_eq!(Method::Put.as_str(), "PUT");
    assert_eq!(Method::Patch.as_str(), "PATCH");
    assert_eq!(Method::Delete.as_str(), "DELETE");
}

#[test]
fn expired_token_on_every_verb() {
    let c = client();
    for req in all_verbs(&c, b"{}".to_vec()) {
        assert!(!req.url.is_empty());
        let r = c.finish(Ok(expired_answer()));
        assert!(matches!(r, Err(ClientError::InvalidToken)));
    }
}

#[test]
fn forbidden_without_challenge_passes_through() {
    let c = client();
    let r = c.finish(Ok(Response::new(403)));
    let resp = r.unwrap();
    assert_eq!(u16::from(resp.status()), 403);
}

#[test]
fn success_passes_through_unchanged() {
    let c = client();
    let mut answer = Response::new(200);
    answer.insert_header("X-Marker", "seven");
    let resp = c.finish(Ok(answer)).unwrap();
    assert_eq!(u16::from(resp.status()), 200);
    assert_eq!(resp.header("X-Marker").unwrap().as_str(), "seven");
}

#[test]
fn success_with_challenge_is_not_expiry() {
    let c = client();
    let mut answer = Response::new(200);
    answer.insert_header("WWW-Authenticate", "Bearer error=\"invalid_token\"");
    assert!(c.finish(Ok(answer)).is_ok());
}

#[test]
fn other_challenge_is_not_expiry() {
    let c = client();
    let mut answer = Response::new(401);
    answer.insert_header("WWW-Authenticate", "Bearer realm=\"example\"");
    let resp = c.finish(Ok(answer)).unwrap();
    assert_eq!(u16::from(resp.status()), 401);
}

#[test]
fn transport_failure_is_http_error() {
    let c = client();
    let r = c.finish(Err(Error::from_str(502, "connection reset")));
    assert!(matches!(r, Err(ClientError::HttpError(_))));
}

#[test]
fn classify_by_status_and_challenge() {
    let challenge = Some("Bearer error=\"invalid_token\", error_description=\"x\"".to_string());
    assert!(matches!(classify(1u32, 401, challenge.clone()), Err(ClientError::InvalidToken)));
    assert!(matches!(classify(2u32, 500, challenge.clone()), Err(ClientError::InvalidToken)));
    assert!(matches!(classify(3u32, 200, challenge), Ok(3)));
    assert!(matches!(classify(4u32, 401, None), Ok(4)));
    assert!(matches!(classify(5u32, 404, Some("Bearer".to_string())), Ok(5)));
    assert!(matches!(
        classify(6u32, 401, Some("bearer error=\"invalid_token\"".to_string())),
        Ok(6)
    ));
}

#[test]
fn request_on_the_wire() {
    let q = client()
        .patch(Some("x1".to_string()), events(b"{\"a\":2}".to_vec()))
        .unwrap();
    let req = to_request(q).unwrap();
    assert_eq!(req.method(), http_client::http_types::Method::Patch);
    assert_eq!(
        req.url().as_str(),
        "https://www.googleapis.com/calendar/v3/calendars/primary/events/x1"
    );
    assert_eq!(req.header("Authorization").unwrap().as_str(), "Bearer tok123");
    assert_eq!(req.len(), Some(7));
}

#[test]
fn read_on_the_wire_has_no_body() {
    let q = client().get(None, events(b"{\"a\":2}".to_vec())).unwrap();
    let req = to_request(q).unwrap();
    assert_eq!(req.method(), http_client::http_types::Method::Get);
    assert_eq!(req.len(), Some(0));
}

#[test]
fn non_ascii_token_is_refused_on_the_wire() {
    let c = GCalClient::new(Stub, "t\u{f6}k".to_string()).unwrap();
    let q = c.get(None, events(Vec::new())).unwrap();
    assert!(matches!(to_request(q), Err(ClientError::UnknownError(_))));
}

#[test]
fn non_ascii_extra_header_is_refused_on_the_wire() {
    let c = client().with_headers(vec![("X-Name".to_string(), "caf\u{e9}".to_string())]);
    let q = c.get(None, events(Vec::new())).unwrap();
    assert!(matches!(to_request(q), Err(ClientError::UnknownError(_))));
}

#[test]
fn clone_keeps_token_headers_and_debug() {
    let mut c = client().with_headers(vec![("X-A".to_string(), "1".to_string())]);
    c.set_debug();
    let d = c.clone();
    let q = d.get(None, events(Vec::new())).unwrap();
    assert_eq!(q.headers.len(), 2);
    assert_eq!(q.headers[1].1, "Bearer tok123");
    assert!(q.trace.is_some());
}

#[derive(Debug, PartialEq)]
struct Tagged(u32);

#[test]
fn transport_is_kept_through_changes() {
    let mut c = GCalClient::new(Tagged(41), "t".to_string()).unwrap();
    assert_eq!(c.transport(), &Tagged(41));
    c.set_debug();
    let d = c.clone().with_headers(Vec::new());
    assert_eq!(d.transport(), &Tagged(41));
}

#[test]
fn transport_error_converts_to_http_error() {
    let e = ClientError::from(Error::from_str(500, "broken pipe"));
    assert!(matches!(e, ClientError::HttpError(_)));
}

#[test]
fn body_brings_content_type_on_the_wire() {
    let q = client().post(None, events(b"{}".to_vec())).unwrap();
    let req = to_request(q).unwrap();
    assert_eq!(
        req.header("content-type").unwrap().as_str(),
        "application/octet-stream"
    );
    let q = client().get(None, events(b"{}".to_vec())).unwrap();
    let req = to_request(q).unwrap();
    assert!(req.header("content-type").is_none());
}

#[test]
fn wire_authorization_overrides_caller_value() {
    let c = client().with_headers(vec![("authorization".to_string(), "Basic zz".to_string())]);
    let req = to_request(c.put(None, events(b"{}".to_vec())).unwrap()).unwrap();
    let values = req.header("Authorization").unwrap();
    assert_eq!(values.iter().count(), 1);
    assert_eq!(values.as_str(), "Bearer tok123");
}
