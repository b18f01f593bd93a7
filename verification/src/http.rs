//! What the filter tells its host: calls to make and replies to send.

use vstd::prelude::*;

verus! {

/// The value of the header that marks replies made by the filter.
pub const POWERED_BY: &'static str = "wasm-envoy-proxy";

/// The name of the upstream that issues keys and knows scopes.
pub const AUTH_UPSTREAM: &'static str = "auth";

/// How long, in seconds, the filter waits for an answer of the upstream.
pub const CALL_TIMEOUT_SECS: u64 = 1;

/// What becomes of the request while the filter works on it.
#[derive(Debug, Clone, Copy, PartialEq, Eq, Structural)]
pub enum Action {
    /// The request goes on.
    Continue,
    /// The request is held back.
    Pause,
}

/// A reply to the client.
#[derive(Debug)]
pub struct HttpResponse {
    pub status: u32,
    pub headers: Vec<(String, String)>,
    pub body: String,
}

/// The model of a reply.
#[verifier::ext_equal]
pub struct ResponseModel {
    pub status: u32,
    pub headers: Seq<(Seq<char>, Seq<char>)>,
    pub body: Seq<char>,
}

/// A call to an upstream.
#[derive(Debug)]
pub struct HttpCall {
    pub upstream: String,
    pub headers: Vec<(String, String)>,
    pub body: Option<Vec<u8>>,
    pub trailers: Vec<(String, String)>,
    pub timeout_secs: u64,
}

/// The model of a call.
#[verifier::ext_equal]
pub struct CallModel {
    pub upstream: Seq<char>,
    pub headers: Seq<(Seq<char>, Seq<char>)>,
    pub body: Option<Seq<u8>>,
    pub trailers: Seq<(Seq<char>, Seq<char>)>,
    pub timeout_secs: u64,
}

/// The contents of a list of headers.
pub open spec fn header_contents(headers: Seq<(String, String)>) -> Seq<(Seq<char>, Seq<char>)> {
    Seq::new(headers.len(), |i: int| (headers[i].0@, headers[i].1@))
}

impl View for HttpResponse {
    type V = ResponseModel;

    open spec fn view(&self) -> ResponseModel {
        ResponseModel {
            status: self.status,
            headers: header_contents(self.headers@),
            body: self.body@,
        }
    }
}

impl View for HttpCall {
    type V = CallModel;

    open spec fn view(&self) -> CallModel {
        CallModel {
            upstream: self.upstream@,
            headers: header_contents(self.headers@),
            body: match self.body {
                Some(body) => Some(body@),
                None => None,
            },
            trailers: header_contents(self.trailers@),
            timeout_secs: self.timeout_secs,
        }
    }
}

/// The reply to a request that is not let through.
pub open spec fn refusal_model(status: u32) -> ResponseModel {
    ResponseModel {
        status,
        headers: seq![("Powered-By"@, POWERED_BY@)],
        body: "Access forbidden.\n"@,
    }
}

/// Makes the reply to a request that is not let through.
pub fn refusal(status: u32) -> (response: HttpResponse)
    ensures
        response@ == refusal_model(status),
{
    let mut headers: Vec<(String, String)> = Vec::new();
    headers.push(("Powered-By".to_owned(), POWERED_BY.to_owned()));
    assert(header_contents(headers@) =~= seq![("Powered-By"@, POWERED_BY@)]);
    HttpResponse { status, headers, body: "Access forbidden.\n".to_owned() }
}

/// A request for what the upstream holds at a path.
pub open spec fn fetch_model(path: Seq<char>) -> CallModel {
    CallModel {
        upstream: AUTH_UPSTREAM@,
        headers: seq![(":method"@, "GET"@), (":path"@, path), (":authority"@, AUTH_UPSTREAM@)],
        body: None,
        trailers: Seq::empty(),
        timeout_secs: 1,
    }
}

/// Makes the request for what the upstream holds at a path.
pub fn fetch(path: String) -> (call: HttpCall)
    ensures
        call@ == fetch_model(path@),
{
    let mut headers: Vec<(String, String)> = Vec::new();
    headers.push((":method".to_owned(), "GET".to_owned()));
    headers.push((":path".to_owned(), path));
    headers.push((":authority".to_owned(), AUTH_UPSTREAM.to_owned()));
    let trailers: Vec<(String, String)> = Vec::new();
    assert(header_contents(headers@) =~= seq![
        (":method"@, "GET"@),
        (":path"@, path@),
        (":authority"@, AUTH_UPSTREAM@),
    ]);
    assert(header_contents(trailers@) =~= Seq::empty());
    HttpCall {
        upstream: AUTH_UPSTREAM.to_owned(),
        headers,
        body: None,
        trailers,
        timeout_secs: CALL_TIMEOUT_SECS,
    }
}

/// The refusal of a request says, with the status that is asked for, that access is
/// forbidden, and who says so.
pub proof fn law_refusal_says_so(status: u32)
    ensures
        refusal_model(status).status == status,
        refusal_model(status).body == "Access forbidden.\n"@,
        refusal_model(status).headers.len() == 1,
        refusal_model(status).headers[0] == ("Powered-By"@, "wasm-envoy-proxy"@),
{
}

/// A fetch goes to the upstream for just the path that is asked for, and carries
/// nothing else.
pub proof fn law_fetch_asks_for_the_path(path: Seq<char>)
    ensures
        fetch_model(path).upstream == "auth"@,
        fetch_model(path).headers.len() == 3,
        fetch_model(path).headers[0] == (":method"@, "GET"@),
        fetch_model(path).headers[1] == (":path"@, path),
        fetch_model(path).headers[2] == (":authority"@, "auth"@),
        fetch_model(path).body is None,
        fetch_model(path).trailers.len() == 0,
        fetch_model(path).timeout_secs == 1,
{
}

/// The contents of headers are the name and the value of each of them, in order.
pub proof fn law_headers_keep_everything(headers: Seq<(String, String)>)
    ensures
        header_contents(headers).len() == headers.len(),
        forall|i: int|
            0 <= i < headers.len() ==> (#[trigger] header_contents(headers)[i]).0 == headers[i].0@
                && header_contents(headers)[i].1 == headers[i].1@,
{
}

/// The model of a reply has all of it.
pub proof fn law_response_model_keeps_everything(response: HttpResponse)
    ensures
        response@.status == response.status,
        response@.body == response.body@,
        response@.headers.len() == response.headers@.len(),
        forall|i: int|
            0 <= i < response.headers@.len() ==> (#[trigger] response@.headers[i])
                == (response.headers@[i].0@, response.headers@[i].1@),
{
}

/// The model of a call has all of it.
pub proof fn law_call_model_keeps_everything(call: HttpCall)
    ensures
        call@.upstream == call.upstream@,
        call@.headers.len() == call.headers@.len(),
        forall|i: int|
            0 <= i < call.headers@.len() ==> (#[trigger] call@.headers[i]) == (
                call.headers@[i].0@,
                call.headers@[i].1@,
            ),
        match call.body {
            Some(body) => call@.body == Some(body@),
            None => call@.body is None,
        },
        call@.trailers.len() == call.trailers@.len(),
        forall|i: int|
            0 <= i < call.trailers@.len() ==> (#[trigger] call@.trailers[i]) == (
                call.trailers@[i].0@,
                call.trailers@[i].1@,
            ),
        call@.timeout_secs == call.timeout_secs,
{
}

} // verus!
