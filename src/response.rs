//! The short-circuit response a plugin returns to stop the pipeline, and the
//! per-request state that plugins read and fill.
use vstd::prelude::*;
use vstd::utf8::encode_utf8;

verus! {

/// A response sent in place of proxying the request.
#[derive(Debug)]
pub struct HttpResponse {
    pub status: u16,
    pub body: Vec<u8>,
}

impl HttpResponse {
    /// A response with `status` whose body is the UTF-8 bytes of `message`.
    pub fn with_text(status: u16, message: &str) -> (r: HttpResponse)
        ensures
            r.status == status,
            r.body@ == encode_utf8(message@),
    {
        HttpResponse { status, body: message.as_bytes_vec() }
    }

    /// `400 Bad Request` carrying `message`.
    pub fn bad_request(message: &str) -> (r: HttpResponse)
        ensures
            r.status == 400,
            r.body@ == encode_utf8(message@),
    {
        HttpResponse::with_text(400, message)
    }

    /// A copy with the same status and body.
    pub fn duplicate(&self) -> (r: HttpResponse)
        ensures
            r.status == self.status,
            r.body@ == self.body@,
    {
        let mut body: Vec<u8> = Vec::new();
        let n = self.body.len();
        let mut i: usize = 0;
        while i < n
            invariant
                n == self.body@.len(),
                i <= n,
                body@ == self.body@.take(i as int),
            decreases n - i,
        {
            body.push(self.body[i]);
            assert(self.body@.take(i + 1) =~= self.body@.take(i as int).push(self.body@[i as int]));
            i = i + 1;
        }
        assert(self.body@.take(n as int) =~= self.body@);
        HttpResponse { status: self.status, body }
    }
}

/// Facts derived while a request is processed, shared by the plugins that
/// handle it.
#[derive(Debug, Default)]
pub struct State {
    /// The client's address, once some plugin has resolved it.
    pub client_ip: Option<String>,
    /// The correlation id of the request, once one is known.
    pub request_id: Option<String>,
}

impl State {
    pub fn new() -> (r: State)
        ensures
            r.client_ip is None,
            r.request_id is None,
    {
        State { client_ip: None, request_id: None }
    }
}

} // verus!
