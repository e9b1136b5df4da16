use vstd::prelude::*;
use vstd::string::StringExecFns;

use crate::headers::HeaderMap;
use crate::status::StatusCode;
use crate::text::owned;

verus! {

/// A response ready to be written: protocol, numeric status, reason phrase,
/// header fields and body.
pub struct HttpResponse {
    pub protocol: String,
    pub status_code: u32,
    pub body: String,
    pub reason: String,
    pub headers: HeaderMap,
}

/// Collects the parts of a response; `build` turns them into one.
#[derive(Clone)]
pub struct HttpResponseBuilder {
    protocol: String,
    status_code: Option<StatusCode>,
    body: String,
    headers: HeaderMap,
}

/// The status a builder yields: the one set, or an internal error when none was.
pub open spec fn effective_status(s: Option<StatusCode>) -> StatusCode {
    match s {
        Some(st) => st,
        None => StatusCode::InternalServerError,
    }
}

impl HttpResponseBuilder {
    pub closed spec fn spec_protocol(&self) -> Seq<char> {
        self.protocol@
    }

    pub closed spec fn spec_status(&self) -> Option<StatusCode> {
        self.status_code
    }

    pub closed spec fn spec_body(&self) -> Seq<char> {
        self.body@
    }

    pub closed spec fn spec_headers(&self) -> HeaderMap {
        self.headers
    }

    pub open spec fn wf(&self) -> bool {
        self.spec_headers().wf()
    }

    /// A builder for `HTTP/1.1`, with no status, no body and no header.
    pub fn new() -> (r: HttpResponseBuilder)
        ensures
            r.wf(),
            r.spec_protocol() == "HTTP/1.1"@,
            r.spec_status() is None,
            r.spec_body().len() == 0,
            r.spec_headers()@ == Map::<Seq<char>, Seq<char>>::empty(),
            r.spec_headers().entries().len() == 0,
    {
        HttpResponseBuilder {
            protocol: owned("HTTP/1.1"),
            status_code: None,
            body: String::new(),
            headers: HeaderMap::new(),
        }
    }

    pub fn status_code(&mut self, status: StatusCode) -> (r: &mut Self)
        ensures
            r.spec_status() == Some(status),
            r.spec_protocol() == old(self).spec_protocol(),
            r.spec_body() == old(self).spec_body(),
            r.spec_headers() == old(self).spec_headers(),
            *final(self) == *final(r),
    {
        self.status_code = Some(status);
        self
    }

    pub fn protocol(&mut self, protocol: String) -> (r: &mut Self)
        ensures
            r.spec_protocol() == protocol@,
            r.spec_status() == old(self).spec_status(),
            r.spec_body() == old(self).spec_body(),
            r.spec_headers() == old(self).spec_headers(),
            *final(self) == *final(r),
    {
        self.protocol = protocol;
        self
    }

    pub fn body(&mut self, body: String) -> (r: &mut Self)
        ensures
            r.spec_body() == body@,
            r.spec_status() == old(self).spec_status(),
            r.spec_protocol() == old(self).spec_protocol(),
            r.spec_headers() == old(self).spec_headers(),
            *final(self) == *final(r),
    {
        self.body = body;
        self
    }

    /// Sets the header `key` to `value`, replacing an earlier value of `key`.
    pub fn header(&mut self, key: &str, value: &str) -> (r: &mut Self)
        requires
            old(self).wf(),
        ensures
            r.wf(),
            r.spec_headers()@ == old(self).spec_headers()@.insert(key@, value@),
            r.spec_status() == old(self).spec_status(),
            r.spec_protocol() == old(self).spec_protocol(),
            r.spec_body() == old(self).spec_body(),
            *final(self) == *final(r),
    {
        self.headers.insert(owned(key), owned(value));
        self
    }

    /// A copy of this builder.
    pub fn get(&self) -> (r: Self)
        ensures
            r.spec_protocol() == self.spec_protocol(),
            r.spec_status() == self.spec_status(),
            r.spec_body() == self.spec_body(),
            r.spec_headers()@ == self.spec_headers()@,
            r.spec_headers().entries() == self.spec_headers().entries(),
            r.wf() == self.wf(),
    {
        HttpResponseBuilder {
            protocol: self.protocol.clone(),
            status_code: self.status_code,
            body: self.body.clone(),
            headers: self.headers.duplicate(),
        }
    }

    /// The response: the status set, or an internal error when none was. An
    /// internal error never carries a body or headers: they are dropped, from
    /// the builder too.
    pub fn build(&mut self) -> (r: HttpResponse)
        requires
            old(self).wf(),
        ensures
            ({
                let st = effective_status(old(self).spec_status());
                &&& r.protocol@ == old(self).spec_protocol()
                &&& r.status_code == st.spec_code()
                &&& r.reason@ == st.spec_reason()
                &&& r.headers.wf()
                &&& final(self).wf()
                &&& final(self).spec_protocol() == old(self).spec_protocol()
                &&& final(self).spec_status() == old(self).spec_status()
                &&& if st == StatusCode::InternalServerError {
                    &&& r.body@.len() == 0
                    &&& r.headers@ == Map::<Seq<char>, Seq<char>>::empty()
                    &&& r.headers.entries().len() == 0
                    &&& final(self).spec_body().len() == 0
                    &&& final(self).spec_headers()@ == Map::<Seq<char>, Seq<char>>::empty()
                    &&& final(self).spec_headers().entries().len() == 0
                } else {
                    &&& r.body@ == old(self).spec_body()
                    &&& r.headers@ == old(self).spec_headers()@
                    &&& r.headers.entries() == old(self).spec_headers().entries()
                    &&& final(self).spec_body() == old(self).spec_body()
                    &&& final(self).spec_headers() == old(self).spec_headers()
                }
            }),
    {
        let status = match self.status_code {
            Some(st) => st,
            None => StatusCode::InternalServerError,
        };
        if status == StatusCode::InternalServerError {
            self.body = String::new();
            self.headers.clear();
        }
        HttpResponse {
            protocol: self.protocol.clone(),
            status_code: status.code(),
            body: self.body.clone(),
            reason: owned(status.reason()),
            headers: self.headers.duplicate(),
        }
    }
}

/// Why a response could not be built.
#[derive(Debug, Clone)]
pub struct HttpResponseBuilderError {
    message: String,
}

impl HttpResponseBuilderError {
    pub closed spec fn spec_message(&self) -> Seq<char> {
        self.message@
    }

    pub fn new(message: String) -> (r: Self)
        ensures
            r.spec_message() == message@,
    {
        HttpResponseBuilderError { message }
    }

    /// The error as one line of text.
    pub fn to_string(&self) -> (r: String)
        ensures
            r@ == "Cannot build HttpResponse: "@ + self.spec_message(),
    {
        let mut out = owned("Cannot build HttpResponse: ");
        out.append(self.message.as_str());
        out
    }
}

impl HttpResponse {
    pub fn builder() -> (r: HttpResponseBuilder)
        ensures
            r.wf(),
            r.spec_protocol() == "HTTP/1.1"@,
            r.spec_status() is None,
            r.spec_body().len() == 0,
            r.spec_headers()@ == Map::<Seq<char>, Seq<char>>::empty(),
            r.spec_headers().entries().len() == 0,
    {
        HttpResponseBuilder::new()
    }
}

} // verus!
