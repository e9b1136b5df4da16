use vstd::prelude::*;
use vstd::string::StringExecFns;

use std::sync::Arc;

use crate::headers::HeaderMap;
use crate::logging::Logging;
use crate::parser::ParseError;
use crate::request::HttpRequest;
use crate::response::HttpResponse;
use crate::router::HttpRouter;
use crate::status::StatusCode;
use crate::text::{byte_len, decimal, usize_text};
use vstd::utf8::encode_utf8;

verus! {

/// The header lines of `e`, in order.
pub open spec fn headers_text(e: Seq<(Seq<char>, Seq<char>)>) -> Seq<char>
    decreases e.len(),
{
    if e.len() == 0 {
        Seq::<char>::empty()
    } else {
        headers_text(e.drop_last()) + e.last().0 + ": "@ + e.last().1 + "\r\n"@
    }
}

/// `"{protocol} {code} {reason}\r\n"`.
pub open spec fn status_line(protocol: Seq<char>, code: u32, reason: Seq<char>) -> Seq<char> {
    protocol + " "@ + decimal(code as nat) + " "@ + reason + "\r\n"@
}

/// The text of a response on the wire. A non-empty body is declared one
/// byte longer than its UTF-8 form and followed by a newline; every response
/// says that the connection closes.
pub open spec fn wire_text(
    protocol: Seq<char>,
    code: u32,
    reason: Seq<char>,
    entries: Seq<(Seq<char>, Seq<char>)>,
    body: Seq<char>,
) -> Seq<char> {
    status_line(protocol, code, reason) + headers_text(entries) + (if body.len() > 0 {
        "Content-Length: "@ + decimal(byte_len(body) + 1) + "\r\n"@
    } else {
        Seq::<char>::empty()
    }) + "Connection: close\r\n\r\n"@ + (if body.len() > 0 {
        body + "\n"@
    } else {
        Seq::<char>::empty()
    })
}

pub open spec fn response_wire(r: HttpResponse) -> Seq<char> {
    wire_text(r.protocol@, r.status_code, r.reason@, r.headers.entries(), r.body@)
}

/// `r` is a bare `HTTP/1.1` response of status `st`: no header, no body.
pub open spec fn bare_response(r: HttpResponse, st: StatusCode) -> bool {
    &&& r.protocol@ == "HTTP/1.1"@
    &&& r.status_code == st.spec_code()
    &&& r.reason@ == st.spec_reason()
    &&& r.body@.len() == 0
    &&& r.headers.wf()
    &&& r.headers.entries().len() == 0
}

/// What to do with a request: answer it as it stands, or call a handler on it.
pub enum Dispatch<'a, H> {
    Respond(HttpResponse),
    Call(&'a H, HttpRequest),
}

/// Drives one connection: the parse result in, the response out.
pub struct HttpRequestHandler<H> {
    logging_enabled: bool,
    router: Arc<HttpRouter<H>>,
}

/// A bare response of status `st`.
fn bare(st: StatusCode) -> (r: HttpResponse)
    ensures
        bare_response(r, st),
{
    let mut b = HttpResponse::builder();
    b.status_code(st);
    b.build()
}

impl<H> HttpRequestHandler<H> {
    pub closed spec fn spec_router(&self) -> HttpRouter<H> {
        *self.router
    }

    pub fn new(router: Arc<HttpRouter<H>>) -> (r: Self)
        ensures
            r.spec_router() == *router,
            !r.spec_logging(),
    {
        HttpRequestHandler { logging_enabled: false, router: router }
    }

    /// A request that did not parse gets a bad-request answer; a parsed one
    /// goes to the handler of its exact target and method, or gets a
    /// not-found answer when there is none.
    pub fn dispatch(&self, parsed: Result<HttpRequest, ParseError>) -> (r: Dispatch<'_, H>)
        ensures
            match parsed {
                Err(_) => r matches Dispatch::Respond(resp) && bare_response(
                    resp,
                    StatusCode::BadRequest,
                ),
                Ok(req) => match self.spec_router().handler_for(req.target@, req.method) {
                    Some(h) => r matches Dispatch::Call(h2, req2) && *h2 == h && req2 == req,
                    None => r matches Dispatch::Respond(resp) && bare_response(
                        resp,
                        StatusCode::NotFound,
                    ),
                },
            },
    {
        match parsed {
            Err(_) => Dispatch::Respond(bare(StatusCode::BadRequest)),
            Ok(req) => {
                let router: &HttpRouter<H> = &self.router;
                match router.get_handler(&req) {
                    Some(h) => Dispatch::Call(h, req),
                    None => Dispatch::Respond(bare(StatusCode::NotFound)),
                }
            },
        }
    }

    /// The bytes of `response` on the wire.
    pub fn get_response_str(&self, response: &HttpResponse) -> (r: String)
        requires
            byte_len(response.body@) < usize::MAX,
        ensures
            r@ == response_wire(*response),
    {
        let mut out = response.protocol.clone();
        out.append(" ");
        let code = usize_text(response.status_code as usize);
        out.append(code.as_str());
        out.append(" ");
        out.append(response.reason.as_str());
        out.append("\r\n");
        let lines = header_lines(&response.headers);
        out.append(lines.as_str());
        let n = response.body.unicode_len();
        if n > 0 {
            out.append("Content-Length: ");
            let len = usize_text(response.body.as_str().as_bytes().len() + 1);
            out.append(len.as_str());
            out.append("\r\n");
        }
        out.append("Connection: close\r\n\r\n");
        if n > 0 {
            out.append(response.body.as_str());
            out.append("\n");
        }
        proof {
            assert(out@ =~= response_wire(*response));
        }
        out
    }
}

/// The header lines of `headers`, in order.
fn header_lines(headers: &HeaderMap) -> (r: String)
    ensures
        r@ == headers_text(headers.entries()),
{
    let mut out = String::new();
    let n = headers.len();
    let mut i: usize = 0;
    proof {
        assert(headers.entries().subrange(0, 0) =~= Seq::<(Seq<char>, Seq<char>)>::empty());
    }
    while i < n
        invariant
            n == headers.entries().len(),
            i <= n,
            out@ == headers_text(headers.entries().subrange(0, i as int)),
        decreases n - i,
    {
        out.append(headers.key_at(i).as_str());
        out.append(": ");
        out.append(headers.value_at(i).as_str());
        out.append("\r\n");
        proof {
            let sub = headers.entries().subrange(0, i + 1);
            assert(sub.drop_last() =~= headers.entries().subrange(0, i as int));
        }
        i = i + 1;
    }
    proof {
        assert(headers.entries().subrange(0, n as int) =~= headers.entries());
    }
    out
}

impl<H> Logging for HttpRequestHandler<H> {
    closed spec fn spec_logging(&self) -> bool {
        self.logging_enabled
    }

    fn enable_logging(&mut self) {
        self.logging_enabled = true;
    }

    fn disable_logging(&mut self) {
        self.logging_enabled = false;
    }

    fn logging_enabled(&self) -> bool {
        self.logging_enabled
    }
}

/// A response with an empty body is its status line, its header lines and
/// the closing line: no `Content-Length` line is added, and nothing follows
/// the empty line.
pub proof fn lemma_bodiless_wire(r: HttpResponse)
    requires
        r.body@.len() == 0,
    ensures
        response_wire(r) == status_line(r.protocol@, r.status_code, r.reason@) + headers_text(
            r.headers.entries(),
        ) + "Connection: close\r\n\r\n"@,
{
    assert(response_wire(r) =~= status_line(r.protocol@, r.status_code, r.reason@)
        + headers_text(r.headers.entries()) + "Connection: close\r\n\r\n"@);
}

/// The UTF-8 form of two strings one after the other is their forms one
/// after the other.
pub proof fn lemma_encode_concat(s: Seq<char>, t: Seq<char>)
    ensures
        encode_utf8(s + t) == encode_utf8(s) + encode_utf8(t),
    decreases s.len(),
{
    if s.len() == 0 {
        assert(s + t =~= t);
        assert(encode_utf8(s) =~= Seq::<u8>::empty());
        assert(encode_utf8(s) + encode_utf8(t) =~= encode_utf8(t));
    } else {
        lemma_encode_concat(s.drop_first(), t);
        assert((s + t).drop_first() =~= s.drop_first() + t);
        assert((s + t)[0] == s[0]);
        assert(encode_utf8(s + t) =~= encode_utf8(s) + encode_utf8(t));
    }
}

/// A response with a body is framed as: status line, header lines, a
/// `Content-Length` line, the closing line, then the body and a newline;
/// the declared length is exactly the byte count of what follows the empty
/// line.
pub proof fn lemma_bodied_wire(r: HttpResponse)
    requires
        r.body@.len() > 0,
    ensures
        response_wire(r) == status_line(r.protocol@, r.status_code, r.reason@) + headers_text(
            r.headers.entries(),
        ) + "Content-Length: "@ + decimal(byte_len(r.body@) + 1) + "\r\n"@
            + "Connection: close\r\n\r\n"@ + (r.body@ + "\n"@),
        byte_len(r.body@ + "\n"@) == byte_len(r.body@) + 1,
{
    assert(response_wire(r) =~= status_line(r.protocol@, r.status_code, r.reason@)
        + headers_text(r.headers.entries()) + "Content-Length: "@ + decimal(
        byte_len(r.body@) + 1,
    ) + "\r\n"@ + "Connection: close\r\n\r\n"@ + (r.body@ + "\n"@));
    reveal_strlit("\n");
    lemma_encode_concat(r.body@, "\n"@);
    assert("\n"@.drop_first() =~= Seq::<char>::empty());
    assert("\n"@[0] == '\n');
    assert(encode_utf8("\n"@.drop_first()).len() == 0);
    assert(vstd::utf8::encode_scalar('\n' as u32).len() == 1);
    assert(encode_utf8("\n"@).len() == 1);
}

/// A request with no handler for its target and method is answered with
/// exactly these bytes.
pub proof fn lemma_not_found_wire(r: HttpResponse)
    requires
        bare_response(r, StatusCode::NotFound),
    ensures
        response_wire(r) == "HTTP/1.1 404 Not Found\r\nConnection: close\r\n\r\n"@,
{
    lemma_bodiless_wire(r);
    assert(headers_text(r.headers.entries()) =~= Seq::<char>::empty());
    reveal_with_fuel(decimal, 3);
    reveal_strlit("HTTP/1.1");
    reveal_strlit(" ");
    reveal_strlit("Not Found");
    reveal_strlit("\r\n");
    reveal_strlit("Connection: close\r\n\r\n");
    reveal_strlit("HTTP/1.1 404 Not Found\r\nConnection: close\r\n\r\n");
    assert(decimal(404) =~= seq!['4', '0', '4']);
    assert(response_wire(r) =~= "HTTP/1.1 404 Not Found\r\nConnection: close\r\n\r\n"@);
}

/// A response built without a status is sent as exactly these bytes.
pub proof fn lemma_internal_error_wire(r: HttpResponse)
    requires
        bare_response(r, StatusCode::InternalServerError),
    ensures
        response_wire(r) == "HTTP/1.1 500 Internal Server Error\r\nConnection: close\r\n\r\n"@,
{
    lemma_bodiless_wire(r);
    assert(headers_text(r.headers.entries()) =~= Seq::<char>::empty());
    reveal_with_fuel(decimal, 3);
    reveal_strlit("HTTP/1.1");
    reveal_strlit(" ");
    reveal_strlit("Internal Server Error");
    reveal_strlit("\r\n");
    reveal_strlit("Connection: close\r\n\r\n");
    reveal_strlit("HTTP/1.1 500 Internal Server Error\r\nConnection: close\r\n\r\n");
    assert(decimal(500) =~= seq!['5', '0', '0']);
    assert(response_wire(r) =~= "HTTP/1.1 500 Internal Server Error\r\nConnection: close\r\n\r\n"@);
}

} // verus!
