use vstd::prelude::*;

use crate::headers::HeaderMap;
use crate::method::HttpRequestMethod;

verus! {

/// A parsed request: method, target path exactly as sent, protocol version,
/// header fields and body.
#[derive(Clone)]
pub struct HttpRequest {
    pub method: HttpRequestMethod,
    pub target: String,
    pub version: String,
    pub body: String,
    pub headers: HeaderMap,
}

/// The first line of a request: method, target and version.
pub struct RequestLine(pub HttpRequestMethod, pub String, pub String);

impl HttpRequest {
    pub fn new(
        method: HttpRequestMethod,
        target: String,
        version: String,
        body: String,
        headers: HeaderMap,
    ) -> (r: HttpRequest)
        ensures
            r.method == method,
            r.target == target,
            r.version == version,
            r.body == body,
            r.headers == headers,
    {
        HttpRequest { method, target, version, headers, body }
    }
}

} // verus!
