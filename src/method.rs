use vstd::prelude::*;

use crate::text::same_text;

verus! {

/// The request methods this server understands; `UNKNOWN` stands for any
/// other token and is never routed.
#[derive(Debug, PartialEq, Eq, Structural, Hash, Clone, Copy)]
pub enum HttpRequestMethod {
    GET,
    HEAD,
    POST,
    PUT,
    PATCH,
    DELETE,
    OPTIONS,
    CONNECT,
    TRACE,
    UNKNOWN,
}

/// The token that names a known method on the request line.
pub open spec fn method_token(m: HttpRequestMethod) -> Seq<char> {
    match m {
        HttpRequestMethod::GET => "GET"@,
        HttpRequestMethod::HEAD => "HEAD"@,
        HttpRequestMethod::POST => "POST"@,
        HttpRequestMethod::PUT => "PUT"@,
        HttpRequestMethod::PATCH => "PATCH"@,
        HttpRequestMethod::DELETE => "DELETE"@,
        HttpRequestMethod::OPTIONS => "OPTIONS"@,
        HttpRequestMethod::CONNECT => "CONNECT"@,
        HttpRequestMethod::TRACE => "TRACE"@,
        HttpRequestMethod::UNKNOWN => Seq::<char>::empty(),
    }
}

/// The method that a request-line token names, matched case-sensitively.
pub open spec fn method_of_token(t: Seq<char>) -> HttpRequestMethod {
    if t == "GET"@ {
        HttpRequestMethod::GET
    } else if t == "POST"@ {
        HttpRequestMethod::POST
    } else if t == "PUT"@ {
        HttpRequestMethod::PUT
    } else if t == "PATCH"@ {
        HttpRequestMethod::PATCH
    } else if t == "HEAD"@ {
        HttpRequestMethod::HEAD
    } else if t == "OPTIONS"@ {
        HttpRequestMethod::OPTIONS
    } else if t == "DELETE"@ {
        HttpRequestMethod::DELETE
    } else if t == "CONNECT"@ {
        HttpRequestMethod::CONNECT
    } else if t == "TRACE"@ {
        HttpRequestMethod::TRACE
    } else {
        HttpRequestMethod::UNKNOWN
    }
}

/// Reads a request-line token as a method.
pub fn method_from_token(t: &str) -> (r: HttpRequestMethod)
    ensures
        r == method_of_token(t@),
{
    if same_text(t, "GET") {
        HttpRequestMethod::GET
    } else if same_text(t, "POST") {
        HttpRequestMethod::POST
    } else if same_text(t, "PUT") {
        HttpRequestMethod::PUT
    } else if same_text(t, "PATCH") {
        HttpRequestMethod::PATCH
    } else if same_text(t, "HEAD") {
        HttpRequestMethod::HEAD
    } else if same_text(t, "OPTIONS") {
        HttpRequestMethod::OPTIONS
    } else if same_text(t, "DELETE") {
        HttpRequestMethod::DELETE
    } else if same_text(t, "CONNECT") {
        HttpRequestMethod::CONNECT
    } else if same_text(t, "TRACE") {
        HttpRequestMethod::TRACE
    } else {
        HttpRequestMethod::UNKNOWN
    }
}

/// Every known method is read back from its own token, and that token is
/// made of capital letters.
pub proof fn lemma_method_token(m: HttpRequestMethod)
    requires
        m != HttpRequestMethod::UNKNOWN,
    ensures
        method_of_token(method_token(m)) == m,
        method_token(m).len() > 0,
        forall|i: int|
            0 <= i < method_token(m).len() ==> 'A' <= #[trigger] method_token(m)[i] <= 'Z',
{
    reveal_strlit("GET");
    reveal_strlit("HEAD");
    reveal_strlit("POST");
    reveal_strlit("PUT");
    reveal_strlit("PATCH");
    reveal_strlit("DELETE");
    reveal_strlit("OPTIONS");
    reveal_strlit("CONNECT");
    reveal_strlit("TRACE");
    assert("GET"@.len() == 3 && "GET"@[0] == 'G');
    assert("HEAD"@.len() == 4 && "HEAD"@[0] == 'H');
    assert("POST"@.len() == 4 && "POST"@[0] == 'P');
    assert("PUT"@.len() == 3 && "PUT"@[0] == 'P');
    assert("PATCH"@.len() == 5 && "PATCH"@[0] == 'P');
    assert("DELETE"@.len() == 6 && "DELETE"@[0] == 'D');
    assert("OPTIONS"@.len() == 7 && "OPTIONS"@[0] == 'O');
    assert("CONNECT"@.len() == 7 && "CONNECT"@[0] == 'C');
    assert("TRACE"@.len() == 5 && "TRACE"@[0] == 'T');
}

} // verus!
