use vstd::prelude::*;
use vstd::string::StringExecFns;

use crate::headers::HeaderMap;
use crate::logging::Logging;
use crate::method::{lemma_method_token, method_from_token, method_of_token, method_token, HttpRequestMethod};
use crate::request::{HttpRequest, RequestLine};
use crate::text::{
    byte_len, find_char, find_separator, first_index, first_sep, is_first_sep, sep_at, owned, parse_decimal_u32, parse_u32,
    pieces, split_pieces, trim_text, trimmed, lemma_trimmed_idempotent,
};

verus! {

/// Why a request could not be read.
#[derive(Debug, PartialEq, Eq, Structural, Clone, Copy)]
pub enum ParseError {
    /// The head holds no request line.
    InvalidRequest,
    /// The request line starts with no known method.
    InvalidMethod,
    /// The `Content-Length` field is not a decimal number that fits in a `u32`.
    InvalidContentLength,
}

/// Where the text starts once the separators at `i` and right after it are
/// passed over.
pub open spec fn skip_seps(text: Seq<char>, i: int) -> int
    decreases text.len() - i,
{
    if 0 <= i && sep_at(text, i) {
        skip_seps(text, i + 4)
    } else {
        i
    }
}

/// The text without the empty segments (separators) it starts with.
pub open spec fn message(text: Seq<char>) -> Seq<char> {
    text.subrange(skip_seps(text, 0), text.len() as int)
}

/// The head of a request: the first non-empty segment between separators,
/// or all of the message when it holds no separator.
pub open spec fn head_part(text: Seq<char>) -> Seq<char> {
    let t = message(text);
    match first_sep(t) {
        Some(i) => t.subrange(0, i),
        None => t,
    }
}

/// What follows the head's separator: the start of the body.
pub open spec fn body_part(text: Seq<char>) -> Seq<char> {
    let t = message(text);
    match first_sep(t) {
        Some(i) => t.subrange(i + 4, t.len() as int),
        None => Seq::<char>::empty(),
    }
}

pub open spec fn strip_cr(s: Seq<char>) -> Seq<char> {
    if s.len() > 0 && s.last() == '\r' {
        s.drop_last()
    } else {
        s
    }
}

/// The lines of the head: split at each `\n`, a `\r` right before that `\n`
/// dropped, and no empty line after a final `\n`. A last line that no `\n`
/// ends keeps a final `\r`.
pub open spec fn head_lines(head: Seq<char>) -> Seq<Seq<char>> {
    let p = pieces(head, '\n');
    let n = if p.last().len() == 0 {
        p.len() - 1
    } else {
        p.len() as int
    };
    Seq::new(
        n as nat,
        |k: int|
            if k + 1 < p.len() {
                strip_cr(p[k])
            } else {
                p[k]
            },
    )
}

/// A request line split at single spaces: the method token, then the target
/// and the version, each empty when missing.
pub open spec fn request_line_of(line: Seq<char>) -> (HttpRequestMethod, Seq<char>, Seq<char>) {
    let p = pieces(line, ' ');
    (
        method_of_token(p[0]),
        if p.len() > 1 {
            p[1]
        } else {
            Seq::<char>::empty()
        },
        if p.len() > 2 {
            p[2]
        } else {
            Seq::<char>::empty()
        },
    )
}

/// A header line split at its first `:`, both sides trimmed; kept only when
/// neither side is empty.
pub open spec fn header_of(line: Seq<char>) -> Option<(Seq<char>, Seq<char>)> {
    match first_index(line, ':') {
        None => None,
        Some(i) => {
            let k = trimmed(line.subrange(0, i));
            let v = trimmed(line.subrange(i + 1, line.len() as int));
            if k.len() > 0 && v.len() > 0 {
                Some((k, v))
            } else {
                None
            }
        },
    }
}

/// The header fields of a run of header lines; a later line wins on a key.
pub open spec fn headers_of(lines: Seq<Seq<char>>) -> Map<Seq<char>, Seq<char>>
    decreases lines.len(),
{
    if lines.len() == 0 {
        Map::empty()
    } else {
        let m = headers_of(lines.drop_last());
        match header_of(lines.last()) {
            Some((k, v)) => m.insert(k, v),
            None => m,
        }
    }
}

/// The declared body length: 0 without a `Content-Length` field, `None` when
/// the field is not a number.
pub open spec fn content_length_of(headers: Map<Seq<char>, Seq<char>>) -> Option<u32> {
    if headers.contains_key("Content-Length"@) {
        parse_u32(headers["Content-Length"@])
    } else {
        Some(0)
    }
}

/// Why the head of `text` is rejected, if it is.
pub open spec fn head_error(text: Seq<char>) -> Option<ParseError> {
    let ls = head_lines(head_part(text));
    if ls.len() == 0 {
        Some(ParseError::InvalidRequest)
    } else if request_line_of(ls[0]).0 == HttpRequestMethod::UNKNOWN {
        Some(ParseError::InvalidMethod)
    } else if content_length_of(headers_of(ls.drop_first())) is None {
        Some(ParseError::InvalidContentLength)
    } else {
        None
    }
}

/// The declared body length of a head that is not rejected.
pub open spec fn declared_length(text: Seq<char>) -> u32 {
    content_length_of(headers_of(head_lines(head_part(text)).drop_first()))->Some_0
}

/// A head read so far, with the part of the body that came with it.
pub struct RequestHead {
    pub method: HttpRequestMethod,
    pub target: String,
    pub version: String,
    pub headers: HeaderMap,
    pub content_length: u32,
    pub body: String,
}

/// `h` is what the text `text` says, when its head is not rejected.
pub open spec fn head_matches(text: Seq<char>, h: RequestHead) -> bool {
    let ls = head_lines(head_part(text));
    let rl = request_line_of(ls[0]);
    &&& h.method == rl.0
    &&& h.target@ == rl.1
    &&& h.version@ == rl.2
    &&& h.headers.wf()
    &&& h.headers@ == headers_of(ls.drop_first())
    &&& h.content_length == declared_length(text)
    &&& h.body@ == body_part(text)
}

/// What a connection's reader holds between reads: the text of a head that
/// is not complete yet, or a parsed head whose body is still arriving.
pub enum ReadState {
    Head(String),
    Body(RequestHead),
}

/// What comes of one read: read more, a whole request, or a rejection.
pub enum ReadStep {
    Continue(ReadState),
    Complete(HttpRequest),
    Rejected(ParseError),
}

/// A reader state that `advance` accepts: a body still owes bytes.
pub open spec fn read_state_wf(st: ReadState) -> bool {
    match st {
        ReadState::Head(_) => true,
        ReadState::Body(h) => h.headers.wf() && h.content_length > 0 && byte_len(h.body@)
            < h.content_length,
    }
}

/// The head of `text` is accepted and declares more body than came with it.
pub open spec fn head_needs_more(text: Seq<char>) -> bool {
    head_error(text) is None && declared_length(text) > 0 && byte_len(body_part(text))
        < declared_length(text)
}

/// The body that a complete request read from `text` carries.
pub open spec fn ready_body(text: Seq<char>) -> Seq<char> {
    if declared_length(text) == 0 {
        Seq::<char>::empty()
    } else {
        body_part(text)
    }
}

/// `req` is the request that the head of `text` describes, with body `body`.
pub open spec fn request_from_text(text: Seq<char>, req: HttpRequest, body: Seq<char>) -> bool {
    let ls = head_lines(head_part(text));
    let rl = request_line_of(ls[0]);
    &&& req.method == rl.0
    &&& req.target@ == rl.1
    &&& req.version@ == rl.2
    &&& req.headers.wf()
    &&& req.headers@ == headers_of(ls.drop_first())
    &&& req.body@ == body
}

/// `req` is the request of head `h` with body `body`.
pub open spec fn request_from_head(h: RequestHead, req: HttpRequest, body: Seq<char>) -> bool {
    &&& req.method == h.method
    &&& req.target == h.target
    &&& req.version == h.version
    &&& req.headers == h.headers
    &&& req.body@ == body
}

/// The outcome of reading the head `text` to its end.
pub open spec fn head_outcome(text: Seq<char>, r: ReadStep) -> bool {
    if head_error(text) is Some {
        r == ReadStep::Rejected(head_error(text)->Some_0)
    } else if head_needs_more(text) {
        &&& r matches ReadStep::Continue(ReadState::Body(h))
        &&& head_matches(text, r->Continue_0->Body_0)
        &&& read_state_wf(r->Continue_0)
    } else {
        &&& r is Complete
        &&& request_from_text(text, r->Complete_0, ready_body(text))
    }
}

/// Reads requests from the text that arrives on a connection.
pub struct Parser {
    logging_enabled: bool,
}

fn strip_cr_text(s: &str) -> (r: String)
    ensures
        r@ == strip_cr(s@),
{
    let n = s.unicode_len();
    if n > 0 && s.get_char(n - 1) == '\r' {
        owned(s.substring_char(0, n - 1))
    } else {
        proof {
            assert(s@.subrange(0, n as int) =~= s@);
        }
        owned(s)
    }
}

/// The lines of a head.
pub fn split_head_lines(head: &str) -> (r: Vec<String>)
    ensures
        r@.len() == head_lines(head@).len(),
        forall|k: int| 0 <= k < r@.len() ==> #[trigger] r@[k]@ == head_lines(head@)[k],
{
    let p = split_pieces(head, '\n');
    let ghost ps = pieces(head@, '\n');
    proof {
        lemma_pieces_nonempty(head@, '\n');
    }
    let total = p.len();
    let mut n = total;
    if p[n - 1].unicode_len() == 0 {
        n = n - 1;
    }
    let ghost hl = head_lines(head@);
    let mut r: Vec<String> = Vec::new();
    let mut k: usize = 0;
    while k < n
        invariant
            n == hl.len(),
            n <= total,
            total == p@.len(),
            p@.len() == ps.len(),
            hl == head_lines(head@),
            ps == pieces(head@, '\n'),
            forall|j: int| 0 <= j < p@.len() ==> #[trigger] p@[j]@ == ps[j],
            k <= n,
            r@.len() == k,
            forall|j: int| 0 <= j < k ==> #[trigger] r@[j]@ == hl[j],
        decreases n - k,
    {
        let line = if k + 1 < total {
            strip_cr_text(p[k].as_str())
        } else {
            p[k].clone()
        };
        r.push(line);
        k = k + 1;
    }
    r
}

/// Every string has at least one piece.
pub proof fn lemma_pieces_nonempty(s: Seq<char>, c: char)
    ensures
        pieces(s, c).len() >= 1,
    decreases s.len(),
{
    if s.len() > 0 {
        lemma_pieces_nonempty(s.drop_last(), c);
    }
}

/// Splitting at a separator splits the pieces there.
pub proof fn lemma_pieces_concat(s: Seq<char>, t: Seq<char>, c: char)
    ensures
        pieces(s + seq![c] + t, c) == pieces(s, c) + pieces(t, c),
    decreases t.len(),
{
    let u = s + seq![c] + t;
    lemma_pieces_nonempty(s, c);
    if t.len() == 0 {
        assert(u.drop_last() =~= s);
        assert(pieces(t, c) == seq![Seq::<char>::empty()]);
        assert(pieces(u, c) =~= pieces(s, c) + pieces(t, c));
    } else {
        lemma_pieces_concat(s, t.drop_last(), c);
        lemma_pieces_nonempty(t.drop_last(), c);
        assert(u.drop_last() =~= s + seq![c] + t.drop_last());
        assert(u.last() == t.last());
        let a = pieces(s, c);
        let b = pieces(t.drop_last(), c);
        if t.last() == c {
            assert(pieces(u, c) =~= a + b.push(Seq::<char>::empty()));
        } else {
            assert((a + b).last() == b.last());
            assert(pieces(u, c) =~= a + b.update(b.len() - 1, b.last().push(t.last())));
        }
    }
}

/// A string without the separator is a single piece.
pub proof fn lemma_pieces_single(s: Seq<char>, c: char)
    requires
        forall|i: int| 0 <= i < s.len() ==> s[i] != c,
    ensures
        pieces(s, c) == seq![s],
    decreases s.len(),
{
    if s.len() > 0 {
        lemma_pieces_single(s.drop_last(), c);
        assert(s.drop_last().push(s.last()) =~= s);
        assert(seq![s.drop_last()].update(0, s) =~= seq![s]);
    } else {
        assert(s =~= Seq::<char>::empty());
    }
}

/// One header line as a field, if it holds one.
pub fn parse_header_line(line: &str) -> (r: Option<(String, String)>)
    ensures
        match r {
            Some((k, v)) => header_of(line@) == Some((k@, v@)),
            None => header_of(line@) is None,
        },
{
    match find_char(line, ':') {
        None => None,
        Some(i) => {
            let n = line.unicode_len();
            let key = trim_text(line.substring_char(0, i));
            let value = trim_text(line.substring_char(i + 1, n));
            if key.unicode_len() > 0 && value.unicode_len() > 0 {
                Some((owned(key), owned(value)))
            } else {
                None
            }
        },
    }
}

impl Parser {
    pub fn new() -> (r: Parser)
        ensures
            !r.spec_logging(),
    {
        Parser { logging_enabled: false }
    }

    /// Splits a request line at single spaces into method, target and version.
    pub fn parse_request_line(&self, line: &str) -> (r: RequestLine)
        ensures
            (r.0, r.1@, r.2@) == request_line_of(line@),
    {
        let p = split_pieces(line, ' ');
        proof {
            lemma_pieces_nonempty(line@, ' ');
        }
        let method = method_from_token(p[0].as_str());
        let target = if p.len() > 1 {
            p[1].clone()
        } else {
            String::new()
        };
        let version = if p.len() > 2 {
            p[2].clone()
        } else {
            String::new()
        };
        RequestLine(method, target, version)
    }

    /// The header fields of `lines`, from index `from` on.
    pub fn parse_headers(&self, lines: &Vec<String>, from: usize) -> (r: HeaderMap)
        ensures
            r.wf(),
            r@ == headers_of(lines@.map_values(|l: String| l@).subrange(
                if from <= lines@.len() {
                    from as int
                } else {
                    lines@.len() as int
                },
                lines@.len() as int,
            )),
    {
        let ghost ls = lines@.map_values(|l: String| l@);
        let n = lines.len();
        let start = if from <= n {
            from
        } else {
            n
        };
        let mut headers = HeaderMap::new();
        let mut k: usize = start;
        proof {
            assert(ls.subrange(start as int, start as int) =~= Seq::<Seq<char>>::empty());
        }
        while k < n
            invariant
                n == lines@.len(),
                ls == lines@.map_values(|l: String| l@),
                start <= k <= n,
                headers.wf(),
                headers@ == headers_of(ls.subrange(start as int, k as int)),
            decreases n - k,
        {
            let entry = parse_header_line(lines[k].as_str());
            proof {
                let sub = ls.subrange(start as int, k + 1);
                assert(sub.drop_last() =~= ls.subrange(start as int, k as int));
                assert(sub.last() == lines@[k as int]@);
            }
            match entry {
                Some((key, value)) => {
                    headers.insert(key, value);
                },
                None => {},
            }
            k = k + 1;
        }
        headers
    }
    /// Parses the head of `text` and what came of the body with it.
    pub fn parse_head(&self, text: &str) -> (r: Result<RequestHead, ParseError>)
        ensures
            match r {
                Ok(h) => head_error(text@) is None && head_matches(text@, h),
                Err(e) => head_error(text@) == Some(e),
            },
    {
        let total = text.unicode_len();
        let mut start: usize = 0;
        loop
            invariant
                total == text@.len(),
                start <= total,
                skip_seps(text@, 0) == skip_seps(text@, start as int),
            ensures
                start <= total,
                skip_seps(text@, 0) == start,
            decreases total - start,
        {
            if total >= 4 && start <= total - 4 && text.get_char(start) == '\r' && text.get_char(
                start + 1,
            ) == '\n' && text.get_char(start + 2) == '\r' && text.get_char(start + 3) == '\n' {
                start = start + 4;
            } else {
                proof {
                    assert(!sep_at(text@, start as int));
                }
                break;
            }
        }
        let msg = text.substring_char(start, total);
        proof {
            assert(msg@ == message(text@));
        }
        let n = msg.unicode_len();
        let sep = find_separator(msg);
        let head = match sep {
            Some(i) => msg.substring_char(0, i),
            None => msg,
        };
        let body = match sep {
            Some(i) => owned(msg.substring_char(i + 4, n)),
            None => String::new(),
        };
        proof {
            assert(head@ == head_part(text@));
            assert(body@ == body_part(text@));
        }
        let lines = split_head_lines(head);
        let ghost ls = head_lines(head@);
        if lines.len() == 0 {
            return Err(ParseError::InvalidRequest);
        }
        let rl = self.parse_request_line(lines[0].as_str());
        if rl.0 == HttpRequestMethod::UNKNOWN {
            return Err(ParseError::InvalidMethod);
        }
        let headers = self.parse_headers(&lines, 1);
        proof {
            assert(lines@.map_values(|l: String| l@).subrange(1, lines@.len() as int)
                =~= ls.drop_first());
        }
        let content_length = match headers.get("Content-Length") {
            Some(v) => match parse_decimal_u32(v.as_str()) {
                Some(len) => len,
                None => {
                    return Err(ParseError::InvalidContentLength);
                },
            },
            None => 0,
        };
        Ok(RequestHead { method: rl.0, target: rl.1, version: rl.2, headers, content_length, body })
    }

    /// A reader that has read nothing yet.
    pub fn start(&self) -> (r: ReadState)
        ensures
            r matches ReadState::Head(t) && t@.len() == 0,
    {
        ReadState::Head(String::new())
    }

    fn finish_head(&self, text: &str) -> (r: ReadStep)
        ensures
            head_outcome(text@, r),
    {
        match self.parse_head(text) {
            Err(e) => ReadStep::Rejected(e),
            Ok(h) => {
                if h.content_length == 0 {
                    ReadStep::Complete(
                        HttpRequest::new(h.method, h.target, h.version, String::new(), h.headers),
                    )
                } else if h.body.as_str().as_bytes().len() as u64 >= h.content_length as u64 {
                    ReadStep::Complete(HttpRequest::new(h.method, h.target, h.version, h.body, h.headers))
                } else {
                    ReadStep::Continue(ReadState::Body(h))
                }
            },
        }
    }

    /// One step of reading a request: `chunk` is the text of the next read,
    /// or `None` for a read that brought nothing (the peer closed). While the
    /// head is incomplete the text is kept; once it is complete (or the peer
    /// closed) it is parsed; the body is then read until it holds the
    /// declared length, with no other way out: a peer that stops short keeps
    /// the reader waiting.
    pub fn advance(&self, state: ReadState, chunk: Option<String>) -> (r: ReadStep)
        requires
            read_state_wf(state),
        ensures
            match state {
                ReadState::Head(acc) => {
                    let t = match chunk {
                        Some(c) => acc@ + c@,
                        None => acc@,
                    };
                    if chunk is Some && first_sep(t) is None {
                        r matches ReadStep::Continue(ReadState::Head(s)) && s@ == t
                    } else {
                        head_outcome(t, r)
                    }
                },
                ReadState::Body(h) => match chunk {
                    None => r == ReadStep::Continue(ReadState::Body(h)),
                    Some(c) => {
                        let b = h.body@ + c@;
                        if byte_len(b) >= h.content_length {
                            r is Complete && request_from_head(h, r->Complete_0, b)
                        } else {
                            &&& r matches ReadStep::Continue(ReadState::Body(h2))
                            &&& h2.method == h.method
                            &&& h2.target == h.target
                            &&& h2.version == h.version
                            &&& h2.headers == h.headers
                            &&& h2.content_length == h.content_length
                            &&& h2.body@ == b
                            &&& read_state_wf(r->Continue_0)
                        }
                    },
                },
            },
    {
        match state {
            ReadState::Head(acc) => {
                let mut text = acc;
                let more = match chunk {
                    Some(c) => {
                        text.append(c.as_str());
                        true
                    },
                    None => false,
                };
                if more {
                    match find_separator(text.as_str()) {
                        None => {
                            return ReadStep::Continue(ReadState::Head(text));
                        },
                        Some(_) => {},
                    }
                }
                self.finish_head(text.as_str())
            },
            ReadState::Body(h) => match chunk {
                None => ReadStep::Continue(ReadState::Body(h)),
                Some(c) => {
                    let mut h = h;
                    h.body.append(c.as_str());
                    if h.body.as_str().as_bytes().len() as u64 >= h.content_length as u64 {
                        ReadStep::Complete(HttpRequest::new(h.method, h.target, h.version, h.body, h.headers))
                    } else {
                        ReadStep::Continue(ReadState::Body(h))
                    }
                },
            },
        }
    }
}

/// A request line of a known method, a target and a version, none holding a
/// space, reads back as that method, target and version.
pub proof fn lemma_request_line_round_trip(
    m: HttpRequestMethod,
    target: Seq<char>,
    version: Seq<char>,
)
    requires
        m != HttpRequestMethod::UNKNOWN,
        forall|i: int| 0 <= i < target.len() ==> target[i] != ' ',
        forall|i: int| 0 <= i < version.len() ==> version[i] != ' ',
    ensures
        request_line_of(method_token(m) + seq![' '] + target + seq![' '] + version) == (
            m,
            target,
            version,
        ),
{
    let a = method_token(m);
    lemma_method_token(m);
    let rest = target + seq![' '] + version;
    assert(a + seq![' '] + target + seq![' '] + version =~= a + seq![' '] + rest);
    lemma_pieces_concat(a, rest, ' ');
    lemma_pieces_concat(target, version, ' ');
    lemma_pieces_single(a, ' ');
    lemma_pieces_single(target, ' ');
    lemma_pieces_single(version, ' ');
    let p = pieces(a + seq![' '] + rest, ' ');
    assert(p =~= seq![a, target, version]);
}

/// The text of a request with no header and no body.
pub open spec fn bare_request_text(
    m: HttpRequestMethod,
    target: Seq<char>,
    version: Seq<char>,
) -> Seq<char> {
    method_token(m) + seq![' '] + target + seq![' '] + version + seq!['\r', '\n', '\r', '\n']
}

/// For every known method, the text `"M target version\r\n\r\n"` is a
/// complete request of method `M` with that target and version, no header
/// and an empty body.
pub proof fn lemma_bare_request_text(m: HttpRequestMethod, target: Seq<char>, version: Seq<char>)
    requires
        m != HttpRequestMethod::UNKNOWN,
        forall|i: int|
            0 <= i < target.len() ==> target[i] != ' ' && target[i] != '\r' && target[i] != '\n',
        forall|i: int|
            0 <= i < version.len() ==> version[i] != ' ' && version[i] != '\r' && version[i]
                != '\n',
    ensures
        ({
            let text = bare_request_text(m, target, version);
            let ls = head_lines(head_part(text));
            &&& head_error(text) is None
            &&& !head_needs_more(text)
            &&& ls.len() == 1
            &&& request_line_of(ls[0]) == (m, target, version)
            &&& headers_of(ls.drop_first()) == Map::<Seq<char>, Seq<char>>::empty()
            &&& ready_body(text).len() == 0
        }),
{
    lemma_method_token(m);
    let a = method_token(m);
    let line = a + seq![' '] + target + seq![' '] + version;
    let text = bare_request_text(m, target, version);
    let ln = line.len() as int;
    assert(text =~= line + seq!['\r', '\n', '\r', '\n']);
    assert forall|i: int| 0 <= i < ln implies line[i] != '\r' && line[i] != '\n' by {
        if i < a.len() {
            assert(line[i] == a[i]);
        } else if i == a.len() {
        } else if i < a.len() + 1 + target.len() {
            assert(line[i] == target[i - a.len() - 1]);
        } else if i == a.len() + 1 + target.len() {
        } else {
            assert(line[i] == version[i - a.len() - 2 - target.len()]);
        }
    }
    assert(text[0] == a[0]);
    assert(!sep_at(text, 0));
    assert(skip_seps(text, 0) == 0);
    assert(message(text) =~= text);
    assert(sep_at(text, ln));
    assert forall|j: int| 0 <= j < ln implies !sep_at(text, j) by {
        assert(text[j] == line[j]);
    }
    assert(is_first_sep(text, ln));
    let k = choose|k: int| is_first_sep(text, k);
    assert(k == ln) by {
        if k < ln {
            assert(!sep_at(text, k));
        } else if k > ln {
            assert(sep_at(text, ln));
        }
    }
    assert(head_part(text) =~= line);
    lemma_pieces_single(line, '\n');
    let ls = head_lines(line);
    assert(ls =~= seq![line]);
    lemma_request_line_round_trip(m, target, version);
    assert(ls.drop_first() =~= Seq::<Seq<char>>::empty());
    assert(headers_of(ls.drop_first()) == Map::<Seq<char>, Seq<char>>::empty());
}

/// A first token that names no known method reads as `UNKNOWN`, and a head
/// whose request line starts with it is rejected for its method.
pub proof fn lemma_unknown_token_rejected(text: Seq<char>)
    requires
        head_lines(head_part(text)).len() > 0,
        forall|m: HttpRequestMethod|
            m != HttpRequestMethod::UNKNOWN ==> pieces(head_lines(head_part(text))[0], ' ')[0]
                != #[trigger] method_token(m),
    ensures
        request_line_of(head_lines(head_part(text))[0]).0 == HttpRequestMethod::UNKNOWN,
        head_error(text) == Some(ParseError::InvalidMethod),
{
    let t = pieces(head_lines(head_part(text))[0], ' ')[0];
    assert(t != method_token(HttpRequestMethod::GET));
    assert(t != method_token(HttpRequestMethod::HEAD));
    assert(t != method_token(HttpRequestMethod::POST));
    assert(t != method_token(HttpRequestMethod::PUT));
    assert(t != method_token(HttpRequestMethod::PATCH));
    assert(t != method_token(HttpRequestMethod::DELETE));
    assert(t != method_token(HttpRequestMethod::OPTIONS));
    assert(t != method_token(HttpRequestMethod::CONNECT));
    assert(t != method_token(HttpRequestMethod::TRACE));
}

/// Once the head is accepted, the request is complete with the head alone
/// exactly when the body that came with it has the declared length in bytes
/// or more; short of that, the reader asks for more.
pub proof fn lemma_body_already_read(text: Seq<char>)
    requires
        head_error(text) is None,
    ensures
        head_needs_more(text) <==> byte_len(body_part(text)) < declared_length(text),
        byte_len(body_part(text)) == declared_length(text) ==> ready_body(text) == body_part(
            text,
        ),
{
    if declared_length(text) == 0 && byte_len(body_part(text)) == 0 {
        if body_part(text).len() > 0 {
            assert(vstd::utf8::encode_scalar(body_part(text)[0] as u32).len() > 0);
        }
        assert(body_part(text) =~= Seq::<char>::empty());
    }
}

/// A header field is kept exactly when its line has a `:` and neither side
/// is empty once trimmed; key and value are then trimmed already, so
/// trimming them again changes nothing.
pub proof fn lemma_header_trimmed(line: Seq<char>)
    ensures
        header_of(line) is Some <==> (first_index(line, ':') is Some && trimmed(
            line.subrange(0, first_index(line, ':')->Some_0),
        ).len() > 0 && trimmed(
            line.subrange(first_index(line, ':')->Some_0 + 1, line.len() as int),
        ).len() > 0),
        header_of(line) is Some ==> trimmed(header_of(line)->Some_0.0) == header_of(line)->Some_0.0
            && trimmed(header_of(line)->Some_0.1) == header_of(line)->Some_0.1,
{
    match first_index(line, ':') {
        None => {},
        Some(i) => {
            lemma_trimmed_idempotent(line.subrange(0, i));
            lemma_trimmed_idempotent(line.subrange(i + 1, line.len() as int));
        },
    }
}

/// Whether a header line holds a field that is kept.
pub open spec fn usable_line() -> spec_fn(Seq<char>) -> bool {
    |l: Seq<char>| header_of(l) is Some
}

/// Lines that hold no usable field contribute nothing: dropping every line
/// without a `:`, or with an empty key or value once trimmed, leaves the
/// fields as they are.
pub proof fn lemma_unusable_lines_ignored(lines: Seq<Seq<char>>)
    ensures
        headers_of(lines.filter(usable_line())) == headers_of(lines),
    decreases lines.len(),
{
    reveal(Seq::filter);
    if lines.len() > 0 {
        lemma_unusable_lines_ignored(lines.drop_last());
        let sub = lines.drop_last().filter(usable_line());
        if usable_line()(lines.last()) {
            assert(lines.filter(usable_line()) == sub.push(lines.last()));
            assert(sub.push(lines.last()).drop_last() =~= sub);
        } else {
            assert(lines.filter(usable_line()) == sub);
        }
    } else {
        assert(lines.filter(usable_line()) =~= lines);
    }
}

impl Logging for Parser {
    closed spec fn spec_logging(&self) -> bool {
        self.logging_enabled
    }

    fn enable_logging(&mut self) {
        self.logging_enabled = true;
    }

    fn disable_logging(&mut self) {
        self.logging_enabled = false;
    }

    fn logging_enabled(&self) -> bool {
        self.logging_enabled
    }
}

} // verus!
