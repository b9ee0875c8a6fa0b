//! The request parser. One HTTP/1.1 request is read from the front of a
//! byte buffer: a request line split on whitespace into up to three
//! tokens (missing tokens become empty), header lines up to a blank line
//! (split on the first colon, name and value trimmed, lines without a
//! colon skipped), and a body of exactly `Content-Length` bytes when that
//! header holds a number. `spec_parse` is the whole parse as one spec
//! function; `None` stands for a message the buffer does not yet complete.

use vstd::prelude::*;
use vstd::string::StringSliceAdditionalSpecFns;

use crate::bytes::all_digits;
use crate::bytes::digits_part;
use crate::bytes::find_byte;
use crate::bytes::find_byte_in;
use crate::bytes::lemma_dec_value_nonneg;
use crate::bytes::lemma_find_byte;
use crate::bytes::lemma_find_byte_ge;
use crate::bytes::lemma_scan_token;
use crate::bytes::lemma_skip_ws;
use crate::bytes::parse_usize;
use crate::bytes::parse_usize_spec;
use crate::bytes::scan_token;
use crate::bytes::scan_token_in;
use crate::bytes::skip_ws;
use crate::bytes::skip_ws_in;
use crate::bytes::subrange_vec;
use crate::bytes::trim_range;
use crate::bytes::trimmed;
use crate::headers::Headers;

verus! {

/// The header name whose value gives the body length.
pub open spec fn content_length_key() -> Seq<u8> {
    "Content-Length".spec_bytes()
}

/// The mathematical shape of a parsed request.
pub ghost struct ReqView {
    pub method: Seq<u8>,
    pub path: Seq<u8>,
    pub version: Seq<u8>,
    pub headers: Map<Seq<u8>, Seq<u8>>,
    pub body: Option<Seq<u8>>,
}

/// One parsed request: method, origin-form path, version, the header
/// mapping, and the body when a `Content-Length` header announced one.
pub struct HttpRequest {
    pub method: Vec<u8>,
    pub path: Vec<u8>,
    pub version: Vec<u8>,
    pub headers: Headers,
    pub body: Option<Vec<u8>>,
}

impl View for HttpRequest {
    type V = ReqView;

    open spec fn view(&self) -> ReqView {
        ReqView {
            method: self.method@,
            path: self.path@,
            version: self.version@,
            headers: self.headers@,
            body: match self.body {
                Some(b) => Some(b@),
                None => None,
            },
        }
    }
}

/// Reading header lines from `from` with the mapping `acc` built so far:
/// a blank line ends the block and yields the mapping and the index after
/// the blank line; a line with a colon adds its trimmed name and value,
/// later lines overwriting earlier ones; a line without a colon is
/// skipped. `None` means the block is not finished within `s`.
pub open spec fn parse_headers_from(
    s: Seq<u8>,
    from: int,
    acc: Map<Seq<u8>, Seq<u8>>,
) -> Option<(Map<Seq<u8>, Seq<u8>>, int)>
    decreases s.len() - from,
    via parse_headers_from_dec
{
    let nl = find_byte(s, from, s.len() as int, 10);
    if nl >= s.len() {
        None
    } else if nl == from || (nl == from + 1 && s[from] == 13) {
        Some((acc, nl + 1))
    } else {
        let colon = find_byte(s, from, nl, 58);
        if colon < nl {
            parse_headers_from(s, nl + 1, acc.insert(trimmed(s, from, colon), trimmed(s, colon + 1, nl + 1)))
        } else {
            parse_headers_from(s, nl + 1, acc)
        }
    }
}

#[via_fn]
proof fn parse_headers_from_dec(s: Seq<u8>, from: int, acc: Map<Seq<u8>, Seq<u8>>) {
    if from <= s.len() {
        lemma_find_byte_ge(s, from, s.len() as int, 10);
    }
}

/// The parse of one request from the front of `s`: the request view and
/// the number of bytes it consumed, or `None` when `s` does not yet hold
/// a complete message.
pub open spec fn spec_parse(s: Seq<u8>) -> Option<(ReqView, int)> {
    let nl = find_byte(s, 0, s.len() as int, 10);
    if nl >= s.len() {
        None
    } else {
        let m_start = skip_ws(s, 0, nl);
        let m_end = scan_token(s, m_start, nl);
        let p_start = skip_ws(s, m_end, nl);
        let p_end = scan_token(s, p_start, nl);
        let v_start = skip_ws(s, p_end, nl);
        let v_end = scan_token(s, v_start, nl);
        match parse_headers_from(s, nl + 1, Map::empty()) {
            None => None,
            Some(done) => {
                let hmap = done.0;
                let body_start = done.1;
                let rv = ReqView {
                    method: s.subrange(m_start, m_end),
                    path: s.subrange(p_start, p_end),
                    version: s.subrange(v_start, v_end),
                    headers: hmap,
                    body: None,
                };
                if hmap.contains_key(content_length_key()) {
                    match parse_usize_spec(hmap[content_length_key()]) {
                        Some(len) => if body_start + len <= s.len() {
                            Some(
                                (
                                    ReqView {
                                        method: s.subrange(m_start, m_end),
                                        path: s.subrange(p_start, p_end),
                                        version: s.subrange(v_start, v_end),
                                        headers: hmap,
                                        body: Some(s.subrange(body_start, body_start + len)),
                                    },
                                    body_start + len,
                                ),
                            )
                        } else {
                            None
                        },
                        None => Some((rv, body_start)),
                    }
                } else {
                    Some((rv, body_start))
                }
            },
        }
    }
}

/// Read the header block that starts at `start`, adding each header to
/// `headers`; the result is the index just past the blank line.
fn parse_header_block(input: &Vec<u8>, start: usize, headers: &mut Headers) -> (r: Option<usize>)
    requires
        start <= input@.len(),
    ensures
        match r {
            Some(bs) => parse_headers_from(input@, start as int, old(headers)@) == Some(
                (final(headers)@, bs as int),
            ) && start < bs <= input@.len(),
            None => parse_headers_from(input@, start as int, old(headers)@) is None,
        },
    decreases input@.len() - start,
{
    let n = input.len();
    let nl = find_byte_in(input, start, n, 10);
    proof {
        lemma_find_byte(input@, start as int, n as int, 10);
    }
    if nl >= n {
        return None;
    }
    if nl == start || (nl == start + 1 && input[start] == 13) {
        return Some(nl + 1);
    }
    let colon = find_byte_in(input, start, nl, 58);
    proof {
        lemma_find_byte(input@, start as int, nl as int, 58);
    }
    if colon < nl {
        let name = trim_range(input, start, colon);
        let value = trim_range(input, colon + 1, nl + 1);
        headers.insert(name, value);
    }
    parse_header_block(input, nl + 1, headers)
}

impl HttpRequest {
    /// Parse one request from the front of `input`. `None` means the bytes
    /// read so far do not yet complete a message; on success the second
    /// component is how many bytes of `input` the request consumed, so
    /// that the next request of a kept-alive connection starts there.
    pub fn parse(input: &Vec<u8>) -> (r: Option<(HttpRequest, usize)>)
        ensures
            match r {
                Some(p) => spec_parse(input@) == Some((p.0@, p.1 as int)),
                None => spec_parse(input@) is None,
            },
            r matches Some(p) ==> 0 < p.1 <= input@.len(),
    {
        let n = input.len();
        let nl = find_byte_in(input, 0, n, 10);
        proof {
            lemma_find_byte(input@, 0, n as int, 10);
        }
        if nl >= n {
            return None;
        }
        let m_start = skip_ws_in(input, 0, nl);
        proof {
            lemma_skip_ws(input@, 0, nl as int);
        }
        let m_end = scan_token_in(input, m_start, nl);
        proof {
            lemma_scan_token(input@, m_start as int, nl as int);
        }
        let p_start = skip_ws_in(input, m_end, nl);
        proof {
            lemma_skip_ws(input@, m_end as int, nl as int);
        }
        let p_end = scan_token_in(input, p_start, nl);
        proof {
            lemma_scan_token(input@, p_start as int, nl as int);
        }
        let v_start = skip_ws_in(input, p_end, nl);
        proof {
            lemma_skip_ws(input@, p_end as int, nl as int);
        }
        let v_end = scan_token_in(input, v_start, nl);
        proof {
            lemma_scan_token(input@, v_start as int, nl as int);
        }
        let method = subrange_vec(input, m_start, m_end);
        let path = subrange_vec(input, p_start, p_end);
        let version = subrange_vec(input, v_start, v_end);

        let mut headers = Headers::new();
        let body_start = match parse_header_block(input, nl + 1, &mut headers) {
            Some(bs) => bs,
            None => {
                return None;
            },
        };

        let mut body: Option<Vec<u8>> = None;
        let mut consumed: usize = body_start;
        match headers.get("Content-Length".as_bytes()) {
            Some(value) => {
                match parse_usize(value) {
                    Some(len) => {
                        if n - body_start >= len {
                            body = Some(subrange_vec(input, body_start, body_start + len));
                            consumed = body_start + len;
                        } else {
                            return None;
                        }
                    },
                    None => {},
                }
            },
            None => {},
        }

        let req = HttpRequest {
            method: method,
            path: path,
            version: version,
            headers: headers,
            body: body,
        };
        Some((req, consumed))
    }
}

proof fn lemma_parse_headers_from_bounds(s: Seq<u8>, from: int, acc: Map<Seq<u8>, Seq<u8>>)
    requires
        0 <= from <= s.len(),
        parse_headers_from(s, from, acc) is Some,
    ensures
        parse_headers_from(s, from, acc) matches Some(done) ==> from < done.1 <= s.len(),
    decreases s.len() - from,
{
    lemma_find_byte(s, from, s.len() as int, 10);
    let nl = find_byte(s, from, s.len() as int, 10);
    if nl < s.len() && !(nl == from || (nl == from + 1 && s[from] == 13)) {
        let colon = find_byte(s, from, nl, 58);
        if colon < nl {
            lemma_parse_headers_from_bounds(
                s,
                nl + 1,
                acc.insert(trimmed(s, from, colon), trimmed(s, colon + 1, nl + 1)),
            );
        } else {
            lemma_parse_headers_from_bounds(s, nl + 1, acc);
        }
    }
}

/// Law: when the parsed headers hold a `Content-Length` whose value reads
/// as the number `n`, the parsed body is present and is exactly the `n`
/// bytes that follow the header block — the last `n` of the bytes the
/// request consumed.
pub proof fn lemma_body_exact(s: Seq<u8>, rv: ReqView, consumed: int, n: int)
    requires
        spec_parse(s) == Some((rv, consumed)),
        rv.headers.contains_key(content_length_key()),
        parse_usize_spec(rv.headers[content_length_key()]) == Some(n),
    ensures
        rv.body == Some(s.subrange(consumed - n, consumed)),
        0 <= consumed - n <= consumed <= s.len(),
        rv.body matches Some(b) && b.len() == n,
{
    let nl = find_byte(s, 0, s.len() as int, 10);
    lemma_find_byte(s, 0, s.len() as int, 10);
    lemma_parse_headers_from_bounds(s, nl + 1, Map::empty());
    let value = rv.headers[content_length_key()];
    assert(all_digits(digits_part(value)));
    lemma_dec_value_nonneg(digits_part(value));
}

/// Law: a request whose headers carry no readable `Content-Length` — the
/// header absent, or its value not a number — is parsed with no body at
/// all, distinguishable from a present-but-empty body.
pub proof fn lemma_no_length_no_body(s: Seq<u8>, rv: ReqView, consumed: int)
    requires
        spec_parse(s) == Some((rv, consumed)),
        rv.headers.contains_key(content_length_key()) ==> parse_usize_spec(
            rv.headers[content_length_key()],
        ) is None,
    ensures
        rv.body is None,
        rv.body != Some(Seq::<u8>::empty()),
{
}

} // verus!
