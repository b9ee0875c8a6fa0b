//! The response builder. A response is serialized as the status line,
//! then `Connection: close` when the connection is to end, then content
//! negotiation: when a body is present and the request's
//! `Accept-Encoding` value contains the substring `gzip`, the body is
//! compressed and `Content-Encoding: gzip` is emitted. `Content-Type`
//! appears only when the caller supplies one, `Content-Length` only when
//! the bytes actually sent are non-empty, and a blank line precedes the
//! body bytes.

use vstd::prelude::*;
use vstd::slice::slice_to_vec;
use vstd::string::StringSliceAdditionalSpecFns;

use crate::bytes::contains_bytes;
use crate::bytes::contains_seq;
use crate::bytes::dec_repr;
use crate::bytes::push_bytes;
use crate::bytes::push_dec;
use crate::bytes::push_str_bytes;
use crate::headers::Headers;

verus! {

/// The status lines this server sends.
#[derive(Clone, Copy, Debug, PartialEq, Eq, Structural)]
pub enum Status {
    Okay,
    Created,
    BadRequest,
    NotFound,
    InternalServerError,
}

/// The content types this server labels bodies with.
#[derive(Clone, Copy, Debug, PartialEq, Eq, Structural)]
pub enum ContentType {
    TextPlain,
    ApplicationOctetStream,
}

/// Code and reason of a status, as written on the wire.
pub open spec fn status_text(st: Status) -> Seq<u8> {
    match st {
        Status::Okay => "200 OK".spec_bytes(),
        Status::Created => "201 Created".spec_bytes(),
        Status::BadRequest => "400 Bad Request".spec_bytes(),
        Status::NotFound => "404 Not Found".spec_bytes(),
        Status::InternalServerError => "500 Internal Server Error".spec_bytes(),
    }
}

pub fn status_str(st: Status) -> (r: &'static str)
    ensures
        r.spec_bytes() == status_text(st),
{
    match st {
        Status::Okay => "200 OK",
        Status::Created => "201 Created",
        Status::BadRequest => "400 Bad Request",
        Status::NotFound => "404 Not Found",
        Status::InternalServerError => "500 Internal Server Error",
    }
}

pub open spec fn content_type_text(ct: ContentType) -> Seq<u8> {
    match ct {
        ContentType::TextPlain => "text/plain".spec_bytes(),
        ContentType::ApplicationOctetStream => "application/octet-stream".spec_bytes(),
    }
}

pub fn content_type_str(ct: ContentType) -> (r: &'static str)
    ensures
        r.spec_bytes() == content_type_text(ct),
{
    match ct {
        ContentType::TextPlain => "text/plain",
        ContentType::ApplicationOctetStream => "application/octet-stream",
    }
}

/// Whether the request accepts a gzip body: its `Accept-Encoding` value
/// contains the substring `gzip`, matched case-sensitively.
pub open spec fn spec_supports_gzip(h: Map<Seq<u8>, Seq<u8>>) -> bool {
    h.contains_key("Accept-Encoding".spec_bytes()) && contains_seq(
        h["Accept-Encoding".spec_bytes()],
        "gzip".spec_bytes(),
    )
}

pub fn supports_gzip(headers: &Headers) -> (r: bool)
    ensures
        r == spec_supports_gzip(headers@),
{
    match headers.get("Accept-Encoding".as_bytes()) {
        Some(value) => contains_bytes(value, "gzip".as_bytes()),
        None => false,
    }
}

/// The gzip stream that compressing these bytes produces.
pub uninterp spec fn gzip_of(data: Seq<u8>) -> Seq<u8>;

/// The bytes a gzip stream decodes to, or nothing for a malformed stream.
pub uninterp spec fn gunzip_of(data: Seq<u8>) -> Option<Seq<u8>>;

/// Relies on flate2's `write::GzEncoder` at the default level: it writes a
/// fixed gzip header (zero timestamp, unknown-system marker), so the
/// stream depends on the input bytes alone, and decoding the stream gives
/// back exactly the bytes compressed. Writing into a `Vec` cannot fail.
#[verifier::external_body]
fn gzip_compress(data: &Vec<u8>) -> (r: Vec<u8>)
    ensures
        r@ == gzip_of(data@),
        gunzip_of(r@) == Some(data@),
{
    let mut encoder = flate2::write::GzEncoder::new(Vec::new(), flate2::Compression::default());
    std::io::Write::write_all(&mut encoder, data.as_slice()).unwrap();
    encoder.finish().unwrap()
}

/// Relies on flate2's `read::GzDecoder`: decoding is a function of the
/// stream bytes alone, and a malformed stream reports an error.
#[verifier::external_body]
fn gzip_decompress(data: &Vec<u8>) -> (r: Option<Vec<u8>>)
    ensures
        match r {
            Some(v) => gunzip_of(data@) == Some(v@),
            None => gunzip_of(data@) is None,
        },
{
    let mut out = Vec::new();
    let mut decoder = flate2::read::GzDecoder::new(data.as_slice());
    match std::io::Read::read_to_end(&mut decoder, &mut out) {
        Ok(_) => Some(out),
        Err(_) => None,
    }
}

pub open spec fn opt_view(body: Option<&Vec<u8>>) -> Option<Seq<u8>> {
    match body {
        Some(b) => Some(b@),
        None => None,
    }
}

/// The bytes actually sent as the response body: the gzip stream of the
/// body when one is present and the request accepts gzip, the body
/// unchanged otherwise, nothing when there is no body.
pub open spec fn spec_payload(h: Map<Seq<u8>, Seq<u8>>, body: Option<Seq<u8>>) -> Seq<u8> {
    match body {
        Some(b) => if spec_supports_gzip(h) {
            gzip_of(b)
        } else {
            b
        },
        None => Seq::empty(),
    }
}

/// The serialized response, byte for byte.
pub open spec fn spec_build_response(
    h: Map<Seq<u8>, Seq<u8>>,
    st: Status,
    body: Option<Seq<u8>>,
    ct: Option<ContentType>,
    close: bool,
) -> Seq<u8> {
    let payload = spec_payload(h, body);
    let with_status = "HTTP/1.1 ".spec_bytes() + status_text(st) + "\r\n".spec_bytes();
    let with_close = if close {
        with_status + "Connection: close\r\n".spec_bytes()
    } else {
        with_status
    };
    let with_enc = if body is Some && spec_supports_gzip(h) {
        with_close + "Content-Encoding: gzip\r\n".spec_bytes()
    } else {
        with_close
    };
    let with_ct = match ct {
        Some(c) => with_enc + "Content-Type: ".spec_bytes() + content_type_text(c)
            + "\r\n".spec_bytes(),
        None => with_enc,
    };
    let with_len = if payload.len() > 0 {
        with_ct + "Content-Length: ".spec_bytes() + dec_repr(payload.len() as int)
            + "\r\n".spec_bytes()
    } else {
        with_ct
    };
    with_len + "\r\n".spec_bytes() + payload
}

/// Serialize a response for a request whose headers are `headers`.
pub fn build_response(
    headers: &Headers,
    status: Status,
    body: Option<&Vec<u8>>,
    content_type: Option<ContentType>,
    should_close: bool,
) -> (r: Vec<u8>)
    ensures
        r@ == spec_build_response(headers@, status, opt_view(body), content_type, should_close),
{
    let use_gzip = supports_gzip(headers);
    let mut response: Vec<u8> = Vec::new();
    push_str_bytes(&mut response, "HTTP/1.1 ");
    proof {
        assert(Seq::<u8>::empty() + "HTTP/1.1 ".spec_bytes() =~= "HTTP/1.1 ".spec_bytes());
    }
    push_str_bytes(&mut response, status_str(status));
    push_str_bytes(&mut response, "\r\n");
    if should_close {
        push_str_bytes(&mut response, "Connection: close\r\n");
    }
    let mut encoded = false;
    let payload: Vec<u8> = match body {
        Some(b) => {
            if use_gzip {
                encoded = true;
                gzip_compress(b)
            } else {
                slice_to_vec(b.as_slice())
            }
        },
        None => Vec::new(),
    };
    if encoded {
        push_str_bytes(&mut response, "Content-Encoding: gzip\r\n");
    }
    match content_type {
        Some(ct) => {
            push_str_bytes(&mut response, "Content-Type: ");
            push_str_bytes(&mut response, content_type_str(ct));
            push_str_bytes(&mut response, "\r\n");
        },
        None => {},
    }
    if payload.len() > 0 {
        push_str_bytes(&mut response, "Content-Length: ");
        push_dec(&mut response, payload.len());
        push_str_bytes(&mut response, "\r\n");
    }
    push_str_bytes(&mut response, "\r\n");
    push_bytes(&mut response, payload.as_slice());
    response
}

/// Law: compressing a body for a request that accepts gzip and then
/// decompressing what the response carries yields byte-identical content.
/// The payload of such a response is `gzip_of` the body, and `gunzip_of`
/// maps it back to exactly the original bytes.
pub fn gzip_round_trip(headers: &Headers, body: &Vec<u8>) -> (r: Option<Vec<u8>>)
    requires
        spec_supports_gzip(headers@),
    ensures
        r matches Some(v) && v@ == body@,
        gunzip_of(spec_payload(headers@, Some(body@))) == Some(body@),
{
    let compressed = gzip_compress(body);
    gzip_decompress(&compressed)
}

} // verus!
