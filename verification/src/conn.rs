//! The per-connection lifecycle. A connection is a loop of exchanges:
//! parse one request, answer it, and go on only while parsing and
//! writing succeed and the request did not carry `Connection: close`.
//! The decisions live here; the reads and writes that drive them stay
//! with the caller that owns the socket.

use vstd::prelude::*;
use vstd::string::StringSliceAdditionalSpecFns;

use crate::bytes::bytes_eq_ignore_case;
use crate::bytes::eq_ignore_case;
use crate::headers::Headers;

verus! {

/// Whether a request asks the server to close the connection after its
/// response: its `Connection` header equals `close` up to ASCII case.
pub open spec fn spec_should_close(h: Map<Seq<u8>, Seq<u8>>) -> bool {
    h.contains_key("Connection".spec_bytes()) && eq_ignore_case(
        h["Connection".spec_bytes()],
        "close".spec_bytes(),
    )
}

pub fn should_close(headers: &Headers) -> (r: bool)
    ensures
        r == spec_should_close(headers@),
{
    match headers.get("Connection".as_bytes()) {
        Some(value) => bytes_eq_ignore_case(value, "close".as_bytes()),
        None => false,
    }
}

/// A connection is open between exchanges, or closed for good: once
/// closed, nothing is read from or written to it again.
#[derive(Clone, Copy, Debug, PartialEq, Eq, Structural)]
pub enum ConnState {
    Open,
    Closed,
}

/// The state after one exchange: open only when the request was parsed,
/// the response was written, and the request did not ask to close.
pub open spec fn spec_next_state(parse_ok: bool, write_ok: bool, close_requested: bool) -> ConnState {
    if parse_ok && write_ok && !close_requested {
        ConnState::Open
    } else {
        ConnState::Closed
    }
}

pub fn next_state(parse_ok: bool, write_ok: bool, close_requested: bool) -> (r: ConnState)
    ensures
        r == spec_next_state(parse_ok, write_ok, close_requested),
{
    if parse_ok && write_ok && !close_requested {
        ConnState::Open
    } else {
        ConnState::Closed
    }
}

/// Law: after an exchange whose request was parsed and whose response
/// was written, a request that asked to close — a `Connection` header
/// equal to `close` in any letter case — leaves the connection closed,
/// so exactly that one response is written to it; a request without a
/// `Connection` header leaves it open, so a further request can be
/// parsed from the same connection.
pub proof fn lemma_connection_lifecycle(h: Map<Seq<u8>, Seq<u8>>)
    ensures
        spec_should_close(h) ==> spec_next_state(true, true, spec_should_close(h))
            == ConnState::Closed,
        !h.contains_key("Connection".spec_bytes()) ==> spec_next_state(
            true,
            true,
            spec_should_close(h),
        ) == ConnState::Open,
{
}

} // verus!
