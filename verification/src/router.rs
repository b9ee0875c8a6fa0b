//! The route dispatcher: a pure table match on method and path prefix.
//! It never touches the filesystem itself; reading or writing a file is
//! handed back as an action, and a second step turns the outcome of that
//! action into the reply. Path prefixes match by string prefix, not by
//! segment, and file names are joined to the serving directory as given.

use vstd::prelude::*;
use vstd::slice::slice_to_vec;
use vstd::string::StringSliceAdditionalSpecFns;

use crate::bytes::starts_with;
use crate::bytes::subrange_vec;
use crate::bytes::vec_eq_slice;
use crate::bytes::vec_starts_with;
use crate::request::HttpRequest;
use crate::request::ReqView;
use crate::response::ContentType;
use crate::response::Status;

verus! {

/// The mathematical shape of a reply before serialization.
pub ghost struct ReplyView {
    pub status: Status,
    pub body: Option<Seq<u8>>,
    pub content_type: Option<ContentType>,
}

/// Status, optional body, and optional content type that the builder
/// will serialize.
pub struct Reply {
    pub status: Status,
    pub body: Option<Vec<u8>>,
    pub content_type: Option<ContentType>,
}

impl View for Reply {
    type V = ReplyView;

    open spec fn view(&self) -> ReplyView {
        ReplyView {
            status: self.status,
            body: match self.body {
                Some(b) => Some(b@),
                None => None,
            },
            content_type: self.content_type,
        }
    }
}

/// What a request asks of the server: a reply that needs nothing else,
/// or one filesystem step whose outcome decides the reply.
pub ghost enum ActionView {
    Respond(ReplyView),
    ReadFile(Seq<u8>),
    WriteFile(Seq<u8>, Seq<u8>),
}

pub enum Action {
    /// Answer immediately with this reply.
    Respond(Reply),
    /// Read this name under the serving directory, then `reply_for_read`.
    ReadFile(Vec<u8>),
    /// Write the second component to this name under the serving
    /// directory, then `reply_for_write`.
    WriteFile(Vec<u8>, Vec<u8>),
}

impl View for Action {
    type V = ActionView;

    open spec fn view(&self) -> ActionView {
        match self {
            Action::Respond(rep) => ActionView::Respond(rep@),
            Action::ReadFile(name) => ActionView::ReadFile(name@),
            Action::WriteFile(name, contents) => ActionView::WriteFile(name@, contents@),
        }
    }
}

/// The body of a user-agent reply: the `User-Agent` header, or the
/// literal `Unknown` when the request carries none.
pub open spec fn spec_user_agent(h: Map<Seq<u8>, Seq<u8>>) -> Seq<u8> {
    if h.contains_key("User-Agent".spec_bytes()) {
        h["User-Agent".spec_bytes()]
    } else {
        "Unknown".spec_bytes()
    }
}

/// The file name of a path in the `/files` family: the bytes after the
/// `/files/` prefix, or the path as given when the full prefix with its
/// trailing slash is absent.
pub open spec fn spec_file_name(path: Seq<u8>) -> Seq<u8> {
    if starts_with(path, "/files/".spec_bytes()) {
        path.skip("/files/".spec_bytes().len() as int)
    } else {
        path
    }
}

/// The routing table: method and path prefix decide the action.
pub open spec fn spec_route(r: ReqView) -> ActionView {
    if r.method == "GET".spec_bytes() && r.path == "/".spec_bytes() {
        ActionView::Respond(ReplyView { status: Status::Okay, body: None, content_type: None })
    } else if r.method == "GET".spec_bytes() && starts_with(r.path, "/echo/".spec_bytes()) {
        ActionView::Respond(
            ReplyView {
                status: Status::Okay,
                body: Some(r.path.skip("/echo/".spec_bytes().len() as int)),
                content_type: Some(ContentType::TextPlain),
            },
        )
    } else if r.method == "GET".spec_bytes() && starts_with(r.path, "/user-agent".spec_bytes()) {
        ActionView::Respond(
            ReplyView {
                status: Status::Okay,
                body: Some(spec_user_agent(r.headers)),
                content_type: Some(ContentType::TextPlain),
            },
        )
    } else if r.method == "GET".spec_bytes() && starts_with(r.path, "/files".spec_bytes()) {
        ActionView::ReadFile(spec_file_name(r.path))
    } else if r.method == "POST".spec_bytes() && starts_with(r.path, "/files/".spec_bytes()) {
        match r.body {
            Some(b) => ActionView::WriteFile(spec_file_name(r.path), b),
            None => ActionView::Respond(
                ReplyView { status: Status::BadRequest, body: None, content_type: None },
            ),
        }
    } else {
        ActionView::Respond(ReplyView { status: Status::NotFound, body: None, content_type: None })
    }
}

pub fn file_name_of(path: &Vec<u8>) -> (r: Vec<u8>)
    ensures
        r@ == spec_file_name(path@),
{
    let prefix = "/files/".as_bytes();
    if vec_starts_with(path, prefix) {
        let r = subrange_vec(path, prefix.len(), path.len());
        proof {
            assert(path@.skip(prefix@.len() as int) =~= path@.subrange(
                prefix@.len() as int,
                path@.len() as int,
            ));
        }
        r
    } else {
        slice_to_vec(path.as_slice())
    }
}

/// Decide what the request asks for. A pure function of the request: it
/// reads nothing and changes nothing.
pub fn route(req: &HttpRequest) -> (r: Action)
    ensures
        r@ == spec_route(req@),
{
    let is_get = vec_eq_slice(&req.method, "GET".as_bytes());
    if is_get && vec_eq_slice(&req.path, "/".as_bytes()) {
        Action::Respond(Reply { status: Status::Okay, body: None, content_type: None })
    } else if is_get && vec_starts_with(&req.path, "/echo/".as_bytes()) {
        let prefix = "/echo/".as_bytes();
        let rest = subrange_vec(&req.path, prefix.len(), req.path.len());
        proof {
            assert(req.path@.skip(prefix@.len() as int) =~= req.path@.subrange(
                prefix@.len() as int,
                req.path@.len() as int,
            ));
        }
        Action::Respond(
            Reply {
                status: Status::Okay,
                body: Some(rest),
                content_type: Some(ContentType::TextPlain),
            },
        )
    } else if is_get && vec_starts_with(&req.path, "/user-agent".as_bytes()) {
        let agent: Vec<u8> = match req.headers.get("User-Agent".as_bytes()) {
            Some(value) => slice_to_vec(value.as_slice()),
            None => slice_to_vec("Unknown".as_bytes()),
        };
        Action::Respond(
            Reply {
                status: Status::Okay,
                body: Some(agent),
                content_type: Some(ContentType::TextPlain),
            },
        )
    } else if is_get && vec_starts_with(&req.path, "/files".as_bytes()) {
        Action::ReadFile(file_name_of(&req.path))
    } else if vec_eq_slice(&req.method, "POST".as_bytes()) && vec_starts_with(
        &req.path,
        "/files/".as_bytes(),
    ) {
        match &req.body {
            Some(b) => Action::WriteFile(file_name_of(&req.path), slice_to_vec(b.as_slice())),
            None => Action::Respond(
                Reply { status: Status::BadRequest, body: None, content_type: None },
            ),
        }
    } else {
        Action::Respond(Reply { status: Status::NotFound, body: None, content_type: None })
    }
}

/// The reply once a requested file read has its outcome: the bytes read
/// give 200 with an octet-stream body; a read that failed for any reason
/// gives 404 with no body.
pub open spec fn spec_reply_for_read(content: Option<Seq<u8>>) -> ReplyView {
    match content {
        Some(b) => ReplyView {
            status: Status::Okay,
            body: Some(b),
            content_type: Some(ContentType::ApplicationOctetStream),
        },
        None => ReplyView { status: Status::NotFound, body: None, content_type: None },
    }
}

pub fn reply_for_read(content: Option<Vec<u8>>) -> (r: Reply)
    ensures
        r@ == spec_reply_for_read(
            match content {
                Some(b) => Some(b@),
                None => None,
            },
        ),
{
    match content {
        Some(b) => Reply {
            status: Status::Okay,
            body: Some(b),
            content_type: Some(ContentType::ApplicationOctetStream),
        },
        None => Reply { status: Status::NotFound, body: None, content_type: None },
    }
}

/// The reply once a requested file write has its outcome: 201 with no
/// body when the write went through, 500 with no body when it failed.
pub open spec fn spec_reply_for_write(ok: bool) -> ReplyView {
    ReplyView {
        status: if ok {
            Status::Created
        } else {
            Status::InternalServerError
        },
        body: None,
        content_type: None,
    }
}

pub fn reply_for_write(ok: bool) -> (r: Reply)
    ensures
        r@ == spec_reply_for_write(ok),
{
    Reply {
        status: if ok {
            Status::Created
        } else {
            Status::InternalServerError
        },
        body: None,
        content_type: None,
    }
}

/// Law: echoing is idempotent and free of side effects. The reply to
/// `GET /echo/<rest>` is a pure function of the path alone — 200, body
/// `<rest>`, type text/plain — so repeated requests with the same path
/// route to identical replies, whatever their headers or bodies.
pub proof fn lemma_echo_idempotent(r1: ReqView, r2: ReqView)
    requires
        r1.method == "GET".spec_bytes(),
        r2.method == "GET".spec_bytes(),
        starts_with(r1.path, "/echo/".spec_bytes()),
        r2.path == r1.path,
    ensures
        spec_route(r1) == spec_route(r2),
        spec_route(r1) == ActionView::Respond(
            ReplyView {
                status: Status::Okay,
                body: Some(r1.path.skip("/echo/".spec_bytes().len() as int)),
                content_type: Some(ContentType::TextPlain),
            },
        ),
{
    broadcast use vstd::string::is_ascii_spec_bytes;

    reveal_strlit("/");
    reveal_strlit("/echo/");
    assert(vstd::string::is_ascii("/"));
    assert(vstd::string::is_ascii("/echo/"));
    assert("/".spec_bytes().len() == 1);
    assert("/echo/".spec_bytes().len() == 6);
    assert(r1.path.len() >= 6);
}

} // verus!
