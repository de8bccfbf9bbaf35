//! The HTTP handlers: what each endpoint answers and how it changes the
//! tables and the caller's session. The tables stand for the database the
//! handlers talk to; the session is the identity kept in the auth cookie.

pub mod post;
pub mod user;

use vstd::prelude::*;

use crate::models::post::{post_views, Post, PostView};
use crate::models::user::UserName;

verus! {

/// The HTTP status a handler answers with.
#[derive(Debug, Clone, Copy, PartialEq, Eq, Structural)]
pub enum Status {
    Success,
    Created,
    Accepted,
    NoContent,
    BadRequest,
    Unauthorized,
    Forbidden,
    NotFound,
}

/// The numeric HTTP status code.
pub open spec fn status_code(s: Status) -> u16 {
    match s {
        Status::Success => 200,
        Status::Created => 201,
        Status::Accepted => 202,
        Status::NoContent => 204,
        Status::BadRequest => 400,
        Status::Unauthorized => 401,
        Status::Forbidden => 403,
        Status::NotFound => 404,
    }
}

impl Status {
    /// The numeric HTTP status code.
    pub fn code(&self) -> (r: u16)
        ensures
            r == status_code(*self),
    {
        match self {
            Status::Success => 200,
            Status::Created => 201,
            Status::Accepted => 202,
            Status::NoContent => 204,
            Status::BadRequest => 400,
            Status::Unauthorized => 401,
            Status::Forbidden => 403,
            Status::NotFound => 404,
        }
    }
}

/// The JSON body of an answer, if any.
#[derive(Debug, Clone, PartialEq, Eq)]
pub enum Payload {
    Empty,
    Posts(Vec<Post>),
    Post(Post),
    UserName(UserName),
}

/// The mathematical content of a `Payload`.
pub enum PayloadView {
    Empty,
    Posts(Seq<PostView>),
    Post(PostView),
    UserName(Seq<char>),
}

impl View for Payload {
    type V = PayloadView;

    open spec fn view(&self) -> PayloadView {
        match self {
            Payload::Empty => PayloadView::Empty,
            Payload::Posts(v) => PayloadView::Posts(post_views(v@)),
            Payload::Post(p) => PayloadView::Post(p@),
            Payload::UserName(n) => PayloadView::UserName(n.username@),
        }
    }
}

/// What an answer does to the caller's session.
#[derive(Debug, Clone, PartialEq, Eq)]
pub enum SessionChange {
    /// Leave the session as it is.
    Keep,
    /// Sign the caller in under this identity.
    Remember(String),
    /// Sign the caller out.
    Forget,
}

/// The mathematical content of a `SessionChange`.
pub enum SessionView {
    Keep,
    Remember(Seq<char>),
    Forget,
}

impl View for SessionChange {
    type V = SessionView;

    open spec fn view(&self) -> SessionView {
        match self {
            SessionChange::Keep => SessionView::Keep,
            SessionChange::Remember(s) => SessionView::Remember(s@),
            SessionChange::Forget => SessionView::Forget,
        }
    }
}

/// A handler's answer.
#[derive(Debug, Clone, PartialEq, Eq)]
pub struct Response {
    pub status: Status,
    pub payload: Payload,
    pub session: SessionChange,
}

/// The mathematical content of a `Response`.
pub struct ResponseView {
    pub status: Status,
    pub payload: PayloadView,
    pub session: SessionView,
}

impl View for Response {
    type V = ResponseView;

    open spec fn view(&self) -> ResponseView {
        ResponseView { status: self.status, payload: self.payload@, session: self.session@ }
    }
}

/// What a handler does after one of its steps: answer now, or go on with
/// the next statement, which needs the given value (a user id, a reply id).
#[derive(Debug, Clone, PartialEq, Eq)]
pub enum Next {
    Respond(Response),
    Continue(i32),
}

/// An answer with no body that leaves the session alone.
pub open spec fn bare(status: Status) -> ResponseView {
    ResponseView { status, payload: PayloadView::Empty, session: SessionView::Keep }
}

/// Builds an answer with no body that leaves the session alone.
pub fn respond(status: Status) -> (r: Response)
    ensures
        r@ == bare(status),
{
    Response { status, payload: Payload::Empty, session: SessionChange::Keep }
}

} // verus!
