//! The post endpoints: writing posts and replies, the front page, reading
//! a post and its replies, and deleting a post.

use vstd::prelude::*;

use super::{bare, respond, Next, Payload, PayloadView, Response, ResponseView, SessionView, Status};
use crate::identity::{parse_i32, parse_user_id};
use crate::models::post::{first_ten_newest, Post, PostRequest, PostTable, PostTableView};
use crate::models::{QueryResult, StoreError};

verus! {

/// The identity in the caller's session, as text.
pub open spec fn identity_view(identity: Option<String>) -> Option<Seq<char>> {
    match identity {
        Some(s) => Some(s@),
        None => None,
    }
}

/// A session identity, where there is one, reads as a user id. (The
/// handlers that read it stop the process otherwise.)
pub open spec fn identity_readable(identity: Option<Seq<char>>) -> bool {
    identity matches Some(s) ==> parse_i32(s) is Some
}

/// The user id a readable session identity names.
pub open spec fn session_user(identity: Option<Seq<char>>) -> i32 {
    parse_i32(identity.unwrap()).unwrap()
}

/// `POST /create_post`: a signed-in caller's post is stored under the id in
/// the session (201); without a session the answer is 404; a failed insert
/// answers 400.
pub open spec fn create_post_outcome(
    identity: Option<Seq<char>>,
    posts: PostTableView,
    body: Seq<char>,
    subject: Seq<char>,
    created: i64,
) -> (ResponseView, PostTableView) {
    if identity is None {
        (bare(Status::NotFound), posts)
    } else if posts.next_id is None {
        (bare(Status::BadRequest), posts)
    } else {
        (bare(Status::Created), posts.insert(session_user(identity), body, subject, created, false))
    }
}

/// First step of `POST /create_post`: without a session the answer is
/// 404; otherwise the post is inserted under the session's user id.
pub fn begin_create_post(identity: Option<String>) -> (r: Next)
    requires
        identity_readable(identity_view(identity)),
    ensures
        identity is None ==> (r matches Next::Respond(resp) && resp@ == bare(Status::NotFound)),
        identity is Some ==> r == Next::Continue(session_user(identity_view(identity))),
{
    match identity {
        None => Next::Respond(respond(Status::NotFound)),
        Some(id) => match parse_user_id(&id) {
            Some(u) => Next::Continue(u),
            None => {
                proof {
                    assert(false);
                }
                Next::Respond(respond(Status::BadRequest))
            },
        },
    }
}

/// Last step of `POST /create_post`: 201 once the insert succeeded, 400
/// when it failed.
pub fn finish_create_post(inserted: Result<QueryResult, StoreError>) -> (r: Response)
    ensures
        r@ == bare(if inserted is Ok { Status::Created } else { Status::BadRequest }),
{
    match inserted {
        Ok(_) => respond(Status::Created),
        Err(_) => respond(Status::BadRequest),
    }
}

/// Handles `POST /create_post`.
pub fn create_post(identity: Option<String>, post: PostRequest, posts: &mut PostTable, created: i64) -> (r: Response)
    requires
        old(posts)@.wf(),
        identity_readable(identity_view(identity)),
    ensures
        final(posts)@.wf(),
        (r@, final(posts)@) == create_post_outcome(
            identity_view(identity),
            old(posts)@,
            post.body@,
            post.subject@,
            created,
        ),
{
    match begin_create_post(identity) {
        Next::Respond(r) => r,
        Next::Continue(user_id) => finish_create_post(Post::create_post(user_id, post, posts, created)),
    }
}

/// `POST /create_reply/{id}`: a signed-in caller's reply is stored as a
/// reply under the id in the session and appended to the reply list of post
/// `parent_id` (which need not exist: then no row lists it), answering 201;
/// without a session, or when the insert fails, the answer is 400.
pub open spec fn create_reply_outcome(
    identity: Option<Seq<char>>,
    parent_id: i32,
    posts: PostTableView,
    body: Seq<char>,
    subject: Seq<char>,
    created: i64,
) -> (ResponseView, PostTableView) {
    if identity is None || posts.next_id is None {
        (bare(Status::BadRequest), posts)
    } else {
        (
            bare(Status::Created),
            posts.insert(session_user(identity), body, subject, created, true).link(
                parent_id,
                posts.next_id.unwrap(),
            ),
        )
    }
}

/// First step of `POST /create_reply/{id}`: without a session the answer
/// is 400; otherwise the reply is inserted under the session's user id.
pub fn begin_create_reply(identity: Option<String>) -> (r: Next)
    requires
        identity_readable(identity_view(identity)),
    ensures
        identity is None ==> (r matches Next::Respond(resp) && resp@ == bare(Status::BadRequest)),
        identity is Some ==> r == Next::Continue(session_user(identity_view(identity))),
{
    match identity {
        None => Next::Respond(respond(Status::BadRequest)),
        Some(id) => match parse_user_id(&id) {
            Some(u) => Next::Continue(u),
            None => {
                proof {
                    assert(false);
                }
                Next::Respond(respond(Status::BadRequest))
            },
        },
    }
}

/// Second step of `POST /create_reply/{id}`: once the reply is inserted its
/// id is appended to the parent's list; a failed insert answers 400.
pub fn after_reply_inserted(inserted: Result<i32, StoreError>) -> (r: Next)
    ensures
        inserted matches Ok(id) ==> r == Next::Continue(id),
        inserted is Err ==> (r matches Next::Respond(resp) && resp@ == bare(Status::BadRequest)),
{
    match inserted {
        Ok(id) => Next::Continue(id),
        Err(_) => Next::Respond(respond(Status::BadRequest)),
    }
}

/// Last step of `POST /create_reply/{id}`: 201 once the link succeeded
/// (whether or not the parent exists), 400 when it failed.
pub fn finish_create_reply(linked: Result<QueryResult, StoreError>) -> (r: Response)
    ensures
        r@ == bare(if linked is Ok { Status::Created } else { Status::BadRequest }),
{
    match linked {
        Ok(_) => respond(Status::Created),
        Err(_) => respond(Status::BadRequest),
    }
}

/// Handles `POST /create_reply/{id}`.
pub fn create_reply(
    identity: Option<String>,
    post: PostRequest,
    parent_id: i32,
    posts: &mut PostTable,
    created: i64,
) -> (r: Response)
    requires
        old(posts)@.wf(),
        identity_readable(identity_view(identity)),
    ensures
        final(posts)@.wf(),
        (r@, final(posts)@) == create_reply_outcome(
            identity_view(identity),
            parent_id,
            old(posts)@,
            post.body@,
            post.subject@,
            created,
        ),
{
    let user_id = match begin_create_reply(identity) {
        Next::Respond(r) => return r,
        Next::Continue(u) => u,
    };
    let reply_id = match after_reply_inserted(Post::create_reply(user_id, post, posts, created)) {
        Next::Respond(r) => return r,
        Next::Continue(id) => id,
    };
    finish_create_reply(Post::link_reply(parent_id, reply_id, posts))
}

/// Handles `GET /posts`: the front page, 200 with the ten newest posts that
/// are not replies.
pub fn get_top_ten(posts: &PostTable) -> (r: Response)
    ensures
        r.status == Status::Success,
        r@.session == SessionView::Keep,
        r@.payload matches PayloadView::Posts(s) && first_ten_newest(posts@.top_level(), s),
{
    let list = Post::get_top_ten(posts);
    Response { status: Status::Success, payload: Payload::Posts(list), session: super::SessionChange::Keep }
}

/// `GET /post/{id}`: 200 with the post, or 404.
pub open spec fn get_post_outcome(post_id: i32, posts: PostTableView) -> ResponseView {
    if posts.contains(post_id) {
        ResponseView {
            status: Status::Success,
            payload: PayloadView::Post(posts.row(post_id)),
            session: SessionView::Keep,
        }
    } else {
        bare(Status::NotFound)
    }
}

/// Answers `GET /post/{id}` from the lookup's result: 200 with the post, or 404.
pub fn post_response(found: Result<Post, StoreError>) -> (r: Response)
    ensures
        found matches Ok(p) ==> r@ == (ResponseView {
            status: Status::Success,
            payload: PayloadView::Post(p@),
            session: SessionView::Keep,
        }),
        found is Err ==> r@ == bare(Status::NotFound),
{
    match found {
        Ok(p) => Response { status: Status::Success, payload: Payload::Post(p), session: super::SessionChange::Keep },
        Err(_) => respond(Status::NotFound),
    }
}

/// Handles `GET /post/{id}`.
pub fn get_post(post_id: i32, posts: &PostTable) -> (r: Response)
    ensures
        r@ == get_post_outcome(post_id, posts@),
{
    post_response(Post::get_post(post_id, posts))
}

/// `GET /replies/{id}`: 200 with the replies in the order they were
/// linked, or 404 when the post or one of its replies is missing.
pub open spec fn get_replies_outcome(post_id: i32, posts: PostTableView) -> ResponseView {
    match posts.replies(post_id) {
        Some(s) => ResponseView { status: Status::Success, payload: PayloadView::Posts(s), session: SessionView::Keep },
        None => bare(Status::NotFound),
    }
}

/// Handles `GET /replies/{id}`.
pub fn get_replies(post_id: i32, posts: &PostTable) -> (r: Response)
    ensures
        r@ == get_replies_outcome(post_id, posts@),
{
    match Post::get_replies(post_id, posts) {
        Ok(v) => Response { status: Status::Success, payload: Payload::Posts(v), session: super::SessionChange::Keep },
        Err(_) => respond(Status::NotFound),
    }
}

/// `DELETE /post`: 404 when the post does not exist; otherwise 400 without
/// a session, and for any signed-in caller the post is deleted (204). The
/// author is looked up only to check that the post exists; it is not
/// compared with the caller.
pub open spec fn delete_post_outcome(
    identity: Option<Seq<char>>,
    post_id: i32,
    posts: PostTableView,
) -> (ResponseView, PostTableView) {
    if !posts.contains(post_id) {
        (bare(Status::NotFound), posts)
    } else if identity is None {
        (bare(Status::BadRequest), posts)
    } else {
        (bare(Status::NoContent), posts.delete(post_id))
    }
}

/// First step of `DELETE /post`, once the post's author has been looked
/// up: 404 when the post does not exist, 400 without a session, and
/// otherwise the post is deleted on behalf of the session's user id.
pub fn begin_delete_post(author: Result<i32, StoreError>, identity: Option<String>) -> (r: Next)
    requires
        author is Ok ==> identity_readable(identity_view(identity)),
    ensures
        author is Err ==> (r matches Next::Respond(resp) && resp@ == bare(Status::NotFound)),
        author is Ok && identity is None ==> (r matches Next::Respond(resp) && resp@ == bare(
            Status::BadRequest,
        )),
        author is Ok && identity is Some ==> r == Next::Continue(session_user(identity_view(identity))),
{
    match author {
        Ok(_) => {},
        Err(_) => {
            return Next::Respond(respond(Status::NotFound));
        },
    }
    match identity {
        None => Next::Respond(respond(Status::BadRequest)),
        Some(id) => match parse_user_id(&id) {
            Some(u) => Next::Continue(u),
            None => {
                proof {
                    assert(false);
                }
                Next::Respond(respond(Status::BadRequest))
            },
        },
    }
}

/// Last step of `DELETE /post`: 204 once the delete succeeded, 404 when it failed.
pub fn finish_delete_post(deleted: Result<QueryResult, StoreError>) -> (r: Response)
    ensures
        r@ == bare(if deleted is Ok { Status::NoContent } else { Status::NotFound }),
{
    match deleted {
        Ok(_) => respond(Status::NoContent),
        Err(_) => respond(Status::NotFound),
    }
}

/// Handles `DELETE /post`.
pub fn delete_post(identity: Option<String>, post_id: i32, posts: &mut PostTable) -> (r: Response)
    requires
        old(posts)@.wf(),
        old(posts)@.contains(post_id) ==> identity_readable(identity_view(identity)),
    ensures
        final(posts)@.wf(),
        (r@, final(posts)@) == delete_post_outcome(identity_view(identity), post_id, old(posts)@),
{
    match begin_delete_post(Post::get_user_id(post_id, posts), identity) {
        Next::Respond(r) => r,
        Next::Continue(_) => finish_delete_post(Post::delete_post(post_id, posts)),
    }
}

} // verus!
